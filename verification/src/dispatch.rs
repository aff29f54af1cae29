use vstd::prelude::*;
use crate::common::{
    escape_chars, js_escaped, mime_type, mime_type_for, reply_text, Reply, CONTENT_TYPE_HTML, CONTENT_TYPE_JSON,
    CONTENT_TYPE_TEXT,
};
use crate::text::{chars_of, chars_eq, push_all, push_str, str_is, string_of};

verus! {

/// What happens to an ipc call.
pub enum PostIpcCheck {
    /// A call from the backend itself: it goes to the backend with no window.
    Backend,
    /// A call of a known window whose nonce, if given, is the window's id.
    Forward { browser_window_id: String },
    /// A known window, but the nonce is not its id: refused.
    BadNonce,
    /// No window has this http id: refused.
    UnknownWindow,
}

/// Checks an ipc call: the backend's own calls pass; a window's call needs a known window
/// and, when it carries a nonce, that nonce must be the window's id.
pub fn post_ipc_check(from_backend: bool, browser_window_id: Option<&String>, nonce: &Option<String>) -> (r: PostIpcCheck)
    ensures
        from_backend ==> r is Backend,
        !from_backend ==> match browser_window_id {
            None => r is UnknownWindow,
            Some(w) => match nonce {
                Some(n) => if n@ == w@ {
                    r matches PostIpcCheck::Forward { browser_window_id: b } && b@ == w@
                } else {
                    r is BadNonce
                },
                None => r matches PostIpcCheck::Forward { browser_window_id: b } && b@ == w@,
            },
        },
{
    if from_backend {
        return PostIpcCheck::Backend;
    }
    match browser_window_id {
        None => PostIpcCheck::UnknownWindow,
        Some(w) => match nonce {
            Some(n) => {
                let a = chars_of(n.as_str());
                let b = chars_of(w.as_str());
                if chars_eq(&a, &b) {
                    PostIpcCheck::Forward { browser_window_id: w.clone() }
                } else {
                    PostIpcCheck::BadNonce
                }
            },
            None => PostIpcCheck::Forward { browser_window_id: w.clone() },
        },
    }
}

/// A refusal: `403`, with the given content type and reason.
pub fn reply_forbidden(content_type: &str, reason: &str) -> (r: Reply)
    ensures
        r.status == 403,
        r.content_type@ == content_type@,
        r.body@ == vstd::utf8::encode_utf8(reason@),
{
    reply_text(403, content_type, reason)
}

/// The answer to a window's ipc call that got no answer in time: `410`, `expired`.
pub fn reply_expired() -> (r: Reply)
    ensures
        r.status == 410,
        r.content_type@ == CONTENT_TYPE_TEXT@,
        r.body@ == vstd::utf8::encode_utf8("expired"@),
{
    reply_text(410, CONTENT_TYPE_TEXT, "expired")
}

/// The answer to a refused ipc call: a bad nonce or an unknown window (`403`, html).
pub fn post_ipc_refusal(check: &PostIpcCheck) -> (r: Option<Reply>)
    ensures
        match check {
            PostIpcCheck::BadNonce => r matches Some(rep) && rep.status == 403 && rep.content_type@ == CONTENT_TYPE_HTML@
                && rep.body@ == vstd::utf8::encode_utf8("nonce"@),
            PostIpcCheck::UnknownWindow => r matches Some(rep) && rep.status == 403 && rep.content_type@ == CONTENT_TYPE_HTML@
                && rep.body@ == vstd::utf8::encode_utf8("http_id"@),
            _ => r is None,
        },
{
    match check {
        PostIpcCheck::BadNonce => Some(reply_forbidden(CONTENT_TYPE_HTML, "nonce")),
        PostIpcCheck::UnknownWindow => Some(reply_forbidden(CONTENT_TYPE_HTML, "http_id")),
        _ => None,
    }
}

/// Whether a window may ask for the process description: only a known window whose
/// nonce is its id.
pub fn process_info_allowed(browser_window_id: Option<&String>, nonce: &String) -> (r: bool)
    ensures
        r == match browser_window_id {
            Some(w) => w@ == nonce@,
            None => false,
        },
{
    match browser_window_id {
        Some(w) => {
            let a = chars_of(w.as_str());
            let b = chars_of(nonce.as_str());
            chars_eq(&a, &b)
        },
        None => false,
    }
}

/// The answer sent to a window for its ipc call: the file named by the backend (its
/// contents, typed by its path; `404` when it could not be read), else the data the
/// backend sent as json (`404` when there is none).
pub fn set_ipc_response_reply(file_path: &Option<String>, file_data: Option<Vec<u8>>, data_blob: Option<Vec<u8>>) -> (r: Reply)
    ensures
        match file_path {
            Some(p) => match file_data {
                Some(d) => r.status == 200 && r.content_type@ == mime_type_for(p@) && r.body == d,
                None => r.status == 404 && r.content_type@ == CONTENT_TYPE_HTML@ && r.body@ == vstd::utf8::encode_utf8("not found"@),
            },
            None => match data_blob {
                Some(d) => r.status == 200 && r.content_type@ == CONTENT_TYPE_JSON@ && r.body == d,
                None => r.status == 404 && r.content_type@ == CONTENT_TYPE_HTML@ && r.body@ == vstd::utf8::encode_utf8("not found"@),
            },
        },
{
    match file_path {
        Some(p) => match file_data {
            Some(d) => Reply { status: 200, content_type: mime_type(p.as_str()), body: d },
            None => reply_text(404, CONTENT_TYPE_HTML, "not found"),
        },
        None => match data_blob {
            Some(d) => Reply { status: 200, content_type: CONTENT_TYPE_JSON.to_owned(), body: d },
            None => reply_text(404, CONTENT_TYPE_HTML, "not found"),
        },
    }
}

/// Whether a window may read a file: it must be known, have a base directory, and the
/// file must lie under it. A refusal is `403`, html: `http_id` for an unknown window,
/// `forbidden` otherwise.
pub fn read_file_refusal(known_window: bool, has_base: bool, under_base: bool) -> (r: Option<Reply>)
    ensures
        !known_window ==> (r matches Some(rep) && rep.status == 403 && rep.content_type@ == CONTENT_TYPE_HTML@
            && rep.body@ == vstd::utf8::encode_utf8("http_id"@)),
        known_window && !(has_base && under_base) ==> (r matches Some(rep) && rep.status == 403
            && rep.content_type@ == CONTENT_TYPE_HTML@ && rep.body@ == vstd::utf8::encode_utf8("forbidden"@)),
        known_window && has_base && under_base ==> r is None,
{
    if !known_window {
        Some(reply_forbidden(CONTENT_TYPE_HTML, "http_id"))
    } else if !(has_base && under_base) {
        Some(reply_forbidden(CONTENT_TYPE_HTML, "forbidden"))
    } else {
        None
    }
}

/// What a chosen menu entry does.
#[derive(Clone, Copy, Debug, PartialEq, Eq, Structural)]
pub enum MenuEventAction {
    /// `quit`: the application is told its window closes.
    Quit,
    /// `toggleDevTools`: the focused window's developer tools open or close.
    ToggleDevTools,
    /// Any other entry: the backend is told it was chosen.
    Selected,
}

/// What a chosen menu entry does.
pub fn menu_event_action(id: &str) -> (r: MenuEventAction)
    ensures
        r == (if id@ == "quit"@ {
            MenuEventAction::Quit
        } else if id@ == "toggleDevTools"@ {
            MenuEventAction::ToggleDevTools
        } else {
            MenuEventAction::Selected
        }),
{
    if str_is(id, "quit") {
        MenuEventAction::Quit
    } else if str_is(id, "toggleDevTools") {
        MenuEventAction::ToggleDevTools
    } else {
        MenuEventAction::Selected
    }
}

/// The script a shell run evaluates: the given code (escaped) is evaluated, and its
/// value, or a line break when it throws, is sent back as the shell's output.
pub open spec fn shell_script(code: Seq<char>) -> Seq<char> {
    "\n        (async function() {\n          let r = null;\n          try {r = await eval('"@ + js_escaped(code)
        + "');} catch (e) {r='\\n'}; \n          let req = window.createCMDRequest(true, 'ShellCallback');\n          req.send(JSON.stringify({action:'ShellCallback', 'stdout':r+''}));\n        })()"@
}

/// The script a shell run evaluates.
pub fn shell_script_for(code: &String) -> (r: String)
    ensures
        r@ == shell_script(code@),
{
    let mut v: Vec<char> = Vec::new();
    push_str(&mut v, "\n        (async function() {\n          let r = null;\n          try {r = await eval('");
    let c = chars_of(code.as_str());
    let e = escape_chars(&c);
    push_all(&mut v, &e);
    push_str(&mut v, "');} catch (e) {r='\\n'}; \n          let req = window.createCMDRequest(true, 'ShellCallback');\n          req.send(JSON.stringify({action:'ShellCallback', 'stdout':r+''}));\n        })()");
    string_of(&v)
}

} // verus!
