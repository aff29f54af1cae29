use vstd::prelude::*;
use crate::common::{escape_chars, js_escaped};
use crate::text::{
    byte_len, byte_offset, chars_of, contains, contains_seq, decimal, decimal_chars, find_first,
    find_last, first_index, is_prefix, last_index, lemma_utf8_len_at_least_len, push_all, push_str,
    replace_all, replace_all_chars, starts_with, string_of, substring, substring_of, utf8_len,
};

verus! {

/// The port of the window http server; the caller must have started it.
pub fn http_port(port: &Option<u16>) -> (r: u16)
    requires
        port.is_some(),
    ensures
        r == port.unwrap(),
{
    match port {
        Some(p) => *p,
        None => 0,
    }
}

/// Whether a request path is an ipc call (`/electrico-ipc...`).
pub fn is_electrico_ipc(path: &String) -> (r: bool)
    ensures
        r == is_prefix("/electrico-ipc"@, path@),
{
    let p = chars_of(path.as_str());
    let q = chars_of("/electrico-ipc");
    starts_with(&p, &q)
}

/// The file path that a module or file request names: without a leading `/`, and with
/// every `..` taken out.
pub open spec fn module_path_of(path: Seq<char>) -> Seq<char> {
    let f = if is_prefix("/"@, path) { path.subrange(1, path.len() as int) } else { path };
    replace_all(f, ".."@, ""@)
}

/// The file path that a module or file request names.
pub fn module_file_path(path: String) -> (r: String)
    ensures
        r@ == module_path_of(path@),
{
    let p = chars_of(path.as_str());
    let slash = chars_of("/");
    let mut fpath: Vec<char> = p;
    proof {
        reveal_strlit("/");
    }
    if starts_with(&fpath, &slash) {
        let n = byte_len(path.as_str());
        proof {
            lemma_utf8_len_at_least_len(path@);
        }
        let cut = substring(path.as_str(), 1, n);
        fpath = chars_of(cut);
        assert(fpath@ =~= path@.subrange(1, path@.len() as int));
    }
    let dots = chars_of("..");
    let empty = chars_of("");
    proof {
        reveal_strlit("..");
    }
    let out = replace_all_chars(&fpath, &dots, &empty);
    string_of(&out)
}

/// The address a file name is loaded from, before it is routed to the window server.
pub open spec fn file_url(fpath: Seq<char>) -> Seq<char> {
    if contains_seq(fpath, "://"@) {
        fpath
    } else {
        "electrico-file://file/"@ + fpath
    }
}

/// `url` sent to the window server: `http://electrico.localhost:<port>/<http id>@<protocol>/<rest>`,
/// where the protocol is what stands before the first `://` and the rest what follows it.
/// The cut is made where `str::find` reports it, a byte offset, used as a character index.
pub open spec fn routed_url(u: Seq<char>, http_id: Seq<char>, port: u16) -> Seq<char> {
    if contains_seq(u, "://"@) {
        let b = utf8_len(u.take(first_index(u, "://"@))) as int;
        "http://electrico.localhost:"@ + decimal(port as nat) + "/"@ + http_id + "@"@
            + substring_of(u, 0, b) + "/"@ + substring_of(u, b + 3, utf8_len(u) as int)
    } else {
        u
    }
}

/// `url` marked as a host page: `electrico_hostpage=true` added to its query.
pub open spec fn hostpage_url(u: Seq<char>) -> Seq<char> {
    if contains_seq(u, "?"@) {
        u + "&electrico_hostpage=true"@
    } else {
        u + "?electrico_hostpage=true"@
    }
}

/// What a window loads for `fpath`: web addresses as they are (`direct`), anything else
/// through the window server as a host page.
pub open spec fn load_url_spec(fpath: Seq<char>, http_id: Seq<char>, port: u16) -> (Seq<char>, bool) {
    if is_prefix("http://"@, fpath) || is_prefix("https://"@, fpath) {
        (fpath, true)
    } else {
        (hostpage_url(routed_url(file_url(fpath), http_id, port)), false)
    }
}

fn routed_concat(http_id: &String, http_port: u16, protocol: &str, rest: &str) -> (r: Vec<char>)
    ensures
        r@ == "http://electrico.localhost:"@ + decimal(http_port as nat) + "/"@ + http_id@ + "@"@
            + protocol@ + "/"@ + rest@,
{
    let mut v: Vec<char> = Vec::new();
    push_str(&mut v, "http://electrico.localhost:");
    let digits = decimal_chars(http_port as u64);
    push_all(&mut v, &digits);
    push_str(&mut v, "/");
    push_str(&mut v, http_id.as_str());
    push_str(&mut v, "@");
    push_str(&mut v, protocol);
    push_str(&mut v, "/");
    push_str(&mut v, rest);
    v
}

#[verifier::spinoff_prover]
#[verifier::rlimit(40)]
fn route_url(u: &Vec<char>, http_id: &String, http_port: u16) -> (r: Vec<char>)
    ensures
        r@ == routed_url(u@, http_id@, http_port),
{
    let sep = chars_of("://");
    let ustr = string_of(u);
    match find_first(u, &sep) {
        Some(k) => {
            let total = byte_len(ustr.as_str());
            let b = byte_offset(u, k);
            proof {
                reveal_strlit("://");
                crate::text::lemma_prefix_bytes(u@, k as int);
            }
            let protocol = substring(ustr.as_str(), 0, b);
            let rest = substring(ustr.as_str(), b + 3, total);
            routed_concat(http_id, http_port, protocol, rest)
        },
        None => u.clone(),
    }
}

fn mark_hostpage(u: &mut Vec<char>)
    ensures
        final(u)@ == hostpage_url(old(u)@),
{
    let q = chars_of("?");
    if contains(u, &q) {
        push_str(u, "&electrico_hostpage=true");
    } else {
        push_str(u, "?electrico_hostpage=true");
    }
}

/// The address a window loads for `fpath`, and whether it is loaded directly (a web
/// address) rather than through the window server.
pub fn load_url_target(fpath: &String, http_id: &String, http_port: u16) -> (r: (String, bool))
    ensures
        (r.0@, r.1) == load_url_spec(fpath@, http_id@, http_port),
{
    let f = chars_of(fpath.as_str());
    let http = chars_of("http://");
    let https = chars_of("https://");
    if starts_with(&f, &http) || starts_with(&f, &https) {
        return (fpath.clone(), true);
    }
    let sep = chars_of("://");
    let mut u: Vec<char> = Vec::new();
    if !contains(&f, &sep) {
        push_str(&mut u, "electrico-file://file/");
    }
    push_all(&mut u, &f);
    assert(u@ == file_url(fpath@));
    let mut routed = route_url(&u, http_id, http_port);
    mark_hostpage(&mut routed);
    (string_of(&routed), false)
}

/// The host page with each registered protocol `p` made local: every `p:` becomes
/// `*.localhost:<port>`, protocol after protocol.
pub open spec fn host_page_rewritten(html: Seq<char>, protocols: Seq<Seq<char>>, port: u16) -> Seq<char>
    decreases protocols.len(),
{
    if protocols.len() == 0 {
        html
    } else {
        replace_all(
            host_page_rewritten(html, protocols.drop_last(), port),
            protocols.last() + ":"@,
            "*.localhost:"@ + decimal(port as nat),
        )
    }
}

/// The views of a sequence of strings.
pub open spec fn string_views(v: Seq<String>) -> Seq<Seq<char>> {
    v.map_values(|s: String| s@)
}

/// Makes the registered protocols of a host page point at the window server.
pub fn rewrite_host_page(html: &String, protocols: &Vec<String>, port: u16) -> (r: String)
    ensures
        r@ == host_page_rewritten(html@, string_views(protocols@), port),
{
    let mut h = chars_of(html.as_str());
    let mut target: Vec<char> = Vec::new();
    push_str(&mut target, "*.localhost:");
    let digits = decimal_chars(port as u64);
    push_all(&mut target, &digits);
    let mut i: usize = 0;
    assert(string_views(protocols@).take(0) =~= Seq::<Seq<char>>::empty());
    while i < protocols.len()
        invariant
            i <= protocols.len(),
            target@ == "*.localhost:"@ + decimal(port as nat),
            h@ == host_page_rewritten(html@, string_views(protocols@).take(i as int), port),
        decreases protocols.len() - i,
    {
        let mut pat = chars_of(protocols[i].as_str());
        pat.push(':');
        proof {
            reveal_strlit(":");
            assert(string_views(protocols@).take(i + 1).drop_last() =~= string_views(protocols@).take(i as int));
            assert(pat@ =~= string_views(protocols@).take(i + 1).last() + ":"@);
        }
        h = replace_all_chars(&h, &pat, &target);
        i = i + 1;
    }
    assert(string_views(protocols@).take(protocols.len() as int) =~= string_views(protocols@));
    string_of(&h)
}

} // verus!

verus! {

/// Where a request to the window server goes.
pub enum FrontendRoute {
    /// A websocket: `asyncin` carries calls from the window, `asyncout` messages to it.
    /// The window id is what stands between the first character of the url and its
    /// last `/`; with no `/` no window is connected.
    WebSocket { inbound: bool, channel: String, window_id: Option<String> },
    /// An ipc call of the window (`/electrico-ipc...`).
    Ipc,
    /// A command for the application.
    Execute { command: crate::types::Command },
}

/// The parameters of a custom protocol request: `["<protocol, escaped>", "<path>"]`.
pub open spec fn protocol_params(protocol: Seq<char>, path: Seq<char>) -> Seq<char> {
    "[\""@ + js_escaped(protocol) + "\", \""@ + path + "\"]"@
}

/// The path of a request with its query, if any, after a `?`.
pub open spec fn path_with_query(url: Seq<char>, query: Option<Seq<char>>) -> Seq<char> {
    match query {
        Some(q) => url + "?"@ + q,
        None => url,
    }
}

/// Where a request to the window server goes, for the parts of its path and its query.
/// A file request (`electrico-mod` root or `electrico-file` protocol) reads the named
/// file; any other protocol is posted, under `request_id`, to the application's
/// `__electrico_protocol` channel.
pub fn route_frontend_request(
    http_id: String,
    protocol: String,
    url_root: String,
    url: String,
    query: Option<String>,
    request_id: String,
) -> (r: FrontendRoute)
    ensures
        (protocol@ == "asyncin"@ || protocol@ == "asyncout"@) ==> match r {
            FrontendRoute::WebSocket { inbound, channel, window_id } => inbound == (protocol@ == "asyncin"@) && channel == url_root
                && match window_id {
                    Some(w) => contains_seq(url@, "/"@)
                        && w@ == substring_of(url@, 1, utf8_len(url@.take(last_index(url@, "/"@))) as int),
                    None => !contains_seq(url@, "/"@),
                },
            _ => false,
        },
        !(protocol@ == "asyncin"@ || protocol@ == "asyncout"@) && is_prefix("/electrico-ipc"@, url@) ==> r is Ipc,
        !(protocol@ == "asyncin"@ || protocol@ == "asyncout"@) && !is_prefix("/electrico-ipc"@, url@)
            && (url_root@ == "electrico-mod"@ || protocol@ == "electrico-file"@) ==> match r {
            FrontendRoute::Execute { command: crate::types::Command::BrowserWindowReadFile { http_id: h, file_path, module } } =>
                h == http_id && file_path@ == module_path_of(url@) && module == (url_root@ == "electrico-mod"@),
            _ => false,
        },
        !(protocol@ == "asyncin"@ || protocol@ == "asyncout"@) && !is_prefix("/electrico-ipc"@, url@)
            && !(url_root@ == "electrico-mod"@ || protocol@ == "electrico-file"@) ==> match r {
            FrontendRoute::Execute { command: crate::types::Command::PostIPC { http_id: h, from_backend, nonce, request_id: rid, channel, params } } =>
                h == http_id && !from_backend && nonce is None && rid == request_id && channel@ == "__electrico_protocol"@
                && params@ == protocol_params(protocol@, path_with_query(url@, match query {
                    Some(q) => Some(q@),
                    None => None,
                })),
            _ => false,
        },
{
    let asyncin = crate::text::str_is(protocol.as_str(), "asyncin");
    let asyncout = crate::text::str_is(protocol.as_str(), "asyncout");
    if asyncin || asyncout {
        let u = chars_of(url.as_str());
        let slash = chars_of("/");
        let window_id = match find_last(&u, &slash) {
            Some(k) => {
                let ix = byte_offset_of(&url, &u, k);
                Some(substring(url.as_str(), 1, ix).to_owned())
            },
            None => None,
        };
        return FrontendRoute::WebSocket { inbound: asyncin, channel: url_root, window_id };
    }
    if is_electrico_ipc(&url) {
        return FrontendRoute::Ipc;
    }
    let module = crate::text::str_is(url_root.as_str(), "electrico-mod");
    if module || crate::text::str_is(protocol.as_str(), "electrico-file") {
        let file_path = module_file_path(url);
        return FrontendRoute::Execute { command: crate::types::Command::BrowserWindowReadFile { http_id, file_path, module } };
    }
    let mut path = chars_of(url.as_str());
    match &query {
        Some(q) => {
            push_str(&mut path, "?");
            push_str(&mut path, q.as_str());
        },
        None => {},
    }
    let mut params: Vec<char> = Vec::new();
    push_str(&mut params, "[\"");
    let pc = chars_of(protocol.as_str());
    let pe = escape_chars(&pc);
    push_all(&mut params, &pe);
    push_str(&mut params, "\", \"");
    push_all(&mut params, &path);
    push_str(&mut params, "\"]");
    FrontendRoute::Execute {
        command: crate::types::Command::PostIPC {
            http_id,
            from_backend: false,
            nonce: None,
            request_id,
            channel: "__electrico_protocol".to_owned(),
            params: string_of(&params),
        },
    }
}

/// The UTF-8 byte offset of character index `k` of a string whose characters are `u`.
fn byte_offset_of(s: &String, u: &Vec<char>, k: usize) -> (r: usize)
    requires
        u@ == s@,
        k <= u@.len(),
    ensures
        r == utf8_len(u@.take(k as int)),
{
    let total = byte_len(s.as_str());
    byte_offset(u, k)
}

/// The application command for a command a window sent over http: calls keep the
/// window's nonce; an alert becomes a message box of the dialog api whose message is the
/// alert text, escaped.
pub fn frontend_ipc_command(http_id: String, command: crate::types::FrontendCommand) -> (r: crate::types::Command)
    ensures
        match command {
            crate::types::FrontendCommand::PostIPC { request_id, nonce, data_blob, channel, params } =>
                r == (crate::types::Command::PostIPC { http_id, from_backend: false, nonce: Some(nonce), request_id, channel, params }),
            crate::types::FrontendCommand::GetProcessInfo { nonce } =>
                r == (crate::types::Command::FrontendGetProcessInfo { http_id, nonce }),
            crate::types::FrontendCommand::DOMContentLoaded { title } =>
                r == (crate::types::Command::DOMContentLoaded { http_id, title }),
            crate::types::FrontendCommand::Alert { message } => match r {
                crate::types::Command::Electron { invoke: crate::electron_types::ElectronCommand::Api { data } } =>
                    data@ == "{\"api\":\"Dialog\", \"command\":{\"action\":\"ShowMessageBoxSync\", \"options\":{\"message\":\""@
                        + js_escaped(message@) + "\"}}}"@,
                _ => false,
            },
            crate::types::FrontendCommand::GetProtocols => r is FrontendGetProtocols,
        },
{
    match command {
        crate::types::FrontendCommand::PostIPC { request_id, nonce, data_blob, channel, params } =>
            crate::types::Command::PostIPC { http_id, from_backend: false, nonce: Some(nonce), request_id, channel, params },
        crate::types::FrontendCommand::GetProcessInfo { nonce } =>
            crate::types::Command::FrontendGetProcessInfo { http_id, nonce },
        crate::types::FrontendCommand::DOMContentLoaded { title } =>
            crate::types::Command::DOMContentLoaded { http_id, title },
        crate::types::FrontendCommand::Alert { message } => {
            let mut d: Vec<char> = Vec::new();
            push_str(&mut d, "{\"api\":\"Dialog\", \"command\":{\"action\":\"ShowMessageBoxSync\", \"options\":{\"message\":\"");
            let m = chars_of(message.as_str());
            let e = escape_chars(&m);
            push_all(&mut d, &e);
            push_str(&mut d, "\"}}}");
            crate::types::Command::Electron { invoke: crate::electron_types::ElectronCommand::Api { data: string_of(&d) } }
        },
        crate::types::FrontendCommand::GetProtocols => crate::types::Command::FrontendGetProtocols,
    }
}

/// A call a window sent over its websocket that waits for its data frame.
pub struct PendingPost {
    pub request_id: String,
    pub nonce: String,
    pub channel: String,
    pub params: String,
}

/// Handles a frame of a window's inbound websocket. When a call waits for its data, the
/// frame is that data and the call is made with it. Otherwise the frame is a command
/// (`parsed`, `None` when it did not parse): a call is made at once, or waits when it
/// announces a data frame; anything else is dropped.
pub fn frontend_ws_frame(
    http_id: &String,
    pending: &mut Option<PendingPost>,
    payload: Vec<u8>,
    parsed: Option<crate::types::FrontendCommand>,
) -> (r: Option<(crate::types::Command, Option<Vec<u8>>)>)
    ensures
        match *old(pending) {
            Some(p) => *final(pending) is None && r == Some((crate::types::Command::PostIPC {
                http_id: *http_id, from_backend: false, nonce: Some(p.nonce), request_id: p.request_id,
                channel: p.channel, params: p.params }, Some(payload))),
            None => match parsed {
                Some(crate::types::FrontendCommand::PostIPC { request_id, nonce, data_blob, channel, params }) => if data_blob {
                    r is None && *final(pending) == Some(PendingPost { request_id, nonce, channel, params })
                } else {
                    *final(pending) is None && r == Some((crate::types::Command::PostIPC {
                        http_id: *http_id, from_backend: false, nonce: Some(nonce), request_id, channel, params }, None::<Vec<u8>>))
                },
                _ => r is None && *final(pending) is None,
            },
        },
{
    match pending.take() {
        Some(p) => Some((crate::types::Command::PostIPC {
            http_id: http_id.clone(), from_backend: false, nonce: Some(p.nonce), request_id: p.request_id,
            channel: p.channel, params: p.params }, Some(payload))),
        None => match parsed {
            Some(crate::types::FrontendCommand::PostIPC { request_id, nonce, data_blob, channel, params }) => if data_blob {
                *pending = Some(PendingPost { request_id, nonce, channel, params });
                None
            } else {
                Some((crate::types::Command::PostIPC {
                    http_id: http_id.clone(), from_backend: false, nonce: Some(nonce), request_id, channel, params }, None))
            },
            _ => None,
        },
    }
}

/// The preload part of a window's script: for each additional argument a call that adds
/// it (escaped), then the preload file's text when one was read.
pub open spec fn preload_script(args: Seq<Seq<char>>, preload: Option<Seq<char>>) -> Seq<char>
    decreases args.len(),
{
    if args.len() == 0 {
        match preload {
            Some(p) => p,
            None => Seq::<char>::empty(),
        }
    } else {
        let rest = preload_script(args.drop_last(), None);
        let with_last = rest + "window.__electrico.addArgument('"@ + js_escaped(args.last()) + "');"@;
        match preload {
            Some(p) => with_last + p,
            None => with_last,
        }
    }
}

/// The preload part of a window's script.
pub fn window_preload_script(args: &Option<Vec<String>>, preload: Option<String>) -> (r: String)
    ensures
        r@ == preload_script(match args {
            Some(a) => string_views(a@),
            None => Seq::<Seq<char>>::empty(),
        }, match preload {
            Some(p) => Some(p@),
            None => None,
        }),
{
    let ghost argv = match args {
        Some(a) => string_views(a@),
        None => Seq::<Seq<char>>::empty(),
    };
    let mut v: Vec<char> = Vec::new();
    match args {
        Some(a) => {
            let mut i: usize = 0;
            assert(string_views(a@).take(0) =~= Seq::<Seq<char>>::empty());
            while i < a.len()
                invariant
                    i <= a@.len(),
                    v@ == preload_script(string_views(a@).take(i as int), None),
                decreases a.len() - i,
            {
                assert(string_views(a@).take(i + 1).drop_last() =~= string_views(a@).take(i as int));
                assert(string_views(a@).take(i + 1).last() == a@[i as int]@);
                push_str(&mut v, "window.__electrico.addArgument('");
                let c = chars_of(a[i].as_str());
                let e = escape_chars(&c);
                push_all(&mut v, &e);
                push_str(&mut v, "');");
                i = i + 1;
            }
            assert(string_views(a@).take(a.len() as int) =~= string_views(a@));
        },
        None => {},
    }
    proof {
        lemma_preload_none_then_some(argv, preload);
    }
    match &preload {
        Some(p) => push_str(&mut v, p.as_str()),
        None => {},
    }
    string_of(&v)
}

proof fn lemma_preload_none_then_some(args: Seq<Seq<char>>, preload: Option<String>)
    ensures
        preload_script(args, match preload {
            Some(p) => Some(p@),
            None => None,
        }) == preload_script(args, None) + match preload {
            Some(p) => p@,
            None => Seq::<char>::empty(),
        },
{
    if args.len() == 0 {
        assert(Seq::<char>::empty() + Seq::<char>::empty() =~= Seq::<char>::empty());
        match preload {
            Some(p) => assert(Seq::<char>::empty() + p@ =~= p@),
            None => {},
        }
    } else {
        let with_last = preload_script(args.drop_last(), None) + "window.__electrico.addArgument('"@
            + js_escaped(args.last()) + "');"@;
        assert(with_last + Seq::<char>::empty() =~= with_last);
    }
}

/// The script a window starts with: the server's port and the window's http id, the
/// window's nonce, the preload function around `preload`, the window scripts, and the
/// nonce cleared again.
pub open spec fn window_init_script(port: u16, http_uid: Seq<char>, id: Seq<char>, preload: Seq<char>, frontendjs: Seq<char>) -> Seq<char> {
    "window.__http_protocol = {'http_port':"@ + decimal(port as nat) + ", 'http_uid':'"@ + http_uid
        + "'};\n                var __electrico_nonce='"@ + id
        + "'; \n                window.__electrico_preload=function(document, ph){\nph.before(__electrico_nonce); \n                var window=document.window; var process=window.process; \n                var require=document.window.require;\n"@
        + preload + "\nph.after();\n};\n\n                "@ + frontendjs
        + "\n\n                __electrico_nonce='';\n"@
}

/// The script a window starts with.
pub fn window_init_script_for(port: u16, http_uid: &String, id: &String, preload: &String, frontendjs: &String) -> (r: String)
    ensures
        r@ == window_init_script(port, http_uid@, id@, preload@, frontendjs@),
{
    let mut v: Vec<char> = Vec::new();
    push_str(&mut v, "window.__http_protocol = {'http_port':");
    let d = decimal_chars(port as u64);
    push_all(&mut v, &d);
    push_str(&mut v, ", 'http_uid':'");
    push_str(&mut v, http_uid.as_str());
    push_str(&mut v, "'};\n                var __electrico_nonce='");
    push_str(&mut v, id.as_str());
    push_str(&mut v, "'; \n                window.__electrico_preload=function(document, ph){\nph.before(__electrico_nonce); \n                var window=document.window; var process=window.process; \n                var require=document.window.require;\n");
    push_str(&mut v, preload.as_str());
    push_str(&mut v, "\nph.after();\n};\n\n                ");
    push_str(&mut v, frontendjs.as_str());
    push_str(&mut v, "\n\n                __electrico_nonce='';\n");
    string_of(&v)
}

} // verus!

verus! {

/// The window bookkeeping of the frontend: which window each http id belongs to, how many
/// windows are open, and the file protocols the application registered.
pub struct WindowRegistry {
    window_http_ids: vstd::hash_map::StringHashMap<String>,
    opened_windows: usize,
    file_protocols: Vec<String>,
}

impl WindowRegistry {
    /// The window id registered under each http id.
    pub closed spec fn http_ids(&self) -> Map<Seq<char>, String> {
        self.window_http_ids@
    }

    /// The number of open windows.
    pub closed spec fn open_count(&self) -> nat {
        self.opened_windows as nat
    }

    /// The registered file protocols, in order.
    pub closed spec fn protocols(&self) -> Seq<String> {
        self.file_protocols@
    }

    /// No windows, no protocols.
    pub fn new() -> (r: WindowRegistry)
        ensures
            r.http_ids() == Map::<Seq<char>, String>::empty(),
            r.open_count() == 0,
            r.protocols() == Seq::<String>::empty(),
    {
        WindowRegistry { window_http_ids: vstd::hash_map::StringHashMap::new(), opened_windows: 0, file_protocols: Vec::new() }
    }

    /// Registers a new window under its http id and counts it as open.
    pub fn register_window(&mut self, http_uid: String, id: String)
        requires
            old(self).open_count() < usize::MAX,
        ensures
            final(self).http_ids() == old(self).http_ids().insert(http_uid@, id),
            final(self).open_count() == old(self).open_count() + 1,
            final(self).protocols() == old(self).protocols(),
    {
        self.window_http_ids.insert(http_uid, id);
        self.opened_windows = self.opened_windows + 1;
    }

    /// The window an http id belongs to.
    pub fn get_browser_window_id(&self, http_id: &String) -> (r: Option<&String>)
        ensures
            match r {
                Some(w) => self.http_ids().contains_key(http_id@) && *w == self.http_ids()[http_id@],
                None => !self.http_ids().contains_key(http_id@),
            },
    {
        self.window_http_ids.get(http_id.as_str())
    }

    /// Counts a closed window (never below zero). Http ids stay registered.
    pub fn window_closed(&mut self)
        ensures
            final(self).open_count() == (if old(self).open_count() > 0 { old(self).open_count() - 1 } else { 0 }),
            final(self).http_ids() == old(self).http_ids(),
            final(self).protocols() == old(self).protocols(),
    {
        if self.opened_windows > 0 {
            self.opened_windows = self.opened_windows - 1;
        }
    }

    /// The number of open windows.
    pub fn count(&self) -> (r: usize)
        ensures
            r == self.open_count(),
    {
        self.opened_windows
    }

    /// Registers a file protocol.
    pub fn register_file_protocol(&mut self, schema: String)
        ensures
            final(self).protocols() == old(self).protocols().push(schema),
            final(self).http_ids() == old(self).http_ids(),
            final(self).open_count() == old(self).open_count(),
    {
        self.file_protocols.push(schema);
    }

    /// The registered file protocols.
    pub fn get_file_protocols(&self) -> (r: &Vec<String>)
        ensures
            r@ == self.protocols(),
    {
        &self.file_protocols
    }
}

/// The query of an address as the server receives it: what follows the first `?` of the
/// part before any `#` fragment, if that part has a `?`.
pub open spec fn query_of(u: Seq<char>) -> Option<Seq<char>> {
    let head = if contains_seq(u, "#"@) { u.take(first_index(u, "#"@)) } else { u };
    if contains_seq(head, "?"@) {
        Some(head.subrange(first_index(head, "?"@) + 1, head.len() as int))
    } else {
        None
    }
}

/// Whether a request's query marks a host page: it ends with `electrico_hostpage=true`.
pub open spec fn host_page_query(q: Option<Seq<char>>) -> bool {
    match q {
        Some(s) => crate::text::is_suffix("electrico_hostpage=true"@, s),
        None => false,
    }
}

/// Whether the answer to a request is a host page, whose protocols are made local.
pub fn is_host_page_query(query: &Option<String>) -> (r: bool)
    ensures
        r == host_page_query(match query {
            Some(q) => Some(q@),
            None => None,
        }),
{
    match query {
        Some(q) => {
            let qc = chars_of(q.as_str());
            let marker = chars_of("electrico_hostpage=true");
            crate::text::ends_with(&qc, &marker)
        },
        None => false,
    }
}

/// The title a window takes when its document has loaded: the document's title, unless
/// it is empty.
pub fn loaded_title(title: String) -> (r: Option<String>)
    ensures
        r == (if title@.len() > 0 { Some(title) } else { None::<String> }),
{
    proof {
        lemma_utf8_len_at_least_len(title@);
    }
    if byte_len(title.as_str()) > 0 {
        Some(title)
    } else {
        None
    }
}

/// Whether closing a window removes it: always when others are open, and for the last
/// one everywhere but on macOS (where the application is hidden instead).
pub fn close_removes_window(window_count: usize, macos: bool) -> (r: bool)
    ensures
        r == (window_count > 1 || !macos),
{
    window_count > 1 || !macos
}

/// A window opened and registered is found under its http id until another window is
/// registered under the same id; closing windows never forgets it.
pub proof fn law_registered_window_is_found(
    r0: WindowRegistry,
    r1: WindowRegistry,
    r2: WindowRegistry,
    http_uid: Seq<char>,
    id: String,
)
    requires
        r1.http_ids() == r0.http_ids().insert(http_uid, id),
        r2.http_ids() == r1.http_ids(),
    ensures
        r2.http_ids().contains_key(http_uid),
        r2.http_ids()[http_uid] == id,
{
}

} // verus!

verus! {

proof fn lemma_replace_dots_first(t: Seq<char>)
    requires
        t.len() > 0,
        t[0] != '.',
    ensures
        replace_all(t, ".."@, ""@).len() > 0,
        replace_all(t, ".."@, ""@)[0] == t[0],
{
    reveal_strlit("..");
    reveal_strlit("");
    assert(!is_prefix(".."@, t)) by {
        if is_prefix(".."@, t) {
            assert(t.subrange(0, 2)[0] == t[0]);
        }
    }
}

proof fn lemma_replace_dots_no_parent(s: Seq<char>)
    ensures
        !contains_seq(replace_all(s, ".."@, ""@), ".."@),
    decreases s.len(),
{
    reveal_strlit("..");
    reveal_strlit("");
    let r = replace_all(s, ".."@, ""@);
    if s.len() == 0 {
        assert forall|i: int| !crate::text::occurs_at(r, ".."@, i) by {}
    } else if is_prefix(".."@, s) {
        lemma_replace_dots_no_parent(s.subrange(2, s.len() as int));
        assert(r =~= ""@ + replace_all(s.subrange(2, s.len() as int), ".."@, ""@));
    } else {
        let rest = s.drop_first();
        let rr = replace_all(rest, ".."@, ""@);
        lemma_replace_dots_no_parent(rest);
        assert(r == seq![s[0]] + rr);
        assert forall|i: int| !crate::text::occurs_at(r, ".."@, i) by {
            if crate::text::occurs_at(r, ".."@, i) {
                assert(r.subrange(i, i + 2) == ".."@);
                assert(r.subrange(i, i + 2)[0] == r[i]);
                assert(r.subrange(i, i + 2)[1] == r[i + 1]);
                if i == 0 {
                    // s starts with a dot that is not followed by one
                    assert(r[0] == s[0]);
                    assert(s[0] == '.');
                    assert(rr.len() >= 1);
                    if rest.len() == 0 {
                        assert(rr =~= rest);
                    } else if rest[0] == '.' {
                        assert(s.subrange(0, 2) =~= ".."@);
                    } else {
                        lemma_replace_dots_first(rest);
                    }
                } else {
                    assert(rr.subrange(i - 1, i + 1) =~= r.subrange(i, i + 2));
                    assert(crate::text::occurs_at(rr, ".."@, i - 1));
                }
            }
        }
    }
}

/// A file path taken from a module or file request never holds `..`, so it cannot climb
/// out of the directory it is read under.
pub proof fn law_module_path_has_no_parent_step(path: Seq<char>)
    ensures
        !contains_seq(module_path_of(path), ".."@),
{
    let f = if is_prefix("/"@, path) { path.subrange(1, path.len() as int) } else { path };
    lemma_replace_dots_no_parent(f);
}

} // verus!

verus! {

/// A file a window loads is requested from the window server under the window's http id:
/// the address is the server's, marked as a host page, and the server reads back from
/// its path the http id, the `electrico-file` protocol, the `file` root and the file path
/// (for a file path with no `://` and no `?`, and an http id with no `/`, `@` or `?`).
pub proof fn law_loaded_file_routes_back(fpath: Seq<char>, http_id: Seq<char>, port: u16)
    requires
        !contains_seq(fpath, "://"@),
        crate::text::lacks(fpath, '?'),
        crate::text::lacks(http_id, '/'),
        crate::text::lacks(http_id, '@'),
        crate::text::lacks(http_id, '?'),
    ensures
        load_url_spec(fpath, http_id, port) == (
            "http://electrico.localhost:"@ + decimal(port as nat) + ("/"@ + http_id + "@electrico-file/file/"@ + fpath)
                + "?electrico_hostpage=true"@,
            false,
        ),
        crate::common::url_path_parts("/"@ + http_id + "@electrico-file/file/"@ + fpath)
            == Some((http_id, "electrico-file"@, "file"@, "/"@ + fpath)),
{
    reveal_strlit("://");
    reveal_strlit("http://");
    reveal_strlit("https://");
    reveal_strlit("electrico-file://file/");
    reveal_strlit("file/");
    reveal_strlit("electrico-file");
    reveal_strlit("file");
    reveal_strlit("@electrico-file/file/");
    reveal_strlit("http://electrico.localhost:");
    reveal_strlit("/");
    reveal_strlit("@");
    reveal_strlit("?");
    reveal_strlit("?electrico_hostpage=true");
    let sep = "://"@;
    // not a web address: those hold `://`
    assert(!is_prefix("http://"@, fpath)) by {
        if is_prefix("http://"@, fpath) {
            assert(fpath.subrange(0, 7) == "http://"@);
            assert(fpath.subrange(4, 7) =~= "http://"@.subrange(4, 7));
            assert("http://"@.subrange(4, 7) =~= sep);
            assert(crate::text::occurs_at(fpath, sep, 4));
        }
    }
    assert(!is_prefix("https://"@, fpath)) by {
        if is_prefix("https://"@, fpath) {
            assert(fpath.subrange(0, 8) == "https://"@);
            assert(fpath.subrange(5, 8) =~= "https://"@.subrange(5, 8));
            assert("https://"@.subrange(5, 8) =~= sep);
            assert(crate::text::occurs_at(fpath, sep, 5));
        }
    }
    let prefix = "electrico-file://file/"@;
    let u = prefix + fpath;
    assert(file_url(fpath) == u);
    // the first `://` is the one after the protocol
    assert(u.subrange(14, 17) =~= sep);
    assert(crate::text::occurs_at(u, sep, 14));
    assert forall|j: int| 0 <= j < 14 implies !crate::text::occurs_at(u, sep, j) by {
        if crate::text::occurs_at(u, sep, j) {
            assert(u.subrange(j, j + 3)[0] == u[j]);
            assert(u[j] == prefix[j]);
        }
    }
    assert(contains_seq(u, sep));
    let k = first_index(u, sep);
    assert(crate::text::occurs_at(u, sep, k) && forall|j: int| 0 <= j < k ==> !crate::text::occurs_at(u, sep, j));
    if k < 14 {
        assert(!crate::text::occurs_at(u, sep, k));
    }
    if k > 14 {
        assert(!crate::text::occurs_at(u, sep, 14));
    }
    assert(k == 14);
    assert(u.take(14) =~= "electrico-file"@);
    crate::text::lemma_ascii_utf8_len(u.take(14));
    assert(utf8_len(u.take(14)) == 14);
    crate::text::lemma_utf8_len_at_least_len(u);
    assert(substring_of(u, 0, 14) =~= "electrico-file"@);
    assert(prefix.len() == 22);
    assert(u.len() == 22 + fpath.len());
    assert(prefix.subrange(17, 22) =~= "file/"@);
    assert forall|i: int| 0 <= i < 5 + fpath.len() implies #[trigger] u.subrange(17, u.len() as int)[i]
        == ("file/"@ + fpath)[i] by {
        if i < 5 {
            assert(u[17 + i] == prefix[17 + i]);
            assert(prefix[17 + i] == prefix.subrange(17, 22)[i]);
        } else {
            assert(u[17 + i] == fpath[i - 5]);
        }
    }
    assert(u.subrange(17, u.len() as int) =~= "file/"@ + fpath);
    assert(substring_of(u, 17, utf8_len(u) as int) =~= "file/"@ + fpath);
    let routed = "http://electrico.localhost:"@ + decimal(port as nat) + "/"@ + http_id + "@"@
        + "electrico-file"@ + "/"@ + ("file/"@ + fpath);
    assert(routed_url(u, http_id, port) == routed);
    let p = "/"@ + http_id + "@electrico-file/file/"@ + fpath;
    assert(routed =~= "http://electrico.localhost:"@ + decimal(port as nat) + p);
    // no `?` anywhere
    crate::text::lemma_decimal_digits(port as nat);
    assert(crate::text::lacks("http://electrico.localhost:"@, '?'));
    assert(crate::text::lacks(decimal(port as nat), '?'));
    assert(crate::text::lacks("/"@, '?'));
    assert(crate::text::lacks("@electrico-file/file/"@, '?'));
    crate::text::lemma_lacks_concat("/"@, http_id, '?');
    crate::text::lemma_lacks_concat("/"@ + http_id, "@electrico-file/file/"@, '?');
    crate::text::lemma_lacks_concat("/"@ + http_id + "@electrico-file/file/"@, fpath, '?');
    crate::text::lemma_lacks_concat("http://electrico.localhost:"@, decimal(port as nat), '?');
    crate::text::lemma_lacks_concat("http://electrico.localhost:"@ + decimal(port as nat), p, '?');
    crate::text::lemma_lacks_not_contains(routed, '?');
    assert("?"@ =~= seq!['?']);
    // the server's parse
    assert(crate::text::lacks("electrico-file"@, '/'));
    assert(crate::text::lacks("electrico-file"@, '@'));
    assert(crate::text::lacks("file"@, '/'));
    crate::common::law_url_path_round_trip(http_id, "electrico-file"@, "file"@, fpath);
    assert(p =~= seq!['/'] + http_id + seq!['@'] + "electrico-file"@ + seq!['/'] + "file"@ + seq!['/'] + fpath);
}

proof fn lemma_lacks_substring(s: Seq<char>, a: int, b: int, c: char)
    requires
        crate::text::lacks(s, c),
        0 <= a,
    ensures
        crate::text::lacks(substring_of(s, a, b), c),
{
    if b > a {
        let n = s.len() as int;
        let x = if a < n { a } else { n };
        let y = if b < n { b } else { n };
        let t = s.subrange(x, y);
        assert(substring_of(s, a, b) == t);
        assert forall|i: int| 0 <= i < t.len() implies t[i] != c by {
            assert(t[i] == s[x + i]);
        }
    }
}

/// No `#` comes into the routed address of a file name and an http id without one.
proof fn lemma_routed_lacks_fragment(fpath: Seq<char>, http_id: Seq<char>, port: u16)
    requires
        crate::text::lacks(fpath, '#'),
        crate::text::lacks(http_id, '#'),
    ensures
        crate::text::lacks(routed_url(file_url(fpath), http_id, port), '#'),
{
    reveal_strlit("electrico-file://file/");
    reveal_strlit("http://electrico.localhost:");
    reveal_strlit("/");
    reveal_strlit("@");
    let hash = '#';
    let f = file_url(fpath);
    assert(crate::text::lacks("electrico-file://file/"@, hash));
    crate::text::lemma_lacks_concat("electrico-file://file/"@, fpath, hash);
    assert(crate::text::lacks(f, hash));
    if contains_seq(f, "://"@) {
        let b = utf8_len(f.take(first_index(f, "://"@))) as int;
        crate::text::lemma_decimal_digits(port as nat);
        assert(crate::text::lacks(decimal(port as nat), hash));
        assert(crate::text::lacks("http://electrico.localhost:"@, hash));
        assert(crate::text::lacks("/"@, hash));
        assert(crate::text::lacks("@"@, hash));
        lemma_lacks_substring(f, 0, b, hash);
        lemma_lacks_substring(f, b + 3, utf8_len(f) as int, hash);
        let p1 = "http://electrico.localhost:"@ + decimal(port as nat);
        crate::text::lemma_lacks_concat("http://electrico.localhost:"@, decimal(port as nat), hash);
        crate::text::lemma_lacks_concat(p1, "/"@, hash);
        crate::text::lemma_lacks_concat(p1 + "/"@, http_id, hash);
        crate::text::lemma_lacks_concat(p1 + "/"@ + http_id, "@"@, hash);
        crate::text::lemma_lacks_concat(p1 + "/"@ + http_id + "@"@, substring_of(f, 0, b), hash);
        crate::text::lemma_lacks_concat(p1 + "/"@ + http_id + "@"@ + substring_of(f, 0, b), "/"@, hash);
        crate::text::lemma_lacks_concat(
            p1 + "/"@ + http_id + "@"@ + substring_of(f, 0, b) + "/"@,
            substring_of(f, b + 3, utf8_len(f) as int),
            hash,
        );
    }
}

/// The query of an address without a fragment whose first `?` is at `k`.
proof fn lemma_query_at(u: Seq<char>, k: int)
    requires
        !contains_seq(u, "#"@),
        crate::text::occurs_at(u, "?"@, k),
        forall|j: int| 0 <= j < k ==> !crate::text::occurs_at(u, "?"@, j),
    ensures
        query_of(u) == Some(u.subrange(k + 1, u.len() as int)),
{
    crate::text::lemma_first_index_at(u, "?"@, k);
    assert(contains_seq(u, "?"@));
}

/// Marking an address without a fragment as a host page makes its query end with the marker.
proof fn lemma_marked_query(u0: Seq<char>)
    requires
        crate::text::lacks(u0, '#'),
    ensures
        host_page_query(query_of(hostpage_url(u0))),
{
    reveal_strlit("#");
    reveal_strlit("?");
    reveal_strlit("&electrico_hostpage=true");
    reveal_strlit("?electrico_hostpage=true");
    reveal_strlit("electrico_hostpage=true");
    let hash = '#';
    let marker = "electrico_hostpage=true"@;
    let has_q = contains_seq(u0, "?"@);
    let tail = if has_q { "&electrico_hostpage=true"@ } else { "?electrico_hostpage=true"@ };
    let u = u0 + tail;
    assert(hostpage_url(u0) == u);
    assert(crate::text::lacks(tail, hash));
    crate::text::lemma_lacks_concat(u0, tail, hash);
    crate::text::lemma_lacks_not_contains(u, hash);
    assert("#"@ =~= seq![hash]);
    let k = if has_q { first_index(u0, "?"@) } else { u0.len() as int };
    if has_q {
        crate::text::lemma_first_index(u0, "?"@);
        assert(u.subrange(k, k + 1) =~= u0.subrange(k, k + 1));
    } else {
        assert(u.subrange(k, k + 1) =~= "?"@);
    }
    assert forall|j: int| 0 <= j < k implies !crate::text::occurs_at(u, "?"@, j) by {
        assert(u.subrange(j, j + 1) =~= u0.subrange(j, j + 1));
        if has_q {
            crate::text::lemma_first_index(u0, "?"@);
        }
        assert(!crate::text::occurs_at(u0, "?"@, j));
    }
    lemma_query_at(u, k);
    let q = u.subrange(k + 1, u.len() as int);
    assert(q.subrange(q.len() - marker.len(), q.len() as int) =~= marker);
}

/// The address a window loads for a file is one the window server recognises as a host
/// page: its query ends with `electrico_hostpage=true`. (A `#` in the file name or the
/// http id would start a fragment and hide the marker, so those are left out.)
pub proof fn law_loaded_page_is_host_page(fpath: Seq<char>, http_id: Seq<char>, port: u16)
    requires
        !(is_prefix("http://"@, fpath) || is_prefix("https://"@, fpath)),
        crate::text::lacks(fpath, '#'),
        crate::text::lacks(http_id, '#'),
    ensures
        host_page_query(query_of(load_url_spec(fpath, http_id, port).0)),
{
    lemma_routed_lacks_fragment(fpath, http_id, port);
    lemma_marked_query(routed_url(file_url(fpath), http_id, port));
}

} // verus!
