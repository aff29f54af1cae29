use vstd::prelude::*;
use crate::text::str_is;
use crate::common::{reply_404, reply_status, reply_text, text_bytes, Reply, CONTENT_TYPE_JSON, CONTENT_TYPE_TEXT};
use crate::electron_types::{
    BrowserWindowBoundsAction, BrowserWindowMaximizedAction, BrowserWindowMinimizedAction, ElectronCommand,
};

verus! {

/// Which directory an application path request names.
#[derive(Clone, Copy, Debug, PartialEq, Eq, Structural)]
pub enum AppPathKind {
    /// No name: the resource directory.
    Resources,
    /// `appData` and `userData`: the project's configuration directory (created on demand).
    Config,
    /// `logs` and `temp`: the project's cache directory (created on demand).
    Cache,
    /// `userHome`: the user's home directory.
    Home,
    /// Any other name: no answer is given.
    Unknown,
}

/// The directory an application path request names.
pub fn app_path_kind(path: &Option<String>) -> (r: AppPathKind)
    ensures
        r == match path {
            None => AppPathKind::Resources,
            Some(p) => if p@ == "appData"@ || p@ == "userData"@ {
                AppPathKind::Config
            } else if p@ == "logs"@ || p@ == "temp"@ {
                AppPathKind::Cache
            } else if p@ == "userHome"@ {
                AppPathKind::Home
            } else {
                AppPathKind::Unknown
            },
        },
{
    match path {
        None => AppPathKind::Resources,
        Some(p) => {
            let s = p.as_str();
            if str_is(s, "appData") || str_is(s, "userData") {
                AppPathKind::Config
            } else if str_is(s, "logs") || str_is(s, "temp") {
                AppPathKind::Cache
            } else if str_is(s, "userHome") {
                AppPathKind::Home
            } else {
                AppPathKind::Unknown
            }
        },
    }
}

/// A flag as its answer text, `true` or `false` (`bool::to_string`).
pub fn bool_text(b: bool) -> (r: String)
    ensures
        r@ == (if b { "true"@ } else { "false"@ }),
{
    if b { "true".to_owned() } else { "false".to_owned() }
}

/// Whether closing a window leaves the application with none open, which the backend is
/// told of.
pub fn all_windows_closed(open_count: usize) -> (r: bool)
    ensures
        r == (open_count == 0),
{
    open_count == 0
}


/// How an electron command is answered once its window or application work is done.
pub enum ReplyKind {
    /// `OK`.
    Acknowledge,
    /// `OK`, ten seconds after printing started.
    OkAfterPrint,
    /// The window's title as JSON, `404` when there is no such window (`title_reply`).
    Title,
    /// The window's bounds as JSON, `404` when there is no such window.
    Bounds,
    /// The flag read from the window as JSON (`flag_reply`).
    Flag,
    /// The directory the path request names (`app_path_reply`); no answer for an
    /// unknown name.
    AppPath { kind: AppPathKind },
    /// The application's version as text (`version_reply`).
    Version,
    /// The dialog api answers it.
    Api,
}

/// How each electron command is answered.
pub open spec fn reply_kind_of(cmd: ElectronCommand) -> ReplyKind {
    match cmd {
        ElectronCommand::BrowserWindowGetTitle { .. } => ReplyKind::Title,
        ElectronCommand::BrowserWindowBounds { params: BrowserWindowBoundsAction::Get, .. } => ReplyKind::Bounds,
        ElectronCommand::BrowserWindowMaximized { params: BrowserWindowMaximizedAction::Get, .. } => ReplyKind::Flag,
        ElectronCommand::BrowserWindowMinimized { params: BrowserWindowMinimizedAction::Get, .. } => ReplyKind::Flag,
        ElectronCommand::GetAppPath { path } => ReplyKind::AppPath {
            kind: match path {
                None => AppPathKind::Resources,
                Some(p) => if p@ == "appData"@ || p@ == "userData"@ {
                    AppPathKind::Config
                } else if p@ == "logs"@ || p@ == "temp"@ {
                    AppPathKind::Cache
                } else if p@ == "userHome"@ {
                    AppPathKind::Home
                } else {
                    AppPathKind::Unknown
                },
            },
        },
        ElectronCommand::GetAppVersion => ReplyKind::Version,
        ElectronCommand::PrintToPDF { .. } => ReplyKind::OkAfterPrint,
        ElectronCommand::Api { .. } => ReplyKind::Api,
        _ => ReplyKind::Acknowledge,
    }
}

/// How an electron command is answered.
pub fn reply_kind(cmd: &ElectronCommand) -> (r: ReplyKind)
    ensures
        r == reply_kind_of(*cmd),
{
    match cmd {
        ElectronCommand::BrowserWindowGetTitle { .. } => ReplyKind::Title,
        ElectronCommand::BrowserWindowBounds { params, .. } => match params {
            BrowserWindowBoundsAction::Get => ReplyKind::Bounds,
            _ => ReplyKind::Acknowledge,
        },
        ElectronCommand::BrowserWindowMaximized { params, .. } => match params {
            BrowserWindowMaximizedAction::Get => ReplyKind::Flag,
            _ => ReplyKind::Acknowledge,
        },
        ElectronCommand::BrowserWindowMinimized { params, .. } => match params {
            BrowserWindowMinimizedAction::Get => ReplyKind::Flag,
            _ => ReplyKind::Acknowledge,
        },
        ElectronCommand::GetAppPath { path } => ReplyKind::AppPath { kind: app_path_kind(path) },
        ElectronCommand::GetAppVersion => ReplyKind::Version,
        ElectronCommand::PrintToPDF { .. } => ReplyKind::OkAfterPrint,
        ElectronCommand::Api { .. } => ReplyKind::Api,
        _ => ReplyKind::Acknowledge,
    }
}

/// The answer to a title request: the title (JSON content type), or `404` for a window
/// that is not there.
pub fn title_reply(title: Option<String>) -> (r: Reply)
    ensures
        match title {
            Some(t) => r.status == 200 && r.content_type@ == CONTENT_TYPE_JSON@ && r.body@ == vstd::utf8::encode_utf8(t@),
            None => r.status == 404 && r.body@ == vstd::utf8::encode_utf8("404"@),
        },
{
    match title {
        Some(t) => reply_text(200, CONTENT_TYPE_JSON, t.as_str()),
        None => reply_404(),
    }
}

/// The answer to a maximized or minimized request: `true` or `false` as JSON.
pub fn flag_reply(flag: bool) -> (r: Reply)
    ensures
        r.status == 200,
        r.content_type@ == CONTENT_TYPE_JSON@,
        r.body@ == vstd::utf8::encode_utf8(if flag { "true"@ } else { "false"@ }),
{
    let t = bool_text(flag);
    reply_text(200, CONTENT_TYPE_JSON, t.as_str())
}

/// The answer to an application path request: the directory as text, or `404` when the
/// platform has none.
pub fn app_path_reply(dir: Option<String>) -> (r: Reply)
    ensures
        match dir {
            Some(d) => r.status == 200 && r.content_type@ == CONTENT_TYPE_TEXT@ && r.body@ == vstd::utf8::encode_utf8(d@),
            None => r.status == 404 && r.body@ == vstd::utf8::encode_utf8("404"@),
        },
{
    match dir {
        Some(d) => reply_text(200, CONTENT_TYPE_TEXT, d.as_str()),
        None => reply_404(),
    }
}

/// The answer to a version request: the application's version as text.
pub fn version_reply(version: &String) -> (r: Reply)
    ensures
        r.status == 200,
        r.content_type@ == CONTENT_TYPE_TEXT@,
        r.body@ == vstd::utf8::encode_utf8(version@),
{
    reply_status(200, CONTENT_TYPE_TEXT.to_owned(), text_bytes(version.as_str()))
}

} // verus!

verus! {

/// Asking a window whether it is minimized is answered as asking whether it is maximized:
/// with the flag read from the window, and so is neither a plain acknowledgement nor an
/// answer of another kind; setting either state is acknowledged.
pub proof fn law_window_state_queries_answer_flags(id: String, other: String, b: bool)
    ensures
        reply_kind_of(ElectronCommand::BrowserWindowMinimized { id, params: BrowserWindowMinimizedAction::Get })
            == reply_kind_of(ElectronCommand::BrowserWindowMaximized { id: other, params: BrowserWindowMaximizedAction::Get }),
        reply_kind_of(ElectronCommand::BrowserWindowMinimized { id, params: BrowserWindowMinimizedAction::Get }) is Flag,
        reply_kind_of(ElectronCommand::BrowserWindowMaximized { id, params: BrowserWindowMaximizedAction::Get }) is Flag,
        reply_kind_of(ElectronCommand::BrowserWindowMinimized { id, params: BrowserWindowMinimizedAction::SetTo { minimized: b } })
            is Acknowledge,
        reply_kind_of(ElectronCommand::BrowserWindowMaximized { id, params: BrowserWindowMaximizedAction::SetTo { maximized: b } })
            is Acknowledge,
{
}

} // verus!

verus! {

/// Requests that read something from a window or the application are answered with what
/// was read: the title, the bounds, the version; a path request with the directory of the
/// kind its name gives.
pub proof fn law_queries_answer_with_data(id: String, path: Option<String>)
    ensures
        reply_kind_of(ElectronCommand::BrowserWindowGetTitle { id }) is Title,
        reply_kind_of(ElectronCommand::BrowserWindowBounds { id, params: BrowserWindowBoundsAction::Get }) is Bounds,
        reply_kind_of(ElectronCommand::GetAppVersion) is Version,
        reply_kind_of(ElectronCommand::GetAppPath { path }) matches ReplyKind::AppPath { kind }
            && (path is None ==> kind == AppPathKind::Resources),
{
}

} // verus!
