use vstd::prelude::*;
use std::collections::HashMap;
use crate::node_types::{ConsoleLogParam, Process, ProcessVersions};
use crate::text::{push_str, string_of};

verus! {

/// The application environment: the arguments it was started with, its name once the
/// application sets one, and where its resources are.
pub struct AppEnv {
    pub start_args: Vec<String>,
    pub app_name: Option<String>,
    pub resources_path: String,
}

impl AppEnv {
    /// The environment of a process started with `args` (the process's own command line),
    /// with `add_args` moved to the end of them.
    pub fn new(resources_path: String, args: Vec<String>, add_args: &mut Vec<String>) -> (r: AppEnv)
        ensures
            r.start_args@ == args@ + old(add_args)@,
            r.app_name is None,
            r.resources_path == resources_path,
            final(add_args)@ == Seq::<String>::empty(),
    {
        let mut start_args = args;
        start_args.append(add_args);
        AppEnv { start_args, app_name: None, resources_path }
    }

    /// Adds an argument at the end.
    pub fn add_arg(&mut self, arg: String)
        ensures
            final(self).start_args@ == old(self).start_args@.push(arg),
            final(self).app_name == old(self).app_name,
            final(self).resources_path == old(self).resources_path,
    {
        self.start_args.push(arg);
    }
}

/// The line a console log writes: the message, a space, and the data (empty when none).
pub fn console_log_line(params: &ConsoleLogParam) -> (r: String)
    ensures
        r@ == params.logmsg@ + " "@ + match params.logdata {
            Some(d) => d@,
            None => Seq::<char>::empty(),
        },
{
    let mut v: Vec<char> = Vec::new();
    push_str(&mut v, params.logmsg.as_str());
    push_str(&mut v, " ");
    match &params.logdata {
        Some(d) => push_str(&mut v, d.as_str()),
        None => {},
    }
    string_of(&v)
}

/// The versions the process reports for a webview version and the application version:
/// node `Electrico-<app>/<webview>`, chrome `WebView-<webview>`, electron `Electrico-<app>`.
pub fn process_versions(app_version: &str, webview_version: &String) -> (r: ProcessVersions)
    ensures
        r.node@ == "Electrico-"@ + app_version@ + "/"@ + webview_version@,
        r.chrome@ == "WebView-"@ + webview_version@,
        r.electron@ == "Electrico-"@ + app_version@,
{
    let mut chrome: Vec<char> = Vec::new();
    push_str(&mut chrome, "WebView-");
    push_str(&mut chrome, webview_version.as_str());
    let mut node: Vec<char> = Vec::new();
    push_str(&mut node, "Electrico-");
    push_str(&mut node, app_version);
    push_str(&mut node, "/");
    push_str(&mut node, webview_version.as_str());
    let mut electron: Vec<char> = Vec::new();
    push_str(&mut electron, "Electrico-");
    push_str(&mut electron, app_version);
    ProcessVersions::new(string_of(&node), string_of(&chrome), string_of(&electron))
}

/// The environment variables a window sees, in the order they are set: `NODE_ENV`
/// (`development` in a debug build, else `production`), `ELECTRON_IS_DEV` (`1` or `0`),
/// then `HOME`, `PATH` and `SHELL` as the process has them.
pub fn process_env_entries(debug: bool, home: String, path: String, shell: String) -> (r: Vec<(String, String)>)
    ensures
        r@.len() == 5,
        r@[0].0@ == "NODE_ENV"@,
        r@[0].1@ == (if debug { "development"@ } else { "production"@ }),
        r@[1].0@ == "ELECTRON_IS_DEV"@,
        r@[1].1@ == (if debug { "1"@ } else { "0"@ }),
        r@[2].0@ == "HOME"@ && r@[2].1 == home,
        r@[3].0@ == "PATH"@ && r@[3].1 == path,
        r@[4].0@ == "SHELL"@ && r@[4].1 == shell,
{
    let mut r: Vec<(String, String)> = Vec::new();
    let node_env = if debug { "development".to_owned() } else { "production".to_owned() };
    let is_dev = if debug { "1".to_owned() } else { "0".to_owned() };
    r.push(("NODE_ENV".to_owned(), node_env));
    r.push(("ELECTRON_IS_DEV".to_owned(), is_dev));
    r.push(("HOME".to_owned(), home));
    r.push(("PATH".to_owned(), path));
    r.push(("SHELL".to_owned(), shell));
    r
}

/// The process description a window asks for: the platform, versions, environment,
/// resource path, executable path, the start arguments of the application and the pid.
pub fn process_info(
    platform: &str,
    app_version: &str,
    webview_version: &String,
    env: HashMap<String, String>,
    app_env: &AppEnv,
    exec_path: String,
    pid: u32,
) -> (r: Process)
    ensures
        r.platform@ == platform@,
        r.versions.node@ == "Electrico-"@ + app_version@ + "/"@ + webview_version@,
        r.versions.chrome@ == "WebView-"@ + webview_version@,
        r.versions.electron@ == "Electrico-"@ + app_version@,
        r.env == env,
        r.resources_path@ == app_env.resources_path@,
        r.exec_path == exec_path,
        r.argv@.len() == app_env.start_args@.len(),
        forall|i: int| 0 <= i < r.argv@.len() ==> #[trigger] r.argv@[i]@ == app_env.start_args@[i]@,
        r.pid == pid,
{
    let versions = process_versions(app_version, webview_version);
    let mut argv: Vec<String> = Vec::new();
    let mut i: usize = 0;
    while i < app_env.start_args.len()
        invariant
            i <= app_env.start_args@.len(),
            argv@.len() == i,
            forall|j: int| 0 <= j < i ==> #[trigger] argv@[j]@ == app_env.start_args@[j]@,
        decreases app_env.start_args.len() - i,
    {
        argv.push(app_env.start_args[i].clone());
        i = i + 1;
    }
    Process::new(platform.to_owned(), versions, env, app_env.resources_path.clone(), exec_path, argv, pid)
}

/// The status of the answer to a synchronous script run: `200` when it succeeded, else `400`.
pub fn execute_sync_status(ok: bool) -> (r: u16)
    ensures
        r == (if ok { 200u16 } else { 400u16 }),
{
    if ok { 200 } else { 400 }
}


/// A lowercase hexadecimal digit.
pub open spec fn hex_digit(d: u32) -> char {
    if d < 10 { (0x30 + d) as char } else { (0x61 + d - 10) as char }
}

/// One character as `serde_json` writes it inside a string: `"` and `\` after a
/// backslash, the short escapes for backspace, tab, line feed, form feed and carriage
/// return, `\u00XX` for the other control characters, anything else as it is.
pub open spec fn json_char(c: char) -> Seq<char> {
    if c == '"' {
        seq!['\\', '"']
    } else if c == '\\' {
        seq!['\\', '\\']
    } else if c == '\u{8}' {
        seq!['\\', 'b']
    } else if c == '\t' {
        seq!['\\', 't']
    } else if c == '\n' {
        seq!['\\', 'n']
    } else if c == '\u{c}' {
        seq!['\\', 'f']
    } else if c == '\r' {
        seq!['\\', 'r']
    } else if (c as u32) < 0x20 {
        seq!['\\', 'u', '0', '0', hex_digit((c as u32) / 16), hex_digit((c as u32) % 16)]
    } else {
        seq![c]
    }
}

/// A text as a JSON string.
pub open spec fn json_string(s: Seq<char>) -> Seq<char> {
    seq!['"'] + crate::text::flat_map(s, |c: char| json_char(c)) + seq!['"']
}

/// A list of texts as a compact JSON array of strings.
pub open spec fn json_string_list(v: Seq<Seq<char>>) -> Seq<char> {
    seq!['['] + crate::text::join(v.map_values(|s: Seq<char>| json_string(s)), ',') + seq![']']
}

/// `serde_json::to_string` of a list of strings. Trusted: the compact JSON array of
/// the strings escaped as its serializer writes them (`format_escaped_str` with its
/// `ESCAPE` table); a list of strings always serializes.
#[verifier::external_body]
fn json_of_strings(v: &Vec<String>) -> (r: String)
    ensures
        r@ == json_string_list(v@.map_values(|s: String| s@)),
{
    match serde_json::to_string(v) {
        Ok(s) => s,
        Err(_) => String::new(),
    }
}

/// The answer to a request for the start arguments: the arguments as a JSON array.
pub fn start_args_reply(app_env: &AppEnv) -> (r: crate::common::Reply)
    ensures
        r.status == 200,
        r.content_type@ == crate::common::CONTENT_TYPE_JSON@,
        r.body@ == vstd::utf8::encode_utf8(json_string_list(app_env.start_args@.map_values(|s: String| s@))),
{
    let j = json_of_strings(&app_env.start_args);
    crate::common::reply_text(200, crate::common::CONTENT_TYPE_JSON, j.as_str())
}

} // verus!
