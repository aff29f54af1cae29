use vstd::prelude::*;
use crate::common::{escape_chars, escapemsg_chars, js_escaped, msg_escaped};
use crate::text::{
    chars_of, decimal, join, join_from, push_all, push_str, signed_decimal, signed_decimal_chars, str_is, string_of, views,
};
use crate::types::{ChannelMsg, ChildProcess, Package};

verus! {

/// The arguments of an ipc call, as the backend script reads them:
/// `{"browser_window_id":"<id>", "request_id":"<rid>", "params":"<params, escaped>"}`.
pub open spec fn ipc_args(browser_window_id: Seq<char>, request_id: Seq<char>, params: Seq<char>) -> Seq<char> {
    "{\"browser_window_id\":\""@ + browser_window_id + "\", \"request_id\":\""@ + request_id
        + "\", \"params\":\""@ + msg_escaped(params) + "\"}"@
}

/// The arguments of an ipc call.
pub fn ipc_channel_args(browser_window_id: &String, request_id: &String, params: &String) -> (r: String)
    ensures
        r@ == ipc_args(browser_window_id@, request_id@, params@),
{
    let mut v: Vec<char> = Vec::new();
    push_str(&mut v, "{\"browser_window_id\":\"");
    push_str(&mut v, browser_window_id.as_str());
    push_str(&mut v, "\", \"request_id\":\"");
    push_str(&mut v, request_id.as_str());
    push_str(&mut v, "\", \"params\":\"");
    let p = chars_of(params.as_str());
    let e = escapemsg_chars(&p);
    push_all(&mut v, &e);
    push_str(&mut v, "\"}");
    string_of(&v)
}

/// Where a message goes: to the remote window that opened the channel of a request,
/// or out through the `ipcout` channel of the backend.
pub enum Outgoing {
    Remote { request_id: String, msg: ChannelMsg },
    Ipcout { msg: ChannelMsg },
}

/// The message of an ipc call: to the remote window connected under the request id,
/// on the call's own channel; otherwise out through `ipcout` on `ipc_<channel>`.
pub fn call_ipc_channel_message(
    remote_connected: bool,
    browser_window_id: String,
    request_id: String,
    channel: String,
    params: String,
    data_blob: Option<Vec<u8>>,
) -> (r: Outgoing)
    ensures
        match r {
            Outgoing::Remote { request_id: rid, msg } => remote_connected && rid == request_id && msg.channel == channel
                && msg.params@ == ipc_args(browser_window_id@, request_id@, params@) && msg.data_blob == data_blob,
            Outgoing::Ipcout { msg } => !remote_connected && msg.channel@ == "ipc_"@ + channel@
                && msg.params@ == ipc_args(browser_window_id@, request_id@, params@) && msg.data_blob == data_blob,
        },
{
    let args = ipc_channel_args(&browser_window_id, &request_id, &params);
    if remote_connected {
        Outgoing::Remote { request_id, msg: ChannelMsg { channel, params: args, data_blob } }
    } else {
        let mut c: Vec<char> = Vec::new();
        push_str(&mut c, "ipc_");
        push_str(&mut c, channel.as_str());
        Outgoing::Ipcout { msg: ChannelMsg { channel: string_of(&c), params: args, data_blob } }
    }
}

/// A message on the `ipcout` channel named `<prefix><id>` with the given text.
fn prefixed_msg(prefix: &str, id: &String, params: String, data_blob: Option<Vec<u8>>) -> (r: ChannelMsg)
    ensures
        r.channel@ == prefix@ + id@,
        r.params == params,
        r.data_blob == data_blob,
{
    let mut c: Vec<char> = Vec::new();
    push_str(&mut c, prefix);
    push_str(&mut c, id.as_str());
    ChannelMsg { channel: string_of(&c), params, data_blob }
}

/// Where output of a child process goes.
pub enum ChildOutgoing {
    /// Data for the process's standard input.
    Stdin { pid: String, msg: ChildProcess },
    /// Output of the process for the backend script.
    Ipcout { msg: ChannelMsg },
}

/// Routes child process data: `stdin` data goes to the process, output of any other
/// stream goes out on `cp_data_<pid>` with the stream's name.
pub fn child_process_message(pid: String, stream: String, end: bool, data: Option<Vec<u8>>) -> (r: ChildOutgoing)
    ensures
        stream@ == "stdin"@ ==> r == (ChildOutgoing::Stdin { pid, msg: ChildProcess::StdinWrite { data, end } }),
        stream@ != "stdin"@ ==> match r {
            ChildOutgoing::Ipcout { msg } => msg.channel@ == "cp_data_"@ + pid@ && msg.params == stream && msg.data_blob == data,
            _ => false,
        },
{
    if str_is(stream.as_str(), "stdin") {
        ChildOutgoing::Stdin { pid, msg: ChildProcess::StdinWrite { data, end } }
    } else {
        ChildOutgoing::Ipcout { msg: prefixed_msg("cp_data_", &pid, stream, data) }
    }
}

/// The exit of a child process: on `cp_exit_<pid>`, the exit code in decimal, or nothing
/// when the process gave none.
pub fn child_process_exit_message(pid: &String, exit_code: Option<i32>) -> (r: ChannelMsg)
    ensures
        r.channel@ == "cp_exit_"@ + pid@,
        r.params@ == match exit_code {
            Some(c) => signed_decimal(c as int),
            None => Seq::<char>::empty(),
        },
        r.data_blob is None,
{
    let args = match exit_code {
        Some(c) => {
            let d = signed_decimal_chars(c as i64);
            string_of(&d)
        },
        None => String::new(),
    };
    prefixed_msg("cp_exit_", pid, args, None)
}

/// The arguments of a file watch event: the event's kind and the changed paths joined
/// with `;`, escaped for a message.
pub open spec fn fs_watch_args(kind: Seq<char>, paths: Seq<Seq<char>>) -> Seq<char> {
    "{\"kind\":\""@ + kind + "\", \"filenames\":\""@ + msg_escaped(join(paths, ';')) + "\"}"@
}

/// A file watch event for the watcher `wid`: on `fsw_<wid>`, its kind and paths.
pub fn fs_watch_message(wid: &String, kind: &String, paths: &Vec<String>) -> (r: ChannelMsg)
    ensures
        r.channel@ == "fsw_"@ + wid@,
        r.params@ == fs_watch_args(kind@, paths@.map_values(|s: String| s@)),
        r.data_blob is None,
{
    let mut parts: Vec<Vec<char>> = Vec::new();
    for i in 0..paths.len()
        invariant
            views(parts@) == paths@.take(i as int).map_values(|s: String| s@),
    {
        let c = chars_of(paths[i].as_str());
        let ghost before = views(parts@);
        parts.push(c);
        assert(views(parts@) =~= before.push(paths@[i as int]@));
        assert(paths@.take(i + 1).map_values(|s: String| s@) =~= paths@.take(i as int).map_values(
            |s: String| s@,
        ).push(paths@[i as int]@));
    }
    assert(paths@.take(paths.len() as int) =~= paths@);
    assert(views(parts@).subrange(0, parts.len() as int) =~= views(parts@));
    let joined = join_from(&parts, 0, ';');
    let escaped = escapemsg_chars(&joined);
    let mut v: Vec<char> = Vec::new();
    push_str(&mut v, "{\"kind\":\"");
    push_str(&mut v, kind.as_str());
    push_str(&mut v, "\", \"filenames\":\"");
    push_all(&mut v, &escaped);
    push_str(&mut v, "\"}");
    prefixed_msg("fsw_", wid, string_of(&v), None)
}

/// A server connection started: `net_start_<id>` with the hook.
pub fn net_server_conn_start_message(hook: String, id: &String) -> (r: ChannelMsg)
    ensures
        r.channel@ == "net_start_"@ + id@,
        r.params == hook,
        r.data_blob is None,
{
    prefixed_msg("net_start_", id, hook, None)
}

/// Data on a connection: `net_data` with the connection id.
pub fn net_connection_data_message(id: String, data: Option<Vec<u8>>) -> (r: ChannelMsg)
    ensures
        r.channel@ == "net_data"@,
        r.params == id,
        r.data_blob == data,
{
    ChannelMsg { channel: "net_data".to_owned(), params: id, data_blob: data }
}

/// A connection ended: `net_end` with the connection id.
pub fn net_connection_end_message(id: String) -> (r: ChannelMsg)
    ensures
        r.channel@ == "net_end"@,
        r.params == id,
        r.data_blob is None,
{
    ChannelMsg { channel: "net_end".to_owned(), params: id, data_blob: None }
}

/// The first frame a websocket writes for a message: `<has data>|<channel>|<params>`,
/// where `has data` is `true` when a data frame follows.
pub open spec fn ws_header(msg: ChannelMsg) -> Seq<char> {
    (if msg.data_blob is Some { "true"@ } else { "false"@ }) + "|"@ + msg.channel@ + "|"@ + msg.params@
}

/// The first frame a websocket writes for a message.
pub fn ws_message_header(msg: &ChannelMsg) -> (r: String)
    ensures
        r@ == ws_header(*msg),
{
    let mut v: Vec<char> = Vec::new();
    if msg.data_blob.is_some() {
        push_str(&mut v, "true");
    } else {
        push_str(&mut v, "false");
    }
    push_str(&mut v, "|");
    push_str(&mut v, msg.channel.as_str());
    push_str(&mut v, "|");
    push_str(&mut v, msg.params.as_str());
    string_of(&v)
}

/// The script that tells the backend a window closes: `window-close` with the window's
/// id, or for the application when there is none.
pub fn window_close_script(id: &Option<String>) -> (r: String)
    ensures
        r@ == match id {
            Some(i) => "window.__electrico.callAppOn('window-close', '"@ + i@ + "');"@,
            None => "window.__electrico.callAppOn('window-close');"@,
        },
{
    let mut v: Vec<char> = Vec::new();
    match id {
        Some(i) => {
            push_str(&mut v, "window.__electrico.callAppOn('window-close', '");
            push_str(&mut v, i.as_str());
            push_str(&mut v, "');");
        },
        None => {
            push_str(&mut v, "window.__electrico.callAppOn('window-close');");
        },
    }
    string_of(&v)
}

/// The script that tells the backend a window gained or lost focus.
pub fn window_focus_script(id: &String, focus: bool) -> (r: String)
    ensures
        r@ == "window.__electrico.callAppOn('"@ + (if focus { "browser-window-focus"@ } else { "browser-window-blur"@ })
            + "', '"@ + id@ + "');"@,
{
    let mut v: Vec<char> = Vec::new();
    push_str(&mut v, "window.__electrico.callAppOn('");
    if focus {
        push_str(&mut v, "browser-window-focus");
    } else {
        push_str(&mut v, "browser-window-blur");
    }
    push_str(&mut v, "', '");
    push_str(&mut v, id.as_str());
    push_str(&mut v, "');");
    string_of(&v)
}

/// A call `<head>'<arg>');` of the backend script.
fn call_script(head: &str, arg: &str) -> (r: String)
    ensures
        r@ == head@ + "'"@ + arg@ + "');"@,
{
    let mut v: Vec<char> = Vec::new();
    push_str(&mut v, head);
    push_str(&mut v, "'");
    push_str(&mut v, arg);
    push_str(&mut v, "');");
    string_of(&v)
}

/// The script that tells the backend a menu item was chosen.
pub fn menu_selected_script(id: &String) -> (r: String)
    ensures
        r@ == "window.__electrico.menuSelected("@ + "'"@ + id@ + "');"@,
{
    call_script("window.__electrico.menuSelected(", id.as_str())
}

/// The script that tells the backend a window's document has loaded.
pub fn dom_content_loaded_script(id: &String) -> (r: String)
    ensures
        r@ == "window.__electrico.domContentLoaded("@ + "'"@ + id@ + "');"@,
{
    call_script("window.__electrico.domContentLoaded(", id.as_str())
}

/// The script that runs the backend callback of a command with a message.
pub fn command_callback_script(command: &String, message: &String) -> (r: String)
    ensures
        r@ == "window.__electrico.callback['"@ + command@ + "']('"@ + message@ + "')"@,
{
    let mut v: Vec<char> = Vec::new();
    push_str(&mut v, "window.__electrico.callback['");
    push_str(&mut v, command.as_str());
    push_str(&mut v, "']('");
    push_str(&mut v, message.as_str());
    push_str(&mut v, "')");
    string_of(&v)
}

/// The backend script: the bundled scripts, for a fork the call that sets it up (its hook
/// and client id as they are, its environment escaped).
pub open spec fn backend_script(backendjs: Seq<char>, fork: Option<(String, String, String)>) -> Seq<char> {
    match fork {
        Some(f) => backendjs + "\nwindow.__electrico.init_fork('"@ + f.0@ + "', '"@ + f.1@ + "', '"@
            + js_escaped(f.2@) + "');"@,
        None => backendjs,
    }
}

/// The backend script for a package.
pub fn backend_script_for(backendjs: String, package: &Package) -> (r: String)
    ensures
        r@ == backend_script(backendjs@, package.fork),
{
    match &package.fork {
        Some(f) => {
            let mut v = chars_of(backendjs.as_str());
            push_str(&mut v, "\nwindow.__electrico.init_fork('");
            push_str(&mut v, f.0.as_str());
            push_str(&mut v, "', '");
            push_str(&mut v, f.1.as_str());
            push_str(&mut v, "', '");
            let env = chars_of(f.2.as_str());
            let e = escape_chars(&env);
            push_all(&mut v, &e);
            push_str(&mut v, "');");
            string_of(&v)
        },
        None => backendjs,
    }
}

/// The script the backend window starts with: the backend script, then loading the main
/// module of the package.
pub fn backend_init_script(backendjs: &String, package: &Package) -> (r: String)
    ensures
        r@ == backendjs@ + "\nwindow.__electrico.loadMain('"@ + package.main@ + "');"@,
{
    let mut v = chars_of(backendjs.as_str());
    push_str(&mut v, "\nwindow.__electrico.loadMain('");
    push_str(&mut v, package.main.as_str());
    push_str(&mut v, "');");
    string_of(&v)
}

/// The script that runs `script` in a fresh backend window and reports its outcome under
/// `uuid`.
pub fn execute_sync_script(script: &String, uuid: &String) -> (r: String)
    ensures
        r@ == script@ + ".then(r=>{$e_node.syncExecuteSyncResponse({'uuid':'"@ + uuid@
            + "', 'data':r+''});}).catch(e=>{$e_node.syncExecuteSyncResponse({'uuid':'"@ + uuid@
            + "', 'error':e+''});});"@,
{
    let mut v = chars_of(script.as_str());
    push_str(&mut v, ".then(r=>{$e_node.syncExecuteSyncResponse({'uuid':'");
    push_str(&mut v, uuid.as_str());
    push_str(&mut v, "', 'data':r+''});}).catch(e=>{$e_node.syncExecuteSyncResponse({'uuid':'");
    push_str(&mut v, uuid.as_str());
    push_str(&mut v, "', 'error':e+''});});");
    string_of(&v)
}

/// The script of a window that runs a script synchronously: no websocket, the backend
/// script, then the main module.
pub fn execute_sync_init_script(backendjs: &String) -> (r: String)
    ensures
        r@ == "window._no_websocket=true;\n"@ + backendjs@ + "\nwindow.__electrico.loadMain();"@,
{
    let mut v: Vec<char> = Vec::new();
    push_str(&mut v, "window._no_websocket=true;\n");
    push_str(&mut v, backendjs.as_str());
    push_str(&mut v, "\nwindow.__electrico.loadMain();");
    string_of(&v)
}

} // verus!

verus! {

/// The address the backend window loads: its package's main module, through the backend
/// server, under the backend's hash host and http id, tagged with the process id.
pub fn backend_webview_url(hash: &String, http_port: u16, http_uid: &String, main: &String, pid: u32) -> (r: String)
    ensures
        r@ == "http://"@ + hash@ + ".localhost:"@ + decimal(http_port as nat) + "/"@ + http_uid@
            + "@electrico-file/file/"@ + main@ + "-"@ + decimal(pid as nat),
{
    let mut v: Vec<char> = Vec::new();
    push_str(&mut v, "http://");
    push_str(&mut v, hash.as_str());
    push_str(&mut v, ".localhost:");
    let d = crate::text::decimal_chars(http_port as u64);
    push_all(&mut v, &d);
    push_str(&mut v, "/");
    push_str(&mut v, http_uid.as_str());
    push_str(&mut v, "@electrico-file/file/");
    push_str(&mut v, main.as_str());
    push_str(&mut v, "-");
    let p = crate::text::decimal_chars(pid as u64);
    push_all(&mut v, &p);
    string_of(&v)
}

/// The script the backend window starts with: whether the platform is Windows, the
/// server's port and http id, then `init_script`.
pub fn backend_webview_init_script(is_windows: bool, http_port: u16, http_uid: &String, init_script: &String) -> (r: String)
    ensures
        r@ == "window.__is_windows="@ + (if is_windows { "true"@ } else { "false"@ })
            + ";\n            window.__http_protocol = {'http_port':"@ + decimal(http_port as nat) + ", 'http_uid':'"@
            + http_uid@ + "'};\n            "@ + init_script@,
{
    let mut v: Vec<char> = Vec::new();
    push_str(&mut v, "window.__is_windows=");
    if is_windows {
        push_str(&mut v, "true");
    } else {
        push_str(&mut v, "false");
    }
    push_str(&mut v, ";\n            window.__http_protocol = {'http_port':");
    let d = crate::text::decimal_chars(http_port as u64);
    push_all(&mut v, &d);
    push_str(&mut v, ", 'http_uid':'");
    push_str(&mut v, http_uid.as_str());
    push_str(&mut v, "'};\n            ");
    push_str(&mut v, init_script.as_str());
    string_of(&v)
}

/// Where a request to the backend server goes.
pub enum BackendRoute {
    /// The path does not hold an http id, protocol and root.
    BadRequest,
    /// The http id is not the backend's.
    Forbidden,
    /// A websocket: `asyncin` carries calls, `asyncout` messages to the backend window.
    WebSocket { inbound: bool, channel: String },
    /// A file: its path without the leading character, absolute when it then starts with
    /// `/` (else under the source directory), a module request when the root is
    /// `electrico-mod`.
    File { path: String, absolute: bool, module: bool },
    /// A command in the request's query or body.
    Cmd,
}

/// Where a request to the backend server goes, for its path and the backend's http id.
pub fn route_backend_request(path: &str, http_id: &String) -> (r: BackendRoute)
    ensures
        match crate::common::url_path_parts(path@) {
            None => r is BadRequest,
            Some(parts) => if parts.0 != http_id@ {
                r is Forbidden
            } else if parts.1 == "asyncin"@ || parts.1 == "asyncout"@ {
                match r {
                    BackendRoute::WebSocket { inbound, channel } => inbound == (parts.1 == "asyncin"@) && channel@ == parts.2,
                    _ => false,
                }
            } else if parts.1 == "electrico-file"@ {
                match r {
                    BackendRoute::File { path: f, absolute, module } =>
                        f@ == crate::text::substring_of(parts.3, 1, crate::text::utf8_len(parts.3) as int)
                        && absolute == crate::text::is_prefix("/"@, f@) && module == (parts.2 == "electrico-mod"@),
                    _ => false,
                }
            } else if parts.1 == "cmd"@ {
                r is Cmd
            } else {
                r is BadRequest
            },
        },
{
    match crate::common::parse_http_url_path(path) {
        None => BackendRoute::BadRequest,
        Some((id, protocol, url_root, url)) => {
            let idc = chars_of(id.as_str());
            let mine = chars_of(http_id.as_str());
            if !crate::text::chars_eq(&idc, &mine) {
                BackendRoute::Forbidden
            } else if str_is(protocol.as_str(), "asyncin") || str_is(protocol.as_str(), "asyncout") {
                BackendRoute::WebSocket { inbound: str_is(protocol.as_str(), "asyncin"), channel: url_root }
            } else if str_is(protocol.as_str(), "electrico-file") {
                let n = crate::text::byte_len(url.as_str());
                let f = crate::text::substring(url.as_str(), 1, n).to_owned();
                let fc = chars_of(f.as_str());
                let slash = chars_of("/");
                let absolute = crate::text::starts_with(&fc, &slash);
                let module = crate::common::is_module_request(Some(url_root.as_str()));
                BackendRoute::File { path: f, absolute, module }
            } else if str_is(protocol.as_str(), "cmd") {
                BackendRoute::Cmd
            } else {
                BackendRoute::BadRequest
            }
        },
    }
}

/// Handles a frame of the backend's inbound websocket. When a command waits for its data,
/// the frame is that data and the command runs with it. Otherwise the frame is a command
/// message (`parsed`, `None` when it did not parse): it runs at once, or waits when it
/// announces a data frame.
pub fn backend_ws_frame(
    pending: &mut Option<crate::types::CommandMessage>,
    payload: Vec<u8>,
    parsed: Option<crate::types::CommandMessage>,
) -> (r: Option<(crate::types::Command, Option<Vec<u8>>)>)
    ensures
        match *old(pending) {
            Some(m) => *final(pending) is None && r == Some((m.command, Some(payload))),
            None => match parsed {
                Some(m) => if m.data_blob {
                    r is None && *final(pending) == Some(m)
                } else {
                    *final(pending) is None && r == Some((m.command, None::<Vec<u8>>))
                },
                None => r is None && *final(pending) is None,
            },
        },
{
    match pending.take() {
        Some(m) => Some((m.command, Some(payload))),
        None => match parsed {
            Some(m) => if m.data_blob {
                *pending = Some(m);
                None
            } else {
                Some((m.command, None))
            },
            None => None,
        },
    }
}

} // verus!
