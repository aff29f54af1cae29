use vstd::prelude::*;
use crate::electron_types::ElectronCommand;
use crate::node_types::NodeCommand;

verus! {

/// Where the application resources are, when they are linked from elsewhere.
pub struct Resources {
    pub link: Option<String>,
}

/// The application package: its main script, version, name, and for a forked process
/// the hook, client id and environment it was started with.
#[derive(Clone)]
pub struct Package {
    pub main: String,
    pub version: String,
    pub name: String,
    pub fork: Option<(String, String, String)>,
}

impl Package {
    /// A package that is not a fork.
    pub fn new(main: String, version: String, name: String) -> (r: Package)
        ensures
            r.main == main,
            r.version == version,
            r.name == name,
            r.fork is None,
    {
        Package { main, version, name, fork: None }
    }

    /// The package of a forked process.
    pub fn new_fork(main: String, version: String, name: String, hook: String, clientid: String, env: String) -> (r: Package)
        ensures
            r.main == main,
            r.version == version,
            r.name == name,
            r.fork == Some((hook, clientid, env)),
    {
        Package { main, version, name, fork: Some((hook, clientid, env)) }
    }
}

/// The parameters a forked process is started with.
pub struct ForkParams {
    pub module_src: String,
    pub module_main: String,
    pub hook: String,
    pub clientid: String,
    pub args: Vec<String>,
    pub env: String,
}

/// A message to the task that serves a child process.
pub enum ChildProcess {
    StdinWrite { data: Option<Vec<u8>>, end: bool },
    Disconnect,
    Kill,
    StdoutEnd,
    StderrEnd,
}

/// A message to the task that serves a network connection.
pub enum NETConnection {
    Write { data: Vec<u8>, end: bool },
    SetTimeout { timeout: Option<u128> },
    Disconnect,
    EndConnection,
}

/// A message to the task that serves a network server.
pub enum NETServer {
    Close,
}

/// A message sent over a websocket channel.
pub struct ChannelMsg {
    pub channel: String,
    pub params: String,
    pub data_blob: Option<Vec<u8>>,
}

/// A command from a window or from the backend.
pub enum Command {
    PostIPC { http_id: String, from_backend: bool, nonce: Option<String>, request_id: String, channel: String, params: String },
    SetIPCResponse { request_id: String, file_path: Option<String> },
    DOMContentLoaded { http_id: String, title: String },
    BrowserWindowReadFile { http_id: String, file_path: String, module: bool },
    Node { invoke: NodeCommand },
    Electron { invoke: ElectronCommand },
    ShellCallback { stdout: String },
    FrontendGetProcessInfo { http_id: String, nonce: String },
    FrontendGetProtocols,
}

/// A command, and whether a data frame follows it.
pub struct CommandMessage {
    pub command: Command,
    pub data_blob: bool,
}

/// A command as a window sends it.
pub enum FrontendCommand {
    PostIPC { request_id: String, nonce: String, data_blob: bool, channel: String, params: String },
    GetProcessInfo { nonce: String },
    DOMContentLoaded { title: String },
    Alert { message: String },
    GetProtocols,
}

} // verus!
