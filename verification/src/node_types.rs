use vstd::prelude::*;
use std::collections::HashMap;

verus! {

#[derive(Debug)]
pub enum ConsoleLogLevel {
    Info,
    Debug,
    Warn,
    Error,
    Trace,
}

#[derive(Debug)]
pub struct ConsoleLogParam {
    pub level: ConsoleLogLevel,
    pub logmsg: String,
    pub logdata: Option<String>,
}

#[derive(Debug)]
pub struct FSOptions {
    pub encoding: Option<String>,
    pub recursive: Option<bool>,
    pub with_file_types: Option<bool>,
}

/// A command of the node api.
#[derive(Debug)]
pub enum NodeCommand {
    ConsoleLog { params: ConsoleLogParam },
    GetProcessInfo,
    GetStartArgs,
    GetDataBlob { id: String },
    ExecuteSync { script: String },
    ExecuteSyncResponse { uuid: String, data: Option<String>, error: Option<String> },
    Addon { data: String },
    Api { data: String },
}

/// The versions a process reports.
pub struct ProcessVersions {
    pub node: String,
    pub chrome: String,
    pub electron: String,
}

impl ProcessVersions {
    pub fn new(node: String, chrome: String, electron: String) -> (r: ProcessVersions)
        ensures
            r.node == node,
            r.chrome == chrome,
            r.electron == electron,
    {
        ProcessVersions { node, chrome, electron }
    }
}

impl Default for ProcessVersions {
    /// All versions empty.
    fn default() -> (r: ProcessVersions)
        ensures
            r.node@ == Seq::<char>::empty(),
            r.chrome@ == Seq::<char>::empty(),
            r.electron@ == Seq::<char>::empty(),
    {
        ProcessVersions { node: String::new(), chrome: String::new(), electron: String::new() }
    }
}

/// What a window learns of the process it runs in.
pub struct Process {
    pub platform: String,
    pub versions: ProcessVersions,
    pub env: HashMap<String, String>,
    pub resources_path: String,
    pub exec_path: String,
    pub argv: Vec<String>,
    pub pid: u32,
}

impl Process {
    pub fn new(
        platform: String,
        versions: ProcessVersions,
        env: HashMap<String, String>,
        resources_path: String,
        exec_path: String,
        argv: Vec<String>,
        pid: u32,
    ) -> (r: Process)
        ensures
            r.platform == platform,
            r.versions == versions,
            r.env == env,
            r.resources_path == resources_path,
            r.exec_path == exec_path,
            r.argv == argv,
            r.pid == pid,
    {
        Process { platform, versions, env, resources_path, exec_path, argv, pid }
    }
}

} // verus!
