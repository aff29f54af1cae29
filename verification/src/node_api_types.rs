use vstd::prelude::*;
use std::time::SystemTime;

verus! {

/// A command of the node apis.
pub enum APICommand {
    FS { command: FSCommand },
    NET { command: NETCommand },
    Childprocess { command: ChildprocessCommand },
    HTTP { command: HTTPCommand },
}

pub enum HTTPCommand {
    Request { options: HTTPOptions },
}

pub struct HTTPOptions {
    pub hostname: String,
    pub port: i32,
    pub path: String,
    pub method: String,
}

pub enum ChildprocessCommand {
    Spawn { cmd: Option<String>, args: Option<Vec<String>> },
    StdinWrite { pid: String },
    Disconnect { pid: String },
    Kill { pid: String },
}

pub enum NETCommand {
    CreateServer { hook: String, options: Option<NETOptions> },
    CloseServer { id: String },
    CloseConnection { id: String },
    CreateConnection { hook: String, id: String },
    WriteConnection { id: String },
    SetTimeout { id: String, timeout: u128 },
}

pub struct NETOptions {
}

/// A command of the file system api.
pub enum FSCommand {
    Access { path: String, mode: i32 },
    Lstat { path: String },
    Rm { path: String, options: Option<FSOptions> },
    Mkdir { path: String, options: Option<FSOptions> },
    ReadFile { path: String, options: Option<FSOptions> },
    ReadDir { path: String, options: Option<FSOptions> },
    WriteFile { path: String, options: Option<FSOptions> },
    Watch { path: String, wid: String, options: Option<FSOptions> },
    WatchClose { wid: String },
    Open { fd: i64, path: String, flags: String, mode: String },
    Close { fd: i64 },
    Read { fd: i64, offset: i64, length: usize, position: Option<u64> },
    Write { fd: i64, offset: i64, length: usize, position: Option<u64> },
    RealPath { path: String },
    Fdatasync { fd: i64 },
    Unlink { path: String },
    Rename { old_path: String, new_path: String },
}

pub struct FSOptions {
    pub encoding: Option<String>,
    pub recursive: Option<bool>,
    pub with_file_types: Option<bool>,
}

/// What `lstat` reports of a path.
pub struct FSStat {
    pub is_directory: bool,
    pub birthtime: Option<SystemTime>,
    pub mtime: Option<SystemTime>,
}

impl FSStat {
    pub fn new(is_directory: bool, birthtime: Option<SystemTime>, mtime: Option<SystemTime>) -> (r: FSStat)
        ensures
            r.is_directory == is_directory,
            r.birthtime == birthtime,
            r.mtime == mtime,
    {
        FSStat { is_directory, birthtime, mtime }
    }
}

/// A directory entry.
pub struct FSDirent {
    pub path: String,
    pub name: String,
    pub is_directory: bool,
}

impl FSDirent {
    pub fn new(path: String, name: String, is_directory: bool) -> (r: FSDirent)
        ensures
            r.path == path,
            r.name == name,
            r.is_directory == is_directory,
    {
        FSDirent { path, name, is_directory }
    }
}

} // verus!
