use vstd::prelude::*;
use std::collections::HashMap;

verus! {

/// A command to one of the addons.
pub enum AddonCommand {
    SQLite { command: SQLiteCommand },
    SPDLog { command: SPDLogCommand },
    PTY { command: PTYCommand },
}

pub enum SQLiteCommand {
    Connect { path: String },
    Close { cid: String },
    Exec { cid: String, sql: String, params: Option<Vec<String>> },
    Serialize { cid: String },
    Run { cid: String, cmd: String },
    Query { cid: String, sql: String, all: bool },
}

#[derive(Clone, Copy, Debug, PartialEq, Eq, Structural)]
pub enum SPDLogLevel {
    Trace,
    Debug,
    Info,
    Warn,
    Error,
    Critical,
    Off,
}

pub enum SPDLogCommand {
    CreateLogger { id: String, name: String, filepath: String },
    Log { id: String, level: SPDLogLevel, message: String },
    SetLogLevel { id: String, level: SPDLogLevel },
    Flush { id: String },
}

pub struct PTYCommandOpt {
    pub name: String,
    pub cols: u16,
    pub rows: u16,
    pub cwd: String,
    pub env: HashMap<String, String>,
}

pub enum PTYCommand {
    Spawn { id: String, shell: String, args: Vec<String>, opt: PTYCommandOpt },
}

} // verus!
