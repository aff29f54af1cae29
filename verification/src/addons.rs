use vstd::prelude::*;
use crate::addon_types::SPDLogLevel;
use crate::text::str_is;

verus! {

/// The statement a sqlite `run` command executes: `BEGIN TRANSACTION` for itself,
/// `COMMIT` for `END TRANSACTION`, nothing for anything else.
pub fn sqlite_run_statement(cmd: &String) -> (r: Option<&'static str>)
    ensures
        match r {
            Some(s) => (cmd@ == "BEGIN TRANSACTION"@ && s@ == "BEGIN TRANSACTION"@) || (cmd@ == "END TRANSACTION"@ && s@ == "COMMIT"@),
            None => cmd@ != "BEGIN TRANSACTION"@ && cmd@ != "END TRANSACTION"@,
        },
{
    if str_is(cmd.as_str(), "BEGIN TRANSACTION") {
        let s: &'static str = "BEGIN TRANSACTION";
        Some(s)
    } else if str_is(cmd.as_str(), "END TRANSACTION") {
        let s: &'static str = "COMMIT";
        Some(s)
    } else {
        None
    }
}

/// The record of a result row: each column name to its value, a later column with the
/// same name replacing the value of an earlier one (the first `n` columns).
pub open spec fn row_map(columns: Seq<String>, row: Seq<String>, n: int) -> Map<Seq<char>, Seq<char>>
    decreases n,
{
    if n <= 0 {
        Map::empty()
    } else {
        row_map(columns, row, n - 1).insert(columns[n - 1]@, row[n - 1]@)
    }
}

/// Whether a list of name and value pairs holds exactly the record `m`, each name once.
pub open spec fn holds_record(r: Seq<(String, String)>, m: Map<Seq<char>, Seq<char>>) -> bool {
    &&& forall|a: int, b: int| 0 <= a < b < r.len() ==> #[trigger] r[a].0@ != #[trigger] r[b].0@
    &&& forall|a: int| 0 <= a < r.len() ==> m.contains_key(#[trigger] r[a].0@) && m[r[a].0@] == r[a].1@
    &&& forall|k: Seq<char>| #[trigger] m.contains_key(k) ==> exists|a: int| 0 <= a < r.len() && r[a].0@ == k
}

/// The position of the pair named `name`, if there is one.
fn find_name(r: &Vec<(String, String)>, name: &Vec<char>) -> (found: Option<usize>)
    ensures
        match found {
            Some(p) => p < r@.len() && r@[p as int].0@ == name@,
            None => forall|q: int| 0 <= q < r@.len() ==> r@[q].0@ != name@,
        },
{
    let mut p: usize = 0;
    while p < r.len()
        invariant
            p <= r@.len(),
            forall|q: int| 0 <= q < p ==> r@[q].0@ != name@,
        decreases r.len() - p,
    {
        let other = crate::text::chars_of(r[p].0.as_str());
        if crate::text::chars_eq(&other, name) {
            return Some(p);
        }
        p = p + 1;
    }
    None
}

/// A result row of a sqlite query as a record of column name and value pairs: each name
/// once, with the value of its last column, names in the order they first appear.
pub fn sqlite_row_record(columns: &Vec<String>, row: &Vec<String>) -> (r: Vec<(String, String)>)
    requires
        row@.len() <= columns@.len(),
    ensures
        holds_record(r@, row_map(columns@, row@, row@.len() as int)),
{
    let mut r: Vec<(String, String)> = Vec::new();
    let mut i: usize = 0;
    while i < row.len()
        invariant
            row@.len() <= columns@.len(),
            i <= row@.len(),
            holds_record(r@, row_map(columns@, row@, i as int)),
        decreases row.len() - i,
    {
        let name = crate::text::chars_of(columns[i].as_str());
        let found = find_name(&r, &name);
        let ghost before = r@;
        let ghost m = row_map(columns@, row@, i as int);
        let ghost m2 = row_map(columns@, row@, i + 1);
        assert(m2 == m.insert(columns@[i as int]@, row@[i as int]@));
        let pair = (columns[i].clone(), row[i].clone());
        match found {
            Some(p) => {
                r.set(p, pair);
                assert forall|a: int, b: int| 0 <= a < b < r@.len() implies #[trigger] r@[a].0@ != #[trigger] r@[b].0@ by {
                    if a != p && b != p {
                        assert(r@[a] == before[a] && r@[b] == before[b]);
                    } else if a == p {
                        assert(r@[b] == before[b]);
                    } else {
                        assert(r@[a] == before[a]);
                    }
                }
                assert forall|a: int| 0 <= a < r@.len() implies m2.contains_key(#[trigger] r@[a].0@) && m2[r@[a].0@] == r@[a].1@ by {
                    if a != p {
                        assert(r@[a] == before[a]);
                        assert(before[a].0@ != before[p as int].0@);
                    }
                }
                assert forall|k: Seq<char>| #[trigger] m2.contains_key(k) implies exists|a: int| 0 <= a < r@.len() && r@[a].0@ == k by {
                    if k == columns@[i as int]@ {
                        assert(r@[p as int].0@ == k);
                    } else {
                        let a = choose|a: int| 0 <= a < before.len() && before[a].0@ == k;
                        assert(a != p);
                        assert(r@[a] == before[a]);
                    }
                }
            },
            None => {
                r.push(pair);
                assert forall|a: int, b: int| 0 <= a < b < r@.len() implies #[trigger] r@[a].0@ != #[trigger] r@[b].0@ by {
                    assert(r@[a] == before[a]);
                    if b < before.len() {
                        assert(r@[b] == before[b]);
                    }
                }
                assert forall|a: int| 0 <= a < r@.len() implies m2.contains_key(#[trigger] r@[a].0@) && m2[r@[a].0@] == r@[a].1@ by {
                    if a < before.len() {
                        assert(r@[a] == before[a]);
                    }
                }
                assert forall|k: Seq<char>| #[trigger] m2.contains_key(k) implies exists|a: int| 0 <= a < r@.len() && r@[a].0@ == k by {
                    if k == columns@[i as int]@ {
                        assert(r@[before.len() as int].0@ == k);
                    } else {
                        let a = choose|a: int| 0 <= a < before.len() && before[a].0@ == k;
                        assert(r@[a] == before[a]);
                    }
                }
            },
        }
        i = i + 1;
    }
    r
}

/// A log level of a logger.
#[derive(Clone, Copy, Debug, PartialEq, Eq, Structural)]
pub enum LogLevel {
    Trace,
    Debug,
    Info,
    Warn,
    Error,
    Critical,
}

/// Which messages a logger lets through.
#[derive(Clone, Copy, Debug, PartialEq, Eq, Structural)]
pub enum LogFilter {
    All,
    /// Messages of this level or more severe.
    MoreSevereEqual(LogLevel),
    Off,
}

/// The filter a logger gets for a level: everything for `Trace`, nothing for `Off`, else
/// the level and what is more severe.
pub fn spdlog_filter(level: SPDLogLevel) -> (r: LogFilter)
    ensures
        r == match level {
            SPDLogLevel::Trace => LogFilter::All,
            SPDLogLevel::Debug => LogFilter::MoreSevereEqual(LogLevel::Debug),
            SPDLogLevel::Info => LogFilter::MoreSevereEqual(LogLevel::Info),
            SPDLogLevel::Warn => LogFilter::MoreSevereEqual(LogLevel::Warn),
            SPDLogLevel::Error => LogFilter::MoreSevereEqual(LogLevel::Error),
            SPDLogLevel::Critical => LogFilter::MoreSevereEqual(LogLevel::Critical),
            SPDLogLevel::Off => LogFilter::Off,
        },
{
    match level {
        SPDLogLevel::Trace => LogFilter::All,
        SPDLogLevel::Debug => LogFilter::MoreSevereEqual(LogLevel::Debug),
        SPDLogLevel::Info => LogFilter::MoreSevereEqual(LogLevel::Info),
        SPDLogLevel::Warn => LogFilter::MoreSevereEqual(LogLevel::Warn),
        SPDLogLevel::Error => LogFilter::MoreSevereEqual(LogLevel::Error),
        SPDLogLevel::Critical => LogFilter::MoreSevereEqual(LogLevel::Critical),
        SPDLogLevel::Off => LogFilter::Off,
    }
}

/// The level a message is logged at; `Off` logs nothing.
pub fn spdlog_message_level(level: SPDLogLevel) -> (r: Option<LogLevel>)
    ensures
        r == match level {
            SPDLogLevel::Trace => Some(LogLevel::Trace),
            SPDLogLevel::Debug => Some(LogLevel::Debug),
            SPDLogLevel::Info => Some(LogLevel::Info),
            SPDLogLevel::Warn => Some(LogLevel::Warn),
            SPDLogLevel::Error => Some(LogLevel::Error),
            SPDLogLevel::Critical => Some(LogLevel::Critical),
            SPDLogLevel::Off => None,
        },
{
    match level {
        SPDLogLevel::Trace => Some(LogLevel::Trace),
        SPDLogLevel::Debug => Some(LogLevel::Debug),
        SPDLogLevel::Info => Some(LogLevel::Info),
        SPDLogLevel::Warn => Some(LogLevel::Warn),
        SPDLogLevel::Error => Some(LogLevel::Error),
        SPDLogLevel::Critical => Some(LogLevel::Critical),
        SPDLogLevel::Off => None,
    }
}


/// The answer to a sqlite command for a connection that is not open: `400`, plain text,
/// `Error: No Connection for cid <cid>`.
pub fn sqlite_no_connection_reply(cid: &String) -> (r: crate::common::Reply)
    ensures
        r.status == 400,
        r.content_type@ == crate::common::CONTENT_TYPE_TEXT@,
        r.body@ == vstd::utf8::encode_utf8("Error: No Connection for cid "@ + cid@),
{
    let mut v: Vec<char> = Vec::new();
    crate::text::push_str(&mut v, "Error: No Connection for cid ");
    crate::text::push_str(&mut v, cid.as_str());
    let t = crate::text::string_of(&v);
    crate::common::reply_text(400, crate::common::CONTENT_TYPE_TEXT, t.as_str())
}

} // verus!
