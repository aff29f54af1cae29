use vstd::prelude::*;
use crate::common::{reply_404, reply_ok, reply_text, Reply, CONTENT_TYPE_HTML, CONTENT_TYPE_TEXT};
use crate::node_api_types::{FSDirent, FSOptions};
use crate::text::{chars_of, contains, contains_seq, signed_decimal, signed_decimal_chars, string_of};

verus! {

/// The answer to an access check. Mode bit 1 (exists) fails on a missing path; mode bit 4
/// fails on a read-only file; `readonly` is what the file's metadata says, `None` when it
/// could not be read. A failed check is answered `NOK` (plain text, `200`).
pub fn fs_access_reply(mode: i32, exists: bool, readonly: Option<bool>) -> (r: Reply)
    ensures
        (mode & 1 != 0 && !exists) ==> r.status == 200 && r.content_type@ == CONTENT_TYPE_TEXT@
            && r.body@ == vstd::utf8::encode_utf8("NOK"@),
        !(mode & 1 != 0 && !exists) ==> match readonly {
            Some(ro) => if mode & 4 != 0 && ro {
                r.status == 200 && r.content_type@ == CONTENT_TYPE_TEXT@ && r.body@ == vstd::utf8::encode_utf8("NOK"@)
            } else {
                r.status == 200 && r.content_type@ == CONTENT_TYPE_HTML@ && r.body@ == vstd::utf8::encode_utf8("OK"@)
            },
            None => r.status == 404 && r.content_type@ == CONTENT_TYPE_HTML@ && r.body@ == vstd::utf8::encode_utf8("404"@),
        },
{
    if mode & 1 != 0 && !exists {
        return reply_text(200, CONTENT_TYPE_TEXT, "NOK");
    }
    match readonly {
        Some(ro) => if mode & 4 != 0 && ro {
            reply_text(200, CONTENT_TYPE_TEXT, "NOK")
        } else {
            reply_ok()
        },
        None => reply_404(),
    }
}

/// Whether options ask for recursion (`recursive: true`).
pub fn fs_recursive(options: &Option<FSOptions>) -> (r: bool)
    ensures
        r == match options {
            Some(o) => o.recursive == Some(true),
            None => false,
        },
{
    match options {
        Some(o) => match o.recursive {
            Some(rec) => rec,
            None => false,
        },
        None => false,
    }
}

/// What making a directory does.
#[derive(Clone, Copy, Debug, PartialEq, Eq, Structural)]
pub enum MkdirPlan {
    /// The path exists: answer with it.
    AlreadyThere,
    /// Create it with all missing parents.
    CreateAll,
    /// Create it alone.
    Create,
}

/// What making a directory does: nothing for an existing path, else create it, with its
/// parents when recursion is asked.
pub fn fs_mkdir_plan(exists: bool, options: &Option<FSOptions>) -> (r: MkdirPlan)
    ensures
        r == (if exists {
            MkdirPlan::AlreadyThere
        } else if (match options {
            Some(o) => o.recursive == Some(true),
            None => false,
        }) {
            MkdirPlan::CreateAll
        } else {
            MkdirPlan::Create
        }),
{
    if exists {
        MkdirPlan::AlreadyThere
    } else if fs_recursive(options) {
        MkdirPlan::CreateAll
    } else {
        MkdirPlan::Create
    }
}

/// The answer to making a directory: the path (plain text, `200`) when it is there, else `404`.
pub fn fs_mkdir_reply(path: &String, made: bool) -> (r: Reply)
    ensures
        made ==> r.status == 200 && r.content_type@ == CONTENT_TYPE_TEXT@ && r.body@ == vstd::utf8::encode_utf8(path@),
        !made ==> r.status == 404 && r.content_type@ == CONTENT_TYPE_HTML@ && r.body@ == vstd::utf8::encode_utf8("404"@),
{
    if made {
        reply_text(200, CONTENT_TYPE_TEXT, path.as_str())
    } else {
        reply_404()
    }
}

/// How a file is opened.
#[derive(Clone, Copy, Debug, PartialEq, Eq, Structural)]
pub struct OpenPlan {
    pub read: bool,
    pub write: bool,
    pub create: bool,
    pub truncate: bool,
    /// Position at the end after opening.
    pub append: bool,
}

/// How a file is opened for node's flags: always readable; `w` or `a` make it writable and
/// created when missing; `w` truncates it; `a` starts at its end.
pub fn fs_open_plan(flags: &String) -> (r: OpenPlan)
    ensures
        r.read,
        r.write == (contains_seq(flags@, "w"@) || contains_seq(flags@, "a"@)),
        r.create == r.write,
        r.truncate == contains_seq(flags@, "w"@),
        r.append == contains_seq(flags@, "a"@),
{
    let f = chars_of(flags.as_str());
    let w = chars_of("w");
    let a = chars_of("a");
    let has_w = contains(&f, &w);
    let has_a = contains(&f, &a);
    OpenPlan { read: true, write: has_w || has_a, create: has_w || has_a, truncate: has_w, append: has_a }
}

/// The answer to a successful open: the descriptor in decimal (plain text, `200`).
pub fn fs_open_reply(fd: i64) -> (r: Reply)
    ensures
        r.status == 200,
        r.content_type@ == CONTENT_TYPE_TEXT@,
        r.body@ == vstd::utf8::encode_utf8(signed_decimal(fd as int)),
{
    let d = signed_decimal_chars(fd);
    let s = string_of(&d);
    reply_text(200, CONTENT_TYPE_TEXT, s.as_str())
}


/// A directory as it was read: its entries in the order the file system gave them.
pub struct DirListing {
    pub entries: Vec<ListedEntry>,
}

/// An entry of a directory: its name, its full path, whether it is a directory, and the
/// listing of that directory when it was read in turn.
pub struct ListedEntry {
    pub name: String,
    pub path: String,
    pub is_directory: bool,
    pub listing: Option<DirListing>,
}

/// The entries reported for the first `n` entries of a directory at `path`: for each, the
/// entries of its own listing first when the walk is recursive and it is a directory that
/// was read, then the entry itself, reported with the path of the directory it is in.
pub open spec fn dirents_upto(path: Seq<char>, l: DirListing, n: int, recursive: bool) -> Seq<(Seq<char>, Seq<char>, bool)>
    decreases l, n,
{
    if n <= 0 || n > l.entries@.len() {
        Seq::empty()
    } else {
        let e = l.entries@[n - 1];
        let inner = if recursive && e.is_directory {
            match e.listing {
                Some(sub) => dirents(e.path@, sub, recursive),
                None => Seq::empty(),
            }
        } else {
            Seq::empty()
        };
        dirents_upto(path, l, n - 1, recursive) + inner + seq![(path, e.name@, e.is_directory)]
    }
}

/// The entries reported for a directory at `path` (see `dirents_upto`).
pub open spec fn dirents(path: Seq<char>, l: DirListing, recursive: bool) -> Seq<(Seq<char>, Seq<char>, bool)>
    decreases l, l.entries@.len() + 1,
{
    dirents_upto(path, l, l.entries@.len() as int, recursive)
}

/// The directory path, name and kind of each reported entry.
pub open spec fn dirent_views(v: Seq<FSDirent>) -> Seq<(Seq<char>, Seq<char>, bool)> {
    v.map_values(|d: FSDirent| (d.path@, d.name@, d.is_directory))
}

/// The entries a directory read reports for the listing of the directory at `path`.
pub fn fs_readdir_entries(path: &String, listing: &DirListing, recursive: bool) -> (r: Vec<FSDirent>)
    ensures
        dirent_views(r@) == dirents(path@, *listing, recursive),
    decreases listing,
{
    let mut out: Vec<FSDirent> = Vec::new();
    let mut i: usize = 0;
    while i < listing.entries.len()
        invariant
            i <= listing.entries@.len(),
            dirent_views(out@) == dirents_upto(path@, *listing, i as int, recursive),
        decreases listing.entries.len() - i,
    {
        let e = &listing.entries[i];
        let ghost before = dirent_views(out@);
        let ghost ge = listing.entries@[i as int];
        let ghost inner_spec = if recursive && ge.is_directory {
            match ge.listing {
                Some(sub) => dirents(ge.path@, sub, recursive),
                None => Seq::empty(),
            }
        } else {
            Seq::<(Seq<char>, Seq<char>, bool)>::empty()
        };
        if recursive && e.is_directory {
            match &e.listing {
                Some(sub) => {
                    assert(decreases_to!(*listing => listing.entries@[i as int]));
                    assert(decreases_to!(listing.entries@[i as int] => *sub));
                    let mut inner = fs_readdir_entries(&e.path, sub, recursive);
                    let ghost iv = inner@;
                    out.append(&mut inner);
                    assert(dirent_views(out@) =~= before + dirent_views(iv));
                },
                None => {
                    assert(dirent_views(out@) =~= before + inner_spec);
                },
            }
        } else {
            assert(dirent_views(out@) =~= before + inner_spec);
        }
        let ghost mid = dirent_views(out@);
        out.push(FSDirent::new(path.clone(), e.name.clone(), e.is_directory));
        assert(dirent_views(out@) =~= mid.push((path@, e.name@, e.is_directory)));
        i = i + 1;
    }
    out
}


/// The data a write needs: the data that came with the request, or the `500` answer
/// (plain text) that none came, worded for a whole-file write or a write to an open file.
pub fn fs_write_data(data: Option<Vec<u8>>, whole_file: bool) -> (r: Result<Vec<u8>, Reply>)
    ensures
        match data {
            Some(d) => r == Ok::<Vec<u8>, Reply>(d),
            None => match r {
                Err(rep) => rep.status == 500 && rep.content_type@ == CONTENT_TYPE_TEXT@
                    && rep.body@ == vstd::utf8::encode_utf8(
                    if whole_file { "FSWriteFile error, no data"@ } else { "FSWrite error, no data"@ },
                ),
                Ok(_) => false,
            },
        },
{
    match data {
        Some(d) => Ok(d),
        None => if whole_file {
            Err(reply_text(500, CONTENT_TYPE_TEXT, "FSWriteFile error, no data"))
        } else {
            Err(reply_text(500, CONTENT_TYPE_TEXT, "FSWrite error, no data"))
        },
    }
}


/// The answer to a read of an open file: the bytes read, as binary data.
pub fn fs_read_reply(bytes: Vec<u8>) -> (r: Reply)
    ensures
        r.status == 200,
        r.content_type@ == crate::common::CONTENT_TYPE_BIN@,
        r.body == bytes,
{
    crate::common::reply_status(200, crate::common::CONTENT_TYPE_BIN.to_owned(), bytes)
}

/// The answer to a write to an open file: the number of bytes written, in decimal.
pub fn fs_written_reply(written: usize) -> (r: Reply)
    ensures
        r.status == 200,
        r.content_type@ == CONTENT_TYPE_TEXT@,
        r.body@ == vstd::utf8::encode_utf8(crate::text::decimal(written as nat)),
{
    let d = crate::text::decimal_chars(written as u64);
    let s = string_of(&d);
    reply_text(200, CONTENT_TYPE_TEXT, s.as_str())
}

} // verus!

verus! {

/// Whether `path` leads from the listing `l` down through directories whose listings were
/// read: each step is the position of such a directory among the entries reached so far.
pub open spec fn leads_into(l: DirListing, path: Seq<int>) -> bool
    decreases path.len(),
{
    path.len() == 0 || (0 <= path[0] < l.entries@.len() && l.entries@[path[0]].is_directory
        && l.entries@[path[0]].listing is Some
        && leads_into(l.entries@[path[0]].listing.unwrap(), path.drop_first()))
}

/// The directory (its path and listing) that `path` leads to from the directory `dir`
/// with the listing `l`.
pub open spec fn reached(dir: Seq<char>, l: DirListing, path: Seq<int>) -> (Seq<char>, DirListing)
    decreases path.len(),
{
    if path.len() == 0 || !(0 <= path[0] < l.entries@.len()) || l.entries@[path[0]].listing is None {
        (dir, l)
    } else {
        reached(l.entries@[path[0]].path@, l.entries@[path[0]].listing.unwrap(), path.drop_first())
    }
}

proof fn lemma_dirents_upto_grows(path: Seq<char>, l: DirListing, m: int, n: int, recursive: bool)
    requires
        0 <= m <= n <= l.entries@.len(),
    ensures
        forall|x| #[trigger] dirents_upto(path, l, m, recursive).contains(x) ==> dirents_upto(path, l, n, recursive).contains(x),
    decreases n,
{
    if m < n {
        lemma_dirents_upto_grows(path, l, m, n - 1, recursive);
        let prev = dirents_upto(path, l, n - 1, recursive);
        let cur = dirents_upto(path, l, n, recursive);
        assert forall|x| #[trigger] prev.contains(x) implies cur.contains(x) by {
            let k = choose|k: int| 0 <= k < prev.len() && prev[k] == x;
            assert(cur[k] == prev[k]);
        }
    }
}

/// Each entry of a directory is reported by a read of it, with the directory's path.
proof fn lemma_entry_reported(path: Seq<char>, l: DirListing, i: int, recursive: bool)
    requires
        0 <= i < l.entries@.len(),
    ensures
        dirents(path, l, recursive).contains((path, l.entries@[i].name@, l.entries@[i].is_directory)),
{
    let cur = dirents_upto(path, l, i + 1, recursive);
    let x = (path, l.entries@[i].name@, l.entries@[i].is_directory);
    assert(cur[cur.len() - 1] == x);
    assert(cur.contains(x));
    lemma_dirents_upto_grows(path, l, i + 1, l.entries@.len() as int, recursive);
    assert(dirents_upto(path, l, l.entries@.len() as int, recursive).contains(x));
}

/// What a recursive read of a subdirectory reports, a recursive read of its parent
/// reports too.
proof fn lemma_sub_reported(path: Seq<char>, l: DirListing, i: int, x: (Seq<char>, Seq<char>, bool))
    requires
        0 <= i < l.entries@.len(),
        l.entries@[i].is_directory,
        l.entries@[i].listing is Some,
        dirents(l.entries@[i].path@, l.entries@[i].listing.unwrap(), true).contains(x),
    ensures
        dirents(path, l, true).contains(x),
{
    let prev = dirents_upto(path, l, i, true);
    let inner = dirents(l.entries@[i].path@, l.entries@[i].listing.unwrap(), true);
    let cur = dirents_upto(path, l, i + 1, true);
    assert(cur == prev + inner + seq![(path, l.entries@[i].name@, l.entries@[i].is_directory)]);
    let k = choose|k: int| 0 <= k < inner.len() && inner[k] == x;
    assert(cur[prev.len() + k] == x);
    assert(cur.contains(x));
    lemma_dirents_upto_grows(path, l, i + 1, l.entries@.len() as int, true);
    assert(dirents_upto(path, l, l.entries@.len() as int, true).contains(x));
}

/// A recursive directory read reports every entry at any depth: for the directory any
/// path of read subdirectories leads to, each of its entries appears in the result with
/// the path of the directory that holds it.
pub proof fn law_recursive_read_reports_every_depth(dir: Seq<char>, l: DirListing, path: Seq<int>, i: int)
    requires
        leads_into(l, path),
        0 <= i < reached(dir, l, path).1.entries@.len(),
    ensures
        dirents(dir, l, true).contains((
            reached(dir, l, path).0,
            reached(dir, l, path).1.entries@[i].name@,
            reached(dir, l, path).1.entries@[i].is_directory,
        )),
    decreases path.len(),
{
    if path.len() == 0 {
        lemma_entry_reported(dir, l, i, true);
    } else {
        let j = path[0];
        let e = l.entries@[j];
        law_recursive_read_reports_every_depth(e.path@, e.listing.unwrap(), path.drop_first(), i);
        lemma_sub_reported(dir, l, j, (
            reached(dir, l, path).0,
            reached(dir, l, path).1.entries@[i].name@,
            reached(dir, l, path).1.entries@[i].is_directory,
        ));
    }
}

/// A read that is not recursive reports exactly the directory's own entries, in order,
/// each with the directory's path.
pub proof fn law_flat_read_reports_own_entries(dir: Seq<char>, l: DirListing)
    ensures
        dirents(dir, l, false).len() == l.entries@.len(),
        forall|i: int| 0 <= i < l.entries@.len() ==> #[trigger] dirents(dir, l, false)[i]
            == (dir, l.entries@[i].name@, l.entries@[i].is_directory),
{
    lemma_flat_upto(dir, l, l.entries@.len() as int);
}

proof fn lemma_flat_upto(dir: Seq<char>, l: DirListing, n: int)
    requires
        0 <= n <= l.entries@.len(),
    ensures
        dirents_upto(dir, l, n, false).len() == n,
        forall|i: int| 0 <= i < n ==> #[trigger] dirents_upto(dir, l, n, false)[i]
            == (dir, l.entries@[i].name@, l.entries@[i].is_directory),
    decreases n,
{
    if n > 0 {
        lemma_flat_upto(dir, l, n - 1);
        let prev = dirents_upto(dir, l, n - 1, false);
        assert(dirents_upto(dir, l, n, false) == prev + Seq::<(Seq<char>, Seq<char>, bool)>::empty()
            + seq![(dir, l.entries@[n - 1].name@, l.entries@[n - 1].is_directory)]);
    }
}

} // verus!
