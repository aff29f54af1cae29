use vstd::prelude::*;
use crate::text::{
    chars_of, flat_map, join, join_from, lacks, lemma_flat_map_push, lemma_join_front, lemma_join_split,
    lemma_split_at_sep, lemma_split_nonempty, lemma_split_without_sep, split, split_chars, str_is,
    string_of,
};

verus! {

/// The image of one character under JavaScript single-quoted string escaping.
pub open spec fn js_escape_char(c: char) -> Seq<char> {
    if c == '\\' {
        seq!['\\', '\\']
    } else if c == '\'' {
        seq!['\\', '\'']
    } else if c == '\n' {
        seq!['\\', 'n']
    } else if c == '\r' {
        seq!['\\', 'r']
    } else {
        seq![c]
    }
}

/// `s` escaped for a single-quoted JavaScript string literal: backslash, single quote,
/// line feed and carriage return each become a backslash sequence.
pub open spec fn js_escaped(s: Seq<char>) -> Seq<char> {
    flat_map(s, |c: char| js_escape_char(c))
}

/// The image of one character under message (double-quoted JSON string) escaping.
pub open spec fn msg_escape_char(c: char) -> Seq<char> {
    if c == '\\' {
        seq!['\\', '\\']
    } else if c == '"' {
        seq!['\\', '"']
    } else {
        seq![c]
    }
}

/// `s` escaped for a double-quoted string: backslash and double quote each get a backslash.
pub open spec fn msg_escaped(s: Seq<char>) -> Seq<char> {
    flat_map(s, |c: char| msg_escape_char(c))
}

fn push_js_escaped(out: &mut Vec<char>, c: char)
    ensures
        final(out)@ == old(out)@ + js_escape_char(c),
{
    if c == '\\' {
        out.push('\\');
        out.push('\\');
    } else if c == '\'' {
        out.push('\\');
        out.push('\'');
    } else if c == '\n' {
        out.push('\\');
        out.push('n');
    } else if c == '\r' {
        out.push('\\');
        out.push('r');
    } else {
        out.push(c);
    }
    assert(final(out)@ =~= old(out)@ + js_escape_char(c));
}

fn push_msg_escaped(out: &mut Vec<char>, c: char)
    ensures
        final(out)@ == old(out)@ + msg_escape_char(c),
{
    if c == '\\' {
        out.push('\\');
        out.push('\\');
    } else if c == '"' {
        out.push('\\');
        out.push('"');
    } else {
        out.push(c);
    }
    assert(final(out)@ =~= old(out)@ + msg_escape_char(c));
}

/// Escapes the characters of `s` for a single-quoted JavaScript string literal.
pub fn escape_chars(s: &Vec<char>) -> (r: Vec<char>)
    ensures
        r@ == js_escaped(s@),
{
    let mut out: Vec<char> = Vec::new();
    let mut i: usize = 0;
    assert(s@.take(0) =~= Seq::<char>::empty());
    while i < s.len()
        invariant
            i <= s.len(),
            out@ == js_escaped(s@.take(i as int)),
        decreases s.len() - i,
    {
        proof {
            lemma_flat_map_push(s@.take(i as int), s@[i as int], |c: char| js_escape_char(c));
            assert(s@.take(i + 1) =~= s@.take(i as int).push(s@[i as int]));
        }
        push_js_escaped(&mut out, s[i]);
        i = i + 1;
    }
    assert(s@.take(s.len() as int) =~= s@);
    out
}

/// Escapes `s` for a single-quoted JavaScript string literal (`\` `'` line feed and
/// carriage return get a backslash form).
pub fn escape(s: &String) -> (r: String)
    ensures
        r@ == js_escaped(s@),
{
    let cs = chars_of(s.as_str());
    let out = escape_chars(&cs);
    string_of(&out)
}

/// Escapes the characters of `s` for a double-quoted string.
pub fn escapemsg_chars(s: &Vec<char>) -> (r: Vec<char>)
    ensures
        r@ == msg_escaped(s@),
{
    let mut out: Vec<char> = Vec::new();
    let mut i: usize = 0;
    assert(s@.take(0) =~= Seq::<char>::empty());
    while i < s.len()
        invariant
            i <= s.len(),
            out@ == msg_escaped(s@.take(i as int)),
        decreases s.len() - i,
    {
        proof {
            lemma_flat_map_push(s@.take(i as int), s@[i as int], |c: char| msg_escape_char(c));
            assert(s@.take(i + 1) =~= s@.take(i as int).push(s@[i as int]));
        }
        push_msg_escaped(&mut out, s[i]);
        i = i + 1;
    }
    assert(s@.take(s.len() as int) =~= s@);
    out
}

/// Escapes `s` for a double-quoted string (`\` and `"` get a backslash).
pub fn escapemsg(s: &String) -> (r: String)
    ensures
        r@ == msg_escaped(s@),
{
    let cs = chars_of(s.as_str());
    let out = escapemsg_chars(&cs);
    string_of(&out)
}

/// Reads back a JavaScript-escaped text.
pub open spec fn js_unescaped(s: Seq<char>) -> Seq<char>
    decreases s.len(),
{
    if s.len() == 0 {
        Seq::<char>::empty()
    } else if s[0] == '\\' && s.len() >= 2 {
        let k = s[1];
        let c = if k == 'n' { '\n' } else if k == 'r' { '\r' } else { k };
        seq![c] + js_unescaped(s.subrange(2, s.len() as int))
    } else {
        seq![s[0]] + js_unescaped(s.drop_first())
    }
}

/// Reads back a message-escaped text.
pub open spec fn msg_unescaped(s: Seq<char>) -> Seq<char>
    decreases s.len(),
{
    if s.len() == 0 {
        Seq::<char>::empty()
    } else if s[0] == '\\' && s.len() >= 2 {
        seq![s[1]] + msg_unescaped(s.subrange(2, s.len() as int))
    } else {
        seq![s[0]] + msg_unescaped(s.drop_first())
    }
}

/// Escaping loses nothing: reading back the output of `escape` gives the input.
pub proof fn law_escape_round_trip(s: Seq<char>)
    ensures
        js_unescaped(js_escaped(s)) == s,
    decreases s.len(),
{
    if s.len() > 0 {
        let f = |c: char| js_escape_char(c);
        let rest = js_escaped(s.drop_first());
        law_escape_round_trip(s.drop_first());
        let e = js_escaped(s);
        assert(e == js_escape_char(s[0]) + rest);
        let c = s[0];
        if c == '\\' || c == '\'' || c == '\n' || c == '\r' {
            assert(e.subrange(2, e.len() as int) =~= rest);
        } else {
            assert(e.drop_first() =~= rest);
        }
        assert(js_unescaped(e) =~= s);
    }
}

/// Message escaping loses nothing: reading back the output of `escapemsg` gives the input.
pub proof fn law_escapemsg_round_trip(s: Seq<char>)
    ensures
        msg_unescaped(msg_escaped(s)) == s,
    decreases s.len(),
{
    if s.len() > 0 {
        let rest = msg_escaped(s.drop_first());
        law_escapemsg_round_trip(s.drop_first());
        let e = msg_escaped(s);
        assert(e == msg_escape_char(s[0]) + rest);
        let c = s[0];
        if c == '\\' || c == '"' {
            assert(e.subrange(2, e.len() as int) =~= rest);
        } else {
            assert(e.drop_first() =~= rest);
        }
        assert(msg_unescaped(e) =~= s);
    }
}

/// `escape` is one-to-one: different texts never escape to the same literal.
pub proof fn law_escape_injective(a: Seq<char>, b: Seq<char>)
    requires
        js_escaped(a) == js_escaped(b),
    ensures
        a == b,
{
    law_escape_round_trip(a);
    law_escape_round_trip(b);
}

/// `escapemsg` is one-to-one.
pub proof fn law_escapemsg_injective(a: Seq<char>, b: Seq<char>)
    requires
        msg_escaped(a) == msg_escaped(b),
    ensures
        a == b,
{
    law_escapemsg_round_trip(a);
    law_escapemsg_round_trip(b);
}

/// The output of `escape` holds no raw line break, and every single quote in it
/// follows a backslash, so it cannot end the literal it is placed in.
pub proof fn law_escape_is_literal_safe(s: Seq<char>)
    ensures
        forall|i: int| 0 <= i < js_escaped(s).len() ==> #[trigger] js_escaped(s)[i] != '\n' && js_escaped(s)[i] != '\r',
        forall|i: int| 0 <= i < js_escaped(s).len() && #[trigger] js_escaped(s)[i] == '\'' ==> i > 0 && js_escaped(s)[i - 1] == '\\',
    decreases s.len(),
{
    if s.len() > 0 {
        law_escape_is_literal_safe(s.drop_first());
        let h = js_escape_char(s[0]);
        let rest = js_escaped(s.drop_first());
        let e = js_escaped(s);
        assert(e == h + rest);
        assert forall|i: int| 0 <= i < e.len() implies e[i] != '\n' && e[i] != '\r' by {
            if i >= h.len() {
                assert(e[i] == rest[i - h.len()]);
            }
        }
        assert forall|i: int| 0 <= i < e.len() && #[trigger] e[i] == '\'' implies i > 0 && e[i - 1] == '\\' by {
            if i >= h.len() {
                assert(e[i] == rest[i - h.len()]);
                if i - h.len() > 0 {
                    assert(e[i - 1] == rest[i - 1 - h.len()]);
                } else {
                    // a quote can never start the escaped rest
                    assert(rest[0] == '\'');
                    assert(false);
                }
            }
        }
    }
}


/// Every double quote in the output of `escapemsg` follows a backslash, so it cannot end
/// the double-quoted string it is placed in.
pub proof fn law_escapemsg_is_string_safe(s: Seq<char>)
    ensures
        forall|i: int| 0 <= i < msg_escaped(s).len() && #[trigger] msg_escaped(s)[i] == '"' ==> i > 0 && msg_escaped(s)[i - 1] == '\\',
    decreases s.len(),
{
    if s.len() > 0 {
        law_escapemsg_is_string_safe(s.drop_first());
        let h = msg_escape_char(s[0]);
        let rest = msg_escaped(s.drop_first());
        let e = msg_escaped(s);
        assert(e == h + rest);
        assert forall|i: int| 0 <= i < e.len() && #[trigger] e[i] == '"' implies i > 0 && e[i - 1] == '\\' by {
            if i >= h.len() {
                assert(e[i] == rest[i - h.len()]);
                if i - h.len() > 0 {
                    assert(e[i - 1] == rest[i - 1 - h.len()]);
                } else {
                    // a quote can never start the escaped rest
                    assert(rest[0] == '"');
                    assert(false);
                }
            }
        }
    }
}


/// Whether `escape` turns a character into two.
pub open spec fn js_special(c: char) -> bool {
    c == '\\' || c == '\'' || c == '\n' || c == '\r'
}

/// Whether `escapemsg` turns a character into two.
pub open spec fn msg_special(c: char) -> bool {
    c == '\\' || c == '"'
}

/// The number of characters of `s` for which `special` holds.
pub open spec fn count_where(s: Seq<char>, special: spec_fn(char) -> bool) -> nat
    decreases s.len(),
{
    if s.len() == 0 {
        0
    } else {
        (if special(s[0]) { 1nat } else { 0nat }) + count_where(s.drop_first(), special)
    }
}

/// `escape` adds exactly one character for each backslash, single quote, line feed and
/// carriage return.
pub proof fn law_escape_length(s: Seq<char>)
    ensures
        js_escaped(s).len() == s.len() + count_where(s, |c: char| js_special(c)),
    decreases s.len(),
{
    if s.len() > 0 {
        law_escape_length(s.drop_first());
        assert(js_escaped(s) == js_escape_char(s[0]) + js_escaped(s.drop_first()));
    }
}

/// `escapemsg` adds exactly one character for each backslash and double quote; every
/// other character, single quotes and line breaks among them, is kept as it is.
pub proof fn law_escapemsg_length(s: Seq<char>)
    ensures
        msg_escaped(s).len() == s.len() + count_where(s, |c: char| msg_special(c)),
        forall|c: char| !msg_special(c) ==> #[trigger] msg_escape_char(c) == seq![c],
    decreases s.len(),
{
    if s.len() > 0 {
        law_escapemsg_length(s.drop_first());
        assert(msg_escaped(s) == msg_escape_char(s[0]) + msg_escaped(s.drop_first()));
    }
}

/// The number of backslashes right before position `i` of `e`.
pub open spec fn backslash_run(e: Seq<char>, i: int) -> nat
    decreases i,
{
    if i <= 0 || i > e.len() || e[i - 1] != '\\' {
        0
    } else {
        1 + backslash_run(e, i - 1)
    }
}

proof fn lemma_backslash_run_bound(e: Seq<char>, i: int)
    requires
        0 <= i,
    ensures
        backslash_run(e, i) <= i,
    decreases i,
{
    if i > 0 {
        lemma_backslash_run_bound(e, i - 1);
    }
}

proof fn lemma_backslash_run_prefix(a: Seq<char>, b: Seq<char>, j: int)
    requires
        0 <= j <= a.len(),
    ensures
        backslash_run(a + b, j) == backslash_run(a, j),
    decreases j,
{
    if j > 0 {
        lemma_backslash_run_prefix(a, b, j - 1);
        assert((a + b)[j - 1] == a[j - 1]);
    }
}

/// A run of backslashes before a position of `b` in `a + b` that reaches the start of `b`
/// goes on into `a`.
proof fn lemma_backslash_run_concat(a: Seq<char>, b: Seq<char>, i: int)
    requires
        0 <= i <= b.len(),
    ensures
        backslash_run(a + b, a.len() + i) == if backslash_run(b, i) < i {
            backslash_run(b, i) as int
        } else {
            i + backslash_run(a, a.len() as int)
        },
    decreases i,
{
    lemma_backslash_run_bound(b, i);
    if i == 0 {
        lemma_backslash_run_prefix(a, b, a.len() as int);
    } else {
        lemma_backslash_run_concat(a, b, i - 1);
        lemma_backslash_run_bound(b, i - 1);
        assert((a + b)[a.len() + i - 1] == b[i - 1]);
    }
}

/// The escape of one character ends in an even run of backslashes.
proof fn lemma_escape_char_run(h: Seq<char>)
    requires
        h == seq!['\\', '\\'] || h == seq!['\\', '\''] || h == seq!['\\', 'n'] || h == seq!['\\', 'r'] || h == seq!['\\', '"']
            || (h.len() == 1 && h[0] != '\\'),
    ensures
        backslash_run(h, h.len() as int) % 2 == 0,
{
    reveal_with_fuel(backslash_run, 3);
}

/// Every single quote in the output of `escape` follows an odd run of backslashes, so it
/// is always an escaped quote and never ends the literal.
pub proof fn law_escape_quote_follows_odd_run(s: Seq<char>)
    ensures
        forall|i: int| 0 <= i < js_escaped(s).len() && #[trigger] js_escaped(s)[i] == '\'' ==> backslash_run(js_escaped(s), i) % 2 == 1,
    decreases s.len(),
{
    if s.len() > 0 {
        law_escape_quote_follows_odd_run(s.drop_first());
        let h = js_escape_char(s[0]);
        let rest = js_escaped(s.drop_first());
        let e = js_escaped(s);
        assert(e == h + rest);
        lemma_escape_char_run(h);
        assert forall|i: int| 0 <= i < e.len() && #[trigger] e[i] == '\'' implies backslash_run(e, i) % 2 == 1 by {
            if i < h.len() {
                assert(e[i] == h[i]);
                assert(h == seq!['\\', '\''] && i == 1);
                lemma_backslash_run_prefix(h, rest, 1);
                reveal_with_fuel(backslash_run, 2);
            } else {
                let k = i - h.len();
                assert(rest[k] == e[i]);
                lemma_backslash_run_concat(h, rest, k);
                lemma_backslash_run_bound(rest, k);
            }
        }
    }
}

/// Every double quote in the output of `escapemsg` follows an odd run of backslashes.
pub proof fn law_escapemsg_quote_follows_odd_run(s: Seq<char>)
    ensures
        forall|i: int| 0 <= i < msg_escaped(s).len() && #[trigger] msg_escaped(s)[i] == '"' ==> backslash_run(msg_escaped(s), i) % 2 == 1,
    decreases s.len(),
{
    if s.len() > 0 {
        law_escapemsg_quote_follows_odd_run(s.drop_first());
        let h = msg_escape_char(s[0]);
        let rest = msg_escaped(s.drop_first());
        let e = msg_escaped(s);
        assert(e == h + rest);
        lemma_escape_char_run(h);
        assert forall|i: int| 0 <= i < e.len() && #[trigger] e[i] == '"' implies backslash_run(e, i) % 2 == 1 by {
            if i < h.len() {
                assert(e[i] == h[i]);
                assert(h == seq!['\\', '"'] && i == 1);
                lemma_backslash_run_prefix(h, rest, 1);
                reveal_with_fuel(backslash_run, 2);
            } else {
                let k = i - h.len();
                assert(rest[k] == e[i]);
                lemma_backslash_run_concat(h, rest, k);
                lemma_backslash_run_bound(rest, k);
            }
        }
    }
}

} // verus!

verus! {

/// The parts of a request path `/<http id>@<protocol>/<url root>/<rest>`:
/// `(http id, protocol, url root, "/" + rest)`, when the path has the first three.
pub open spec fn url_path_parts(path: Seq<char>) -> Option<(Seq<char>, Seq<char>, Seq<char>, Seq<char>)> {
    let pparts = split(path, '/');
    if pparts.len() >= 3 && split(pparts[1], '@').len() >= 2 {
        let hparts = split(pparts[1], '@');
        Some((hparts[0], hparts[1], pparts[2], seq!['/'] + join(pparts.subrange(3, pparts.len() as int), '/')))
    } else {
        None
    }
}

/// Splits a request path into `(http id, protocol, url root, url)`; `None` when the path
/// lacks one of the first three parts.
pub fn parse_http_url_path(path: &str) -> (r: Option<(String, String, String, String)>)
    ensures
        match r {
            Some(t) => url_path_parts(path@) == Some((t.0@, t.1@, t.2@, t.3@)),
            None => url_path_parts(path@) is None,
        },
{
    let pcs = chars_of(path);
    let pparts = split_chars(&pcs, '/');
    if pparts.len() < 3 {
        return None;
    }
    let hparts = split_chars(&pparts[1], '@');
    if hparts.len() < 2 {
        return None;
    }
    let http_id = string_of(&hparts[0]);
    let protocol = string_of(&hparts[1]);
    let url_root = string_of(&pparts[2]);
    let tail = join_from(&pparts, 3, '/');
    let mut url: Vec<char> = Vec::new();
    url.push('/');
    let mut i: usize = 0;
    while i < tail.len()
        invariant
            i <= tail.len(),
            url@ == seq!['/'] + tail@.take(i as int),
        decreases tail.len() - i,
    {
        url.push(tail[i]);
        i = i + 1;
        assert(tail@.take(i as int) =~= tail@.take(i - 1).push(tail@[i - 1]));
    }
    assert(tail@.take(tail.len() as int) =~= tail@);
    Some((http_id, protocol, url_root, string_of(&url)))
}

/// A request path built as `/<id>@<protocol>/<root>/<rest>` parses back into its pieces,
/// when the id and protocol hold no `/` or `@` and the root holds no `/`.
pub proof fn law_url_path_round_trip(id: Seq<char>, protocol: Seq<char>, root: Seq<char>, rest: Seq<char>)
    requires
        lacks(id, '/'),
        lacks(id, '@'),
        lacks(protocol, '/'),
        lacks(protocol, '@'),
        lacks(root, '/'),
    ensures
        url_path_parts(seq!['/'] + id + seq!['@'] + protocol + seq!['/'] + root + seq!['/'] + rest)
            == Some((id, protocol, root, seq!['/'] + rest)),
{
    let host = id + seq!['@'] + protocol;
    let path = seq!['/'] + id + seq!['@'] + protocol + seq!['/'] + root + seq!['/'] + rest;
    let empty = Seq::<char>::empty();
    assert forall|i: int| 0 <= i < host.len() implies host[i] != '/' by {
        if i < id.len() {
            assert(host[i] == id[i]);
        } else if i > id.len() {
            assert(host[i] == protocol[i - id.len() - 1]);
        }
    }
    lemma_split_at_sep(root, rest, '/');
    lemma_split_without_sep(root, '/');
    lemma_split_at_sep(host, root + seq!['/'] + rest, '/');
    lemma_split_without_sep(host, '/');
    lemma_split_at_sep(empty, host + seq!['/'] + (root + seq!['/'] + rest), '/');
    assert(path =~= empty + seq!['/'] + (host + seq!['/'] + (root + seq!['/'] + rest)));
    assert(root + seq!['/'] + rest =~= root + seq!['/'] + rest);
    assert(split(empty, '/') =~= seq![empty]);
    let pparts = split(path, '/');
    lemma_split_nonempty(rest, '/');
    assert(pparts =~= seq![empty] + (seq![host] + (seq![root] + split(rest, '/'))));
    assert(pparts[1] == host);
    assert(pparts[2] == root);
    assert(pparts.subrange(3, pparts.len() as int) =~= split(rest, '/'));
    lemma_join_split(rest, '/');
    lemma_split_at_sep(id, protocol, '@');
    lemma_split_without_sep(id, '@');
    lemma_split_without_sep(protocol, '@');
    assert(split(host, '@') =~= seq![id] + seq![protocol]);
}

/// Formatting the parts of a parsed path as `/<id>@<protocol>/<root><url>` gives the path
/// back, for a path that starts with `/`, has a part after the root, and whose second part
/// holds exactly one `@`.
pub proof fn law_parsed_path_formats_back(path: Seq<char>)
    requires
        path.len() > 0,
        path[0] == '/',
        split(path, '/').len() >= 4,
        split(split(path, '/')[1], '@').len() == 2,
    ensures
        url_path_parts(path) is Some,
        ({
            let t = url_path_parts(path).unwrap();
            seq!['/'] + t.0 + seq!['@'] + t.1 + seq!['/'] + t.2 + t.3 == path
        }),
{
    let empty = Seq::<char>::empty();
    let rest = path.drop_first();
    assert(path =~= empty + seq!['/'] + rest);
    lemma_split_at_sep(empty, rest, '/');
    assert(split(empty, '/') =~= seq![empty]);
    let p = split(path, '/');
    let r = split(rest, '/');
    assert(p =~= seq![empty] + r);
    lemma_join_split(rest, '/');
    lemma_join_front(r, '/');
    let r1 = r.drop_first();
    assert(r1.len() >= 2);
    lemma_join_front(r1, '/');
    let r2 = r1.drop_first();
    assert(p.subrange(3, p.len() as int) =~= r2);
    assert(p[1] == r[0]);
    assert(p[2] == r1[0]);
    let h = split(p[1], '@');
    lemma_join_split(p[1], '@');
    lemma_join_front(h, '@');
    assert(h.drop_first() =~= seq![h[1]]);
    assert(join(h.drop_first(), '@') == h[1]);
    assert(join(h, '@') == h[0] + seq!['@'] + h[1]);
    let t = url_path_parts(path).unwrap();
    assert(t == (h[0], h[1], p[2], seq!['/'] + join(r2, '/')));
    assert(seq!['/'] + t.0 + seq!['@'] + t.1 + seq!['/'] + t.2 + t.3 =~= seq!['/'] + (r[0] + seq!['/'] + (r1[0]
        + seq!['/'] + join(r2, '/'))));
}

/// Whether a request addresses the module host (`electrico-mod`).
pub fn is_module_request(host: Option<&str>) -> (r: bool)
    ensures
        r == (match host {
            Some(h) => h@ == "electrico-mod"@,
            None => false,
        }),
{
    match host {
        Some(h) => str_is(h, "electrico-mod"),
        None => false,
    }
}

} // verus!

verus! {

pub const CONTENT_TYPE_TEXT: &'static str = "text/plain;charset=utf-8";
pub const CONTENT_TYPE_HTML: &'static str = "text/html;charset=utf-8";
pub const CONTENT_TYPE_CSS: &'static str = "text/css;charset=utf-8";
pub const CONTENT_TYPE_JSON: &'static str = "application/json;charset=utf-8";
pub const CONTENT_TYPE_JS: &'static str = "text/javascript;charset=utf-8";
pub const CONTENT_TYPE_BIN: &'static str = "application/octet-stream";

/// An answer to a request: status code, content type and body.
pub struct Reply {
    pub status: u16,
    pub content_type: String,
    pub body: Vec<u8>,
}

/// The UTF-8 bytes of a text.
pub fn text_bytes(s: &str) -> (r: Vec<u8>)
    ensures
        r@ == vstd::utf8::encode_utf8(s@),
{
    vstd::slice::slice_to_vec(s.as_bytes())
}

/// A reply with the given status, content type and text body.
pub fn reply_text(status: u16, content_type: &str, body: &str) -> (r: Reply)
    ensures
        r.status == status,
        r.content_type@ == content_type@,
        r.body@ == vstd::utf8::encode_utf8(body@),
{
    Reply { status, content_type: content_type.to_owned(), body: text_bytes(body) }
}

/// The plain acknowledgement: `200`, html, `OK`.
pub fn reply_ok() -> (r: Reply)
    ensures
        r.status == 200,
        r.content_type@ == CONTENT_TYPE_HTML@,
        r.body@ == vstd::utf8::encode_utf8("OK"@),
{
    reply_text(200, CONTENT_TYPE_HTML, "OK")
}

/// The plain refusal: `404`, html, `404`.
pub fn reply_404() -> (r: Reply)
    ensures
        r.status == 404,
        r.content_type@ == CONTENT_TYPE_HTML@,
        r.body@ == vstd::utf8::encode_utf8("404"@),
{
    reply_text(404, CONTENT_TYPE_HTML, "404")
}

/// The answer to a file that is not there: a module request is redirected (`301`,
/// `package`), any other is `404`, `not found`.
pub fn reply_not_found(module: bool) -> (r: Reply)
    ensures
        module ==> r.status == 301 && r.body@ == vstd::utf8::encode_utf8("package"@),
        !module ==> r.status == 404 && r.body@ == vstd::utf8::encode_utf8("not found"@),
        r.content_type@ == CONTENT_TYPE_HTML@,
{
    if module {
        reply_text(301, CONTENT_TYPE_HTML, "package")
    } else {
        reply_text(404, CONTENT_TYPE_HTML, "not found")
    }
}

/// A client error: `400`, plain text, the error message.
pub fn reply_client_error(error: &String) -> (r: Reply)
    ensures
        r.status == 400,
        r.content_type@ == CONTENT_TYPE_TEXT@,
        r.body@ == vstd::utf8::encode_utf8(error@),
{
    reply_text(400, CONTENT_TYPE_TEXT, error.as_str())
}

/// The answer of a server to a request it cannot route: `400`, no content type (the
/// empty text), and the status line `400 Bad Request` as the body.
pub fn reply_bad_request() -> (r: Reply)
    ensures
        r.status == 400,
        r.content_type@ == Seq::<char>::empty(),
        r.body@ == vstd::utf8::encode_utf8("400 Bad Request"@),
{
    Reply { status: 400, content_type: String::new(), body: text_bytes("400 Bad Request") }
}

/// The answer of the backend server to a request under another http id: `403`, no content
/// type, and the status line `403 Forbidden` as the body.
pub fn reply_wrong_http_id() -> (r: Reply)
    ensures
        r.status == 403,
        r.content_type@ == Seq::<char>::empty(),
        r.body@ == vstd::utf8::encode_utf8("403 Forbidden"@),
{
    Reply { status: 403, content_type: String::new(), body: text_bytes("403 Forbidden") }
}

/// The answer to a failed operation: the status, plain text, `<context> error: <error>`.
pub fn reply_error(status: u16, context: &str, error: &String) -> (r: Reply)
    ensures
        r.status == status,
        r.content_type@ == CONTENT_TYPE_TEXT@,
        r.body@ == vstd::utf8::encode_utf8(context@ + " error: "@ + error@),
{
    let mut v: Vec<char> = Vec::new();
    crate::text::push_str(&mut v, context);
    crate::text::push_str(&mut v, " error: ");
    crate::text::push_str(&mut v, error.as_str());
    let t = string_of(&v);
    reply_text(status, CONTENT_TYPE_TEXT, t.as_str())
}

/// The data a command needs: the data that came with the request, or the `500` answer
/// (plain text) `<context> error, no data`.
pub fn required_data(data: Option<Vec<u8>>, context: &str) -> (r: Result<Vec<u8>, Reply>)
    ensures
        match data {
            Some(d) => r == Ok::<Vec<u8>, Reply>(d),
            None => match r {
                Err(rep) => rep.status == 500 && rep.content_type@ == CONTENT_TYPE_TEXT@
                    && rep.body@ == vstd::utf8::encode_utf8(context@ + " error, no data"@),
                Ok(_) => false,
            },
        },
{
    match data {
        Some(d) => Ok(d),
        None => {
            let mut v: Vec<char> = Vec::new();
            crate::text::push_str(&mut v, context);
            crate::text::push_str(&mut v, " error, no data");
            let t = string_of(&v);
            Err(reply_text(500, CONTENT_TYPE_TEXT, t.as_str()))
        },
    }
}

/// A reply with the given status, content type and body.
pub fn reply_status(status: u16, content_type: String, body: Vec<u8>) -> (r: Reply)
    ensures
        r.status == status,
        r.content_type == content_type,
        r.body == body,
{
    Reply { status, content_type, body }
}

/// The value of an ASCII hexadecimal digit (either case), if `b` is one.
pub open spec fn hex_value(b: u8) -> Option<u8> {
    if 0x30 <= b <= 0x39 {
        Some((b - 0x30) as u8)
    } else if 0x41 <= b <= 0x46 {
        Some((b - 0x41 + 10) as u8)
    } else if 0x61 <= b <= 0x66 {
        Some((b - 0x61 + 10) as u8)
    } else {
        None
    }
}

/// Percent-decoding of bytes: `%` followed by two hexadecimal digits is the byte they
/// give; every other byte, `+` and a `%` not followed by two digits among them, stays.
pub open spec fn percent_decoded(b: Seq<u8>) -> Seq<u8>
    decreases b.len(),
{
    if b.len() == 0 {
        Seq::empty()
    } else if b[0] == 0x25 && b.len() >= 3 && hex_value(b[1]) is Some && hex_value(b[2]) is Some {
        seq![(hex_value(b[1]).unwrap() * 16 + hex_value(b[2]).unwrap()) as u8] + percent_decoded(b.subrange(3, b.len() as int))
    } else {
        seq![b[0]] + percent_decoded(b.drop_first())
    }
}

/// What `urlencoding::decode` makes of a query: its UTF-8 bytes percent-decoded, read
/// back as UTF-8; `None` when the decoded bytes are not UTF-8.
pub open spec fn url_decoded(q: Seq<char>) -> Option<Seq<char>> {
    let d = percent_decoded(vstd::utf8::encode_utf8(q));
    if vstd::utf8::valid_utf8(d) {
        Some(vstd::utf8::decode_utf8(d))
    } else {
        None
    }
}

/// `urlencoding::decode`. Trusted: its result (taken as `None` on its error) is
/// `url_decoded` of the query, the percent-decoding its source performs followed by the
/// UTF-8 check of `String::from_utf8`.
#[verifier::external_body]
fn url_decode(q: &str) -> (r: Option<String>)
    ensures
        match r {
            Some(s) => url_decoded(q@) == Some(s@),
            None => url_decoded(q@) is None,
        },
{
    match urlencoding::decode(q) {
        Ok(s) => Some(s.into_owned()),
        Err(_) => None,
    }
}

/// `String::from_utf8`. Trusted: it succeeds exactly on valid UTF-8, and then holds the
/// characters those bytes encode (vstd's `valid_utf8` and `decode_utf8`).
#[verifier::external_body]
pub(crate) fn utf8_string(bytes: Vec<u8>) -> (r: Option<String>)
    ensures
        match r {
            Some(s) => vstd::utf8::valid_utf8(bytes@) && s@ == vstd::utf8::decode_utf8(bytes@),
            None => !vstd::utf8::valid_utf8(bytes@),
        },
{
    match String::from_utf8(bytes) {
        Ok(s) => Some(s),
        Err(_) => None,
    }
}

/// The message carried by a request whose query decoded to `decoded`: the decoded query
/// as the message and the body as its data, or nothing when decoding failed.
pub fn message_data_from_query(decoded: Option<String>, request: Vec<u8>) -> (r: Option<(String, Option<Vec<u8>>)>)
    ensures
        match decoded {
            Some(d) => r == Some((d, Some(request))),
            None => r is None,
        },
{
    match decoded {
        Some(d) => Some((d, Some(request))),
        None => None,
    }
}

/// The message carried by a request: with a query, the url-decoded query is the message
/// and the body its data; without, the body (which must be UTF-8) is the message.
pub fn get_message_data_http(query: Option<&str>, request: Vec<u8>) -> (r: Option<(String, Option<Vec<u8>>)>)
    ensures
        match query {
            Some(q) => match r {
                Some(m) => url_decoded(q@) == Some(m.0@) && m.1 == Some(request),
                None => url_decoded(q@) is None,
            },
            None => match r {
                Some(m) => vstd::utf8::valid_utf8(request@) && m.0@ == vstd::utf8::decode_utf8(request@) && m.1 is None,
                None => !vstd::utf8::valid_utf8(request@),
            },
        },
{
    match query {
        Some(q) => {
            let decoded = url_decode(q);
            message_data_from_query(decoded, request)
        },
        None => {
            match utf8_string(request) {
                Some(msg) => Some((msg, None)),
                None => None,
            }
        },
    }
}

/// The mime type `mime_guess` gives a path: its first guess from the extension, or
/// `application/octet-stream`.
pub uninterp spec fn mime_type_for(path: Seq<char>) -> Seq<char>;

/// `mime_guess::from_path(path).first_or_octet_stream().to_string()`. Trusted: the result is
/// the named `mime_type_for` of the path; the extension table is not written out here.
#[verifier::external_body]
pub(crate) fn mime_type(path: &str) -> (r: String)
    ensures
        r@ == mime_type_for(path@),
{
    mime_guess::from_path(path).first_or_octet_stream().to_string()
}

} // verus!

verus! {

/// Bundled files by path.
pub type ResourceMap = vstd::hash_map::StringHashMap<Vec<u8>>;

/// A directory of bundled files: its files (path and contents) and its subdirectories.
pub struct DirTree {
    pub files: Vec<(String, Vec<u8>)>,
    pub dirs: Vec<DirTree>,
}

/// The map from path to contents that a list of files gives, later files winning.
pub open spec fn files_map(files: Seq<(String, Vec<u8>)>) -> Map<Seq<char>, Seq<u8>>
    decreases files.len(),
{
    if files.len() == 0 {
        Map::empty()
    } else {
        files_map(files.drop_last()).insert(files.last().0@, files.last().1@)
    }
}

/// The files of a directory, then those of its first `n` subdirectories, each layer
/// overriding what came before.
pub open spec fn dirs_map(d: DirTree, n: int) -> Map<Seq<char>, Seq<u8>>
    decreases d, n,
{
    if n <= 0 || n > d.dirs@.len() {
        files_map(d.files@)
    } else {
        dirs_map(d, n - 1).union_prefer_right(tree_map(d.dirs@[n - 1]))
    }
}

/// All files of a directory tree, by path.
pub open spec fn tree_map(d: DirTree) -> Map<Seq<char>, Seq<u8>>
    decreases d, d.dirs@.len() + 1,
{
    dirs_map(d, d.dirs@.len() as int)
}

/// The views of the values of a map.
pub open spec fn map_views(m: Map<Seq<char>, Vec<u8>>) -> Map<Seq<char>, Seq<u8>> {
    m.map_values(|v: Vec<u8>| v@)
}

/// Copies bytes.
fn copy_bytes(v: &Vec<u8>) -> (r: Vec<u8>)
    ensures
        r@ == v@,
{
    let mut r: Vec<u8> = Vec::new();
    let mut i: usize = 0;
    while i < v.len()
        invariant
            i <= v.len(),
            r@ == v@.take(i as int),
        decreases v.len() - i,
    {
        r.push(v[i]);
        i = i + 1;
        assert(v@.take(i as int) =~= v@.take(i - 1).push(v@[i - 1]));
    }
    assert(v@.take(v.len() as int) =~= v@);
    r
}

/// The map from path to contents of every file in a directory tree; a file in a
/// subdirectory overrides one with the same path met before it.
pub fn build_file_map(dir: &DirTree) -> (r: ResourceMap)
    ensures
        map_views(r@) == tree_map(*dir),
    decreases dir,
{
    let mut res: ResourceMap = vstd::hash_map::StringHashMap::new();
    let mut i: usize = 0;
    assert(map_views(res@) =~= files_map(dir.files@.take(0)));
    while i < dir.files.len()
        invariant
            i <= dir.files@.len(),
            map_views(res@) == files_map(dir.files@.take(i as int)),
        decreases dir.files.len() - i,
    {
        let path = dir.files[i].0.clone();
        let content = copy_bytes(&dir.files[i].1);
        let ghost before = res@;
        res.insert(path, content);
        assert(dir.files@.take(i + 1).drop_last() =~= dir.files@.take(i as int));
        assert(map_views(res@) =~= map_views(before).insert(dir.files@[i as int].0@, dir.files@[i as int].1@));
        i = i + 1;
    }
    assert(dir.files@.take(dir.files.len() as int) =~= dir.files@);
    let mut j: usize = 0;
    while j < dir.dirs.len()
        invariant
            j <= dir.dirs@.len(),
            map_views(res@) == dirs_map(*dir, j as int),
        decreases dir.dirs.len() - j,
    {
        assert(decreases_to!(*dir => dir.dirs@[j as int]));
        let sub = build_file_map(&dir.dirs[j]);
        let ghost before = res@;
        res.union_prefer_right(sub);
        assert(map_views(res@) =~= map_views(before).union_prefer_right(map_views(sub@)));
        j = j + 1;
    }
    res
}

/// Whether a file is bundled under `path`.
pub fn bundled(resources: &ResourceMap, path: &String) -> (r: bool)
    ensures
        r == resources@.contains_key(path@),
{
    resources.contains_key(path.as_str())
}

/// The answer to a file request: a bundled resource under `path` first, then the file
/// read from disk (`disk`, `None` when it is not there or could not be read), else the
/// not-found answer. The content type comes from the path that was served.
pub fn file_request_reply(
    module: bool,
    path: &String,
    resources: &ResourceMap,
    disk: Option<Vec<u8>>,
    full_path: &String,
) -> (r: Reply)
    ensures
        resources@.contains_key(path@) ==> r.status == 200 && r.content_type@ == mime_type_for(path@)
            && r.body@ == resources@[path@]@,
        !resources@.contains_key(path@) ==> match disk {
            Some(b) => r.status == 200 && r.content_type@ == mime_type_for(full_path@) && r.body == b,
            None => r.status == (if module { 301u16 } else { 404u16 }) && r.content_type@ == CONTENT_TYPE_HTML@
                && r.body@ == vstd::utf8::encode_utf8(if module { "package"@ } else { "not found"@ }),
        },
{
    match resources.get(path.as_str()) {
        Some(res) => Reply { status: 200, content_type: mime_type(path.as_str()), body: copy_bytes(res) },
        None => match disk {
            Some(b) => Reply { status: 200, content_type: mime_type(full_path.as_str()), body: b },
            None => reply_not_found(module),
        },
    }
}

/// A bundled script: its file name and, when it is UTF-8, its text.
pub struct ScriptFile {
    pub name: String,
    pub contents: Option<String>,
}

/// `script` followed by the text of every file whose name ends with `filter` (a file that
/// is not UTF-8 adds nothing); with no filter nothing is added.
pub open spec fn scripts_appended(script: Seq<char>, files: Seq<ScriptFile>, filter: Option<Seq<char>>) -> Seq<char>
    decreases files.len(),
{
    if files.len() == 0 {
        script
    } else {
        let acc = scripts_appended(script, files.drop_last(), filter);
        let f = files.last();
        match filter {
            Some(flt) => if crate::text::is_suffix(flt, f.name@) {
                acc + match f.contents {
                    Some(c) => c@,
                    None => Seq::<char>::empty(),
                }
            } else {
                acc
            },
            None => acc,
        }
    }
}

/// Appends the bundled scripts whose names end with `filter` to `script`.
pub fn append_js_scripts(script: String, files: &Vec<ScriptFile>, filter: Option<&str>) -> (r: String)
    ensures
        r@ == scripts_appended(script@, files@, match filter {
            Some(f) => Some(f@),
            None => None,
        }),
{
    let ghost flt = match filter {
        Some(f) => Some(f@),
        None => None::<Seq<char>>,
    };
    let mut res = chars_of(script.as_str());
    let mut i: usize = 0;
    assert(files@.take(0) =~= Seq::<ScriptFile>::empty());
    while i < files.len()
        invariant
            i <= files@.len(),
            flt == match filter {
                Some(f) => Some(f@),
                None => None::<Seq<char>>,
            },
            res@ == scripts_appended(script@, files@.take(i as int), flt),
        decreases files.len() - i,
    {
        assert(files@.take(i + 1).drop_last() =~= files@.take(i as int));
        assert(files@.take(i + 1).last() == files@[i as int]);
        match filter {
            Some(f) => {
                let name = chars_of(files[i].name.as_str());
                let fc = chars_of(f);
                if crate::text::ends_with(&name, &fc) {
                    match &files[i].contents {
                        Some(c) => {
                            crate::text::push_str(&mut res, c.as_str());
                        },
                        None => {
                            assert(res@ + Seq::<char>::empty() =~= res@);
                        },
                    }
                }
            },
            None => {},
        }
        i = i + 1;
    }
    assert(files@.take(files.len() as int) =~= files@);
    string_of(&res)
}

} // verus!

verus! {

/// Whether `path` leads from `d` down through its subdirectories: each step is the
/// position of a subdirectory of the directory reached so far.
pub open spec fn leads_down(d: DirTree, path: Seq<int>) -> bool
    decreases path.len(),
{
    path.len() == 0 || (0 <= path[0] < d.dirs@.len() && leads_down(d.dirs@[path[0]], path.drop_first()))
}

/// The directory that `path` leads to from `d`.
pub open spec fn descend(d: DirTree, path: Seq<int>) -> DirTree
    decreases path.len(),
{
    if path.len() == 0 || !(0 <= path[0] < d.dirs@.len()) {
        d
    } else {
        descend(d.dirs@[path[0]], path.drop_first())
    }
}

proof fn lemma_files_map_has(files: Seq<(String, Vec<u8>)>, i: int)
    requires
        0 <= i < files.len(),
    ensures
        files_map(files).contains_key(files[i].0@),
    decreases files.len(),
{
    if i < files.len() - 1 {
        lemma_files_map_has(files.drop_last(), i);
    }
}

proof fn lemma_dirs_map_grows(d: DirTree, m: int, n: int)
    requires
        0 <= m <= n <= d.dirs@.len(),
    ensures
        dirs_map(d, m).dom().subset_of(dirs_map(d, n).dom()),
    decreases n,
{
    if m < n {
        lemma_dirs_map_grows(d, m, n - 1);
    }
}

proof fn lemma_tree_map_has_sub(d: DirTree, j: int)
    requires
        0 <= j < d.dirs@.len(),
    ensures
        tree_map(d.dirs@[j]).dom().subset_of(tree_map(d).dom()),
{
    lemma_dirs_map_grows(d, j + 1, d.dirs@.len() as int);
    assert(dirs_map(d, j + 1) == dirs_map(d, j).union_prefer_right(tree_map(d.dirs@[j])));
}

/// Every file of the bundle is in the map `build_file_map` gives, whatever its depth: for
/// the directory any path of subdirectories leads to, each of its file paths is a key.
pub proof fn law_every_bundled_file_is_mapped(d: DirTree, path: Seq<int>, i: int)
    requires
        leads_down(d, path),
        0 <= i < descend(d, path).files@.len(),
    ensures
        tree_map(d).contains_key(descend(d, path).files@[i].0@),
    decreases path.len(),
{
    if path.len() == 0 {
        lemma_files_map_has(d.files@, i);
        lemma_dirs_map_grows(d, 0, d.dirs@.len() as int);
    } else {
        let j = path[0];
        law_every_bundled_file_is_mapped(d.dirs@[j], path.drop_first(), i);
        lemma_tree_map_has_sub(d, j);
    }
}

/// A bundled script whose file name does not end with the filter adds nothing; one whose
/// name ends with it adds its text (nothing when it is not UTF-8), after what came before.
pub proof fn law_scripts_appended_by_suffix(script: Seq<char>, files: Seq<ScriptFile>, f: ScriptFile, filter: Seq<char>)
    ensures
        !(filter.len() <= f.name@.len() && f.name@.subrange(f.name@.len() - filter.len(), f.name@.len() as int) == filter)
            ==> scripts_appended(script, files.push(f), Some(filter)) == scripts_appended(script, files, Some(filter)),
        (filter.len() <= f.name@.len() && f.name@.subrange(f.name@.len() - filter.len(), f.name@.len() as int) == filter)
            ==> scripts_appended(script, files.push(f), Some(filter)) == scripts_appended(script, files, Some(filter))
            + match f.contents {
            Some(c) => c@,
            None => Seq::<char>::empty(),
        },
        scripts_appended(script, files.push(f), None) == script,
{
    assert(files.push(f).drop_last() =~= files);
    lemma_scripts_without_filter(script, files.push(f));
}

proof fn lemma_scripts_without_filter(script: Seq<char>, files: Seq<ScriptFile>)
    ensures
        scripts_appended(script, files, None) == script,
    decreases files.len(),
{
    if files.len() > 0 {
        lemma_scripts_without_filter(script, files.drop_last());
    }
}

} // verus!
