//! Howdy's `config.ini`, read and edited as flat `key = value` lines. Keys are
//! unique across the file, so sections are ignored; comments, sections and
//! indentation survive an edit.
use vstd::prelude::*;

use crate::text::{
    chars_of, find_char, lemma_find_sub, line_at, lines, lines_from, lowercase, parse_u32,
    parse_u32_chars, push_char, push_range, range_eq, skip_ws, split_once, string_of_range, to_lowercase,
    trim, trim_bounds, trim_start, all_ws, find_from, has_char, is_ws, lemma_find_from_bounds,
    lemma_find_prefix, lemma_find_skip, lemma_has_char_add, lemma_has_char_sub, lemma_lines_cons,
    lemma_lines_no_nl, lemma_trim_end_split, lemma_trim_idem, lemma_trim_push_ws,
    lemma_trim_start_append, lemma_trim_start_split, lemma_trim_start_ws_prefix, lemma_trim_sub,
    strip_cr, trim_end,
};

verus! {

/// A line whose first non-blank character is `#` or `;`.
pub open spec fn is_comment(l: Seq<char>) -> bool {
    let t = trim_start(l);
    t.len() > 0 && (t[0] == '#' || t[0] == ';')
}

/// The value one line assigns to `key`: the line is no comment, and the text
/// before its first `=` trims to `key`; the value is the rest, trimmed.
pub open spec fn line_value(l: Seq<char>, key: Seq<char>) -> Option<Seq<char>> {
    if is_comment(l) {
        None
    } else {
        match split_once(trim_start(l), '=') {
            Some((k, v)) => if trim(k) == key {
                Some(trim(v))
            } else {
                None
            },
            None => None,
        }
    }
}

/// The value the first line that assigns `key` gives it.
pub open spec fn lookup(ls: Seq<Seq<char>>, key: Seq<char>) -> Option<Seq<char>>
    decreases ls.len(),
{
    if ls.len() == 0 {
        None
    } else {
        match line_value(ls[0], key) {
            Some(v) => Some(v),
            None => lookup(ls.drop_first(), key),
        }
    }
}

/// The value of `key` in a config text.
pub open spec fn config_get(text: Seq<char>, key: Seq<char>) -> Option<Seq<char>> {
    lookup(lines(text), key)
}

/// The line assigns `key` (the test `set` makes, on the line as it stands).
pub open spec fn sets_key(l: Seq<char>, key: Seq<char>) -> bool {
    &&& !is_comment(l)
    &&& match split_once(l, '=') {
        Some((k, v)) => trim(k) == key,
        None => false,
    }
}

/// Some line assigns `key`.
pub open spec fn any_sets(ls: Seq<Seq<char>>, key: Seq<char>) -> bool
    decreases ls.len(),
{
    ls.len() > 0 && (sets_key(ls[0], key) || any_sets(ls.drop_first(), key))
}

/// The leading whitespace of a line.
pub open spec fn indent(l: Seq<char>) -> Seq<char> {
    l.take(l.len() - trim_start(l).len())
}

/// The line `set` writes in place of `l`: its indentation, then `key = value`.
pub open spec fn assignment(l: Seq<char>, key: Seq<char>, value: Seq<char>) -> Seq<char> {
    indent(l) + key + seq![' ', '=', ' '] + value
}

/// The text `set` produces: every line followed by `\n`, the first line that
/// assigns `key` (unless `done`) rewritten as an assignment of `value`.
pub open spec fn rewrite(ls: Seq<Seq<char>>, key: Seq<char>, value: Seq<char>, done: bool) -> Seq<
    char,
>
    decreases ls.len(),
{
    if ls.len() == 0 {
        seq![]
    } else if !done && sets_key(ls[0], key) {
        assignment(ls[0], key, value).push('\n') + rewrite(ls.drop_first(), key, value, true)
    } else {
        ls[0].push('\n') + rewrite(ls.drop_first(), key, value, done)
    }
}

/// The view of an optional string.
pub open spec fn opt_view(o: Option<String>) -> Option<Seq<char>> {
    match o {
        Some(s) => Some(s@),
        None => None,
    }
}

/// `parse_u32` through an optional string.
pub open spec fn opt_parse_u32(o: Option<Seq<char>>) -> Option<u32> {
    match o {
        Some(v) => parse_u32(v),
        None => None,
    }
}

/// What `get_bool` makes of a lowercased value.
pub open spec fn bool_word(w: Seq<char>) -> Option<bool> {
    if w == seq!['t', 'r', 'u', 'e'] {
        Some(true)
    } else if w == seq!['f', 'a', 'l', 's', 'e'] {
        Some(false)
    } else {
        None
    }
}

/// The abstract config: where it lives and what it says.
pub ghost struct ConfigView {
    pub path: Seq<char>,
    pub text: Seq<char>,
}

/// An in-memory copy of `config.ini`; edits stay in memory until it is saved.
#[derive(Debug, Clone)]
pub struct Config {
    path: String,
    text: String,
}

impl View for Config {
    type V = ConfigView;

    closed spec fn view(&self) -> ConfigView {
        ConfigView { path: self.path@, text: self.text@ }
    }
}

/// The line `l = v[p..ce]` seen through the index helpers: where its trimmed
/// start is, and whether it is a comment.
fn comment_at(v: &Vec<char>, p: usize, ce: usize) -> (r: (usize, bool))
    requires
        p <= ce <= v.len(),
    ensures
        p <= r.0 <= ce,
        trim_start(v@.subrange(p as int, ce as int)) == v@.subrange(r.0 as int, ce as int),
        r.1 == is_comment(v@.subrange(p as int, ce as int)),
{
    let t0 = skip_ws(v, p, ce);
    let c = t0 < ce && (v[t0] == '#' || v[t0] == ';');
    (t0, c)
}

/// `line_value(v[p..ce], key)` as bounds of the value within `v`.
fn value_at(v: &Vec<char>, p: usize, ce: usize, key: &Vec<char>) -> (r: Option<(usize, usize)>)
    requires
        p <= ce <= v.len(),
    ensures
        match r {
            Some((a, b)) => a <= b <= v.len() && line_value(v@.subrange(p as int, ce as int), key@)
                == Some(v@.subrange(a as int, b as int)),
            None => line_value(v@.subrange(p as int, ce as int), key@) is None,
        },
{
    let (t0, comment) = comment_at(v, p, ce);
    if comment {
        return None;
    }
    let ghost t = v@.subrange(t0 as int, ce as int);
    let e = find_char(v, '=', t0);
    proof {
        lemma_find_sub(v@, '=', t0 as int, ce as int, t0 as int);
    }
    if e >= ce {
        return None;
    }
    assert(t.take(e - t0) =~= v@.subrange(t0 as int, e as int));
    assert(t.skip(e - t0 + 1) =~= v@.subrange(e + 1, ce as int));
    let (ka, kb) = trim_bounds(v, t0, e);
    if !range_eq(v, ka, kb, key) {
        return None;
    }
    let (va, vb) = trim_bounds(v, e + 1, ce);
    Some((va, vb))
}

/// `sets_key(v[p..ce], key)`, with the start of the line's trimmed text.
fn sets_at(v: &Vec<char>, p: usize, ce: usize, key: &Vec<char>) -> (r: (bool, usize))
    requires
        p <= ce <= v.len(),
    ensures
        r.0 == sets_key(v@.subrange(p as int, ce as int), key@),
        p <= r.1 <= ce,
        trim_start(v@.subrange(p as int, ce as int)) == v@.subrange(r.1 as int, ce as int),
{
    let (t0, comment) = comment_at(v, p, ce);
    if comment {
        return (false, t0);
    }
    let ghost l = v@.subrange(p as int, ce as int);
    let e = find_char(v, '=', p);
    proof {
        lemma_find_sub(v@, '=', p as int, ce as int, p as int);
    }
    if e >= ce {
        return (false, t0);
    }
    assert(l.take(e - p) =~= v@.subrange(p as int, e as int));
    let (ka, kb) = trim_bounds(v, p, e);
    (range_eq(v, ka, kb, key), t0)
}

impl Config {
    /// A config read from `path` with contents `text`.
    pub fn new(path: String, text: String) -> (c: Config)
        ensures
            c@.path == path@,
            c@.text == text@,
    {
        Config { path, text }
    }

    /// Path of the underlying file.
    pub fn path(&self) -> (p: &str)
        ensures
            p@ == self@.path,
    {
        self.path.as_str()
    }

    /// Raw text (e.g. for display).
    pub fn text(&self) -> (t: &str)
        ensures
            t@ == self@.text,
    {
        self.text.as_str()
    }

    /// Look up the first non-comment `key = value`, trimmed.
    pub fn get(&self, key: &str) -> (r: Option<String>)
        ensures
            opt_view(r) == config_get(self@.text, key@),
    {
        let v = chars_of(self.text.as_str());
        let k = chars_of(key);
        let mut p: usize = 0;
        while p < v.len()
            invariant
                v@ == self@.text,
                k@ == key@,
                p <= v.len(),
                config_get(self@.text, key@) == lookup(lines_from(v@, p as int), key@),
            decreases v.len() - p,
        {
            let (ce, next) = line_at(&v, p);
            let ghost ls = lines_from(v@, p as int);
            let ghost rest = lines_from(v@, next as int);
            assert(ls[0] == v@.subrange(p as int, ce as int));
            assert(ls.drop_first() =~= rest);
            match value_at(&v, p, ce, &k) {
                Some((a, b)) => {
                    return Some(string_of_range(&v, a, b));
                },
                None => {},
            }
            p = next;
        }
        None
    }

    /// [`Config::get`] parsed as `u32`.
    pub fn get_u32(&self, key: &str) -> (r: Option<u32>)
        ensures
            r == opt_parse_u32(config_get(self@.text, key@)),
    {
        match self.get(key) {
            Some(s) => {
                let v = chars_of(s.as_str());
                parse_u32_chars(&v)
            },
            None => None,
        }
    }

    /// [`Config::get`] parsed as a boolean (`true`/`false`, case-insensitive).
    pub fn get_bool(&self, key: &str) -> (r: Option<bool>)
        ensures
            r == match config_get(self@.text, key@) {
                Some(v) => bool_word(lowercase(v)),
                None => None,
            },
    {
        match self.get(key) {
            Some(s) => {
                let lower = to_lowercase(s.as_str());
                parse_bool_word(lower.as_str())
            },
            None => None,
        }
    }

    /// Set `key` in memory, replacing the first non-comment occurrence and
    /// preserving its indentation. Returns `false` if the key was not present.
    pub fn set(&mut self, key: &str, value: &str) -> (replaced: bool)
        ensures
            final(self)@.path == old(self)@.path,
            final(self)@.text == rewrite(lines(old(self)@.text), key@, value@, false),
            replaced == any_sets(lines(old(self)@.text), key@),
    {
        let v = chars_of(self.text.as_str());
        let k = chars_of(key);
        let val = chars_of(value);
        let ghost all = lines(v@);
        let mut out = String::new();
        let mut replaced = false;
        let mut p: usize = 0;
        while p < v.len()
            invariant
                v@ == old(self)@.text,
                k@ == key@,
                val@ == value@,
                all == lines(v@),
                p <= v.len(),
                out@ + rewrite(lines_from(v@, p as int), k@, val@, replaced) == rewrite(
                    all,
                    k@,
                    val@,
                    false,
                ),
                any_sets(all, k@) == (replaced || any_sets(lines_from(v@, p as int), k@)),
            decreases v.len() - p,
        {
            let (ce, next) = line_at(&v, p);
            let ghost ls = lines_from(v@, p as int);
            let ghost rest = lines_from(v@, next as int);
            let ghost l = v@.subrange(p as int, ce as int);
            assert(ls[0] == l);
            assert(ls.drop_first() =~= rest);
            let ghost before = out@;
            let (hit, t0) = sets_at(&v, p, ce, &k);
            if !replaced && hit {
                push_range(&mut out, &v, p, t0);
                push_range(&mut out, &k, 0, k.len());
                push_char(&mut out, ' ');
                push_char(&mut out, '=');
                push_char(&mut out, ' ');
                push_range(&mut out, &val, 0, val.len());
                push_char(&mut out, '\n');
                assert(indent(l) =~= v@.subrange(p as int, t0 as int));
                assert(k@.subrange(0, k@.len() as int) =~= k@);
                assert(val@.subrange(0, val@.len() as int) =~= val@);
                assert(out@ =~= before + assignment(l, k@, val@).push('\n'));
                replaced = true;
            } else {
                push_range(&mut out, &v, p, ce);
                push_char(&mut out, '\n');
                assert(out@ =~= before + l.push('\n'));
            }
            p = next;
        }
        assert(lines_from(v@, p as int) =~= Seq::<Seq<char>>::empty());
        assert(out@ + Seq::<char>::empty() =~= out@);
        self.text = out;
        replaced
    }
}

/// `bool_word` of a string.
pub fn parse_bool_word(w: &str) -> (r: Option<bool>)
    ensures
        r == bool_word(w@),
{
    let v = chars_of(w);
    let t = vec!['t', 'r', 'u', 'e'];
    let f = vec!['f', 'a', 'l', 's', 'e'];
    assert(t@ =~= seq!['t', 'r', 'u', 'e']);
    assert(f@ =~= seq!['f', 'a', 'l', 's', 'e']);
    assert(v@.subrange(0, v.len() as int) =~= v@);
    if range_eq(&v, 0, v.len(), &t) {
        Some(true)
    } else if range_eq(&v, 0, v.len(), &f) {
        Some(false)
    } else {
        None
    }
}

} // verus!

verus! {

/// Splitting a line at its first `=` gives the same key (once trimmed) and the same
/// value whether or not its indentation was dropped first.
proof fn lemma_split_indented(l: Seq<char>)
    ensures
        match (split_once(l, '='), split_once(trim_start(l), '=')) {
            (Some((k1, v1)), Some((k2, v2))) => trim(k1) == trim(k2) && v1 == v2,
            (None, None) => true,
            _ => false,
        },
{
    lemma_trim_start_split(l);
    let t = trim_start(l);
    let n = l.len() - t.len();
    let w = l.take(n);
    assert(l =~= w + t);
    assert forall|k: int| 0 <= k < w.len() implies w[k] != '=' by {
        assert(is_ws(w[k]));
    }
    lemma_find_skip(w, t, '=', 0);
    lemma_find_from_bounds(t, '=', 0);
    let e = find_from(t, '=', 0);
    if e < t.len() {
        assert(l.take(n + e) =~= w + t.take(e));
        lemma_trim_start_ws_prefix(w, t.take(e));
        assert(l.skip(n + e + 1) =~= t.skip(e + 1));
    }
}

/// `set` finds a line exactly when `get` reads a value from it.
proof fn lemma_sets_iff_value(l: Seq<char>, key: Seq<char>)
    ensures
        sets_key(l, key) == (line_value(l, key) is Some),
{
    lemma_split_indented(l);
}

proof fn lemma_any_sets_lookup(ls: Seq<Seq<char>>, key: Seq<char>)
    ensures
        any_sets(ls, key) == (lookup(ls, key) is Some),
    decreases ls.len(),
{
    if ls.len() > 0 {
        lemma_sets_iff_value(ls[0], key);
        lemma_any_sets_lookup(ls.drop_first(), key);
    }
}

/// A `\r` that `lines` leaves at the end of a line does not change what it assigns.
proof fn lemma_strip_cr_value(l: Seq<char>, key: Seq<char>)
    ensures
        line_value(strip_cr(l), key) == line_value(l, key),
{
    if l.len() > 0 && l.last() == '\r' {
        let m = l.drop_last();
        assert(l =~= m.push('\r'));
        lemma_trim_start_split(m);
        if trim_start(m).len() == 0 {
            assert(m.take(m.len() as int) =~= m);
            assert(all_ws(l));
            lemma_trim_start_ws_prefix(l, seq![]);
            assert(l + Seq::<char>::empty() =~= l);
            assert(trim_start(Seq::<char>::empty()) =~= Seq::<char>::empty());
        } else {
            let t = trim_start(m);
            lemma_trim_start_append(m, seq!['\r']);
            assert(m + seq!['\r'] =~= l);
            let tl = t + seq!['\r'];
            assert(trim_start(l) == tl);
            assert(tl[0] == t[0]);
            lemma_find_from_bounds(t, '=', 0);
            let e = find_from(t, '=', 0);
            if e < t.len() {
                lemma_find_prefix(t, seq!['\r'], '=', 0);
                assert(tl.take(e) =~= t.take(e));
                assert(tl.skip(e + 1) =~= t.skip(e + 1).push('\r'));
                lemma_trim_push_ws(t.skip(e + 1), '\r');
            } else {
                lemma_find_skip(t, seq!['\r'], '=', 0);
                assert(find_from(seq!['\r'], '=', 1) == 1);
                assert(find_from(seq!['\r'], '=', 0) == 1);
            }
        }
    }
}

/// What a line that `set` matches tells about its key and indentation.
proof fn lemma_key_facts(l: Seq<char>, key: Seq<char>)
    requires
        sets_key(l, key),
    ensures
        !has_char(key, '='),
        trim(key) == key,
        key.len() > 0 ==> !is_ws(key[0]) && key[0] != '#' && key[0] != ';',
        all_ws(indent(l)),
        !has_char(l, '\n') ==> !has_char(key, '\n') && !has_char(indent(l), '\n'),
{
    let e = find_from(l, '=', 0);
    lemma_find_from_bounds(l, '=', 0);
    let kl = l.take(e);
    let vl = l.skip(e + 1);
    assert(l =~= kl + (seq!['='] + vl));
    assert forall|k: int| 0 <= k < kl.len() implies kl[k] != '=' by {}
    assert(!has_char(kl, '='));
    lemma_trim_sub(kl);
    let (ka, kb) = choose|a: int, b: int|
        0 <= a <= b <= kl.len() && trim(kl) == kl.subrange(a, b);
    lemma_has_char_sub(kl, ka, kb, '=');
    lemma_trim_idem(kl);
    lemma_trim_start_split(l);
    if key.len() > 0 {
        lemma_trim_start_split(kl);
        lemma_trim_end_split(trim_start(kl));
        assert(key[0] == trim_start(kl)[0]);
        lemma_trim_start_append(kl, seq!['='] + vl);
        assert(trim_start(l)[0] == key[0]);
    }
    if !has_char(l, '\n') {
        lemma_has_char_sub(l, 0, e, '\n');
        assert(l.subrange(0, e) =~= kl);
        lemma_has_char_sub(kl, ka, kb, '\n');
        let n = l.len() - trim_start(l).len();
        lemma_has_char_sub(l, 0, n, '\n');
        assert(l.subrange(0, n) =~= indent(l));
    }
}

/// What `key = value` assigns, for a key that `set` can match.
proof fn lemma_body_value(key: Seq<char>, value: Seq<char>, k2: Seq<char>)
    requires
        !has_char(key, '='),
        trim(key) == key,
        key.len() > 0 ==> !is_ws(key[0]) && key[0] != '#' && key[0] != ';',
    ensures
        line_value(key + seq![' ', '=', ' '] + value, k2) == if k2 == key {
            Some(trim(value))
        } else {
            None::<Seq<char>>
        },
{
    let body = key + seq![' ', '=', ' '] + value;
    let tv = seq![' '] + value;
    lemma_trim_start_ws_prefix(seq![' '], value);
    assert(all_ws(seq![' ']));
    assert(trim(tv) == trim(value));
    if key.len() > 0 {
        assert(body[0] == key[0]);
        assert(trim_start(body) == body);
        let kp = key.push(' ');
        assert(body =~= kp + (seq!['='] + tv));
        assert forall|k: int| 0 <= k < kp.len() implies kp[k] != '=' by {
            if k < key.len() {
                if key[k] == '=' {
                    assert(has_char(key, '='));
                }
            }
        }
        lemma_find_skip(kp, seq!['='] + tv, '=', 0);
        assert(find_from(seq!['='] + tv, '=', 0) == 0);
        assert(body.take(kp.len() as int) =~= kp);
        assert(body.skip(kp.len() as int + 1) =~= tv);
        assert(kp[0] == key[0]);
        assert(trim_start(kp) == kp);
        assert(kp.drop_last() =~= key);
        assert(trim_end(kp) == trim_end(key));
        assert(trim_start(key) == key);
        assert(trim(kp) == key);
    } else {
        let b2 = seq!['=', ' '] + value;
        assert(body =~= seq![' '] + b2);
        lemma_trim_start_ws_prefix(seq![' '], b2);
        assert(trim_start(b2) == b2);
        assert(find_from(b2, '=', 0) == 0);
        assert(b2.take(0) =~= Seq::<char>::empty());
        assert(b2.skip(1) =~= tv);
        assert(trim(Seq::<char>::empty()) =~= Seq::<char>::empty());
        assert(key =~= Seq::<char>::empty());
    }
}

/// What a rewritten line assigns: `key`, with the trimmed `value`.
proof fn lemma_assignment_value(l: Seq<char>, key: Seq<char>, value: Seq<char>, k2: Seq<char>)
    requires
        sets_key(l, key),
    ensures
        line_value(assignment(l, key, value), k2) == if k2 == key {
            Some(trim(value))
        } else {
            None::<Seq<char>>
        },
        !has_char(l, '\n') && !has_char(value, '\n') ==> !has_char(
            assignment(l, key, value),
            '\n',
        ),
{
    lemma_key_facts(l, key);
    lemma_body_value(key, value, k2);
    let w = indent(l);
    let eqs = seq![' ', '=', ' '];
    let body = key + eqs + value;
    let a = assignment(l, key, value);
    assert(a =~= w + body);
    lemma_trim_start_ws_prefix(w, body);
    if !has_char(l, '\n') && !has_char(value, '\n') {
        assert(!has_char(eqs, '\n'));
        lemma_has_char_add(w, key, '\n');
        lemma_has_char_add(w + key, eqs, '\n');
        lemma_has_char_add(w + key + eqs, value, '\n');
        assert(a =~= w + key + eqs + value);
    }
}

/// What `get` reads from the text `set` writes.
proof fn lemma_lookup_rewrite(
    ls: Seq<Seq<char>>,
    key: Seq<char>,
    value: Seq<char>,
    done: bool,
    k2: Seq<char>,
)
    requires
        forall|i: int| 0 <= i < ls.len() ==> !has_char(#[trigger] ls[i], '\n'),
        !done && any_sets(ls, key) ==> !has_char(value, '\n'),
    ensures
        lookup(lines(rewrite(ls, key, value, done)), k2) == if !done && any_sets(ls, key) && k2
            == key {
            Some(trim(value))
        } else {
            lookup(ls, k2)
        },
    decreases ls.len(),
{
    if ls.len() == 0 {
        assert(lines(Seq::<char>::empty()) =~= Seq::<Seq<char>>::empty());
    } else {
        let l = ls[0];
        let rest = ls.drop_first();
        assert(!has_char(l, '\n'));
        assert forall|i: int| 0 <= i < rest.len() implies !has_char(#[trigger] rest[i], '\n') by {
            assert(rest[i] == ls[i + 1]);
        }
        lemma_sets_iff_value(l, k2);
        lemma_sets_iff_value(l, key);
        if !done && sets_key(l, key) {
            let a = assignment(l, key, value);
            lemma_assignment_value(l, key, value, k2);
            lemma_lines_cons(a, rewrite(rest, key, value, true));
            lemma_strip_cr_value(a, k2);
            let lsn = lines(rewrite(ls, key, value, done));
            assert(lsn[0] == strip_cr(a));
            assert(lsn.drop_first() =~= lines(rewrite(rest, key, value, true)));
            lemma_lookup_rewrite(rest, key, value, true, k2);
        } else {
            lemma_lines_cons(l, rewrite(rest, key, value, done));
            lemma_strip_cr_value(l, k2);
            let lsn = lines(rewrite(ls, key, value, done));
            assert(lsn[0] == strip_cr(l));
            assert(lsn.drop_first() =~= lines(rewrite(rest, key, value, done)));
            lemma_lookup_rewrite(rest, key, value, done, k2);
        }
    }
}

/// Rewriting a line that `set` wrote gives the same line back: it still
/// assigns `key` (also once `lines` has dropped a final `\r`), and its
/// indentation is unchanged.
proof fn lemma_assignment_stable(l: Seq<char>, key: Seq<char>, value: Seq<char>)
    requires
        sets_key(l, key),
        key.len() > 0,
        !has_char(l, '\n'),
        !has_char(value, '\n'),
    ensures
        !has_char(assignment(l, key, value), '\n'),
        sets_key(strip_cr(assignment(l, key, value)), key),
        assignment(strip_cr(assignment(l, key, value)), key, value) == assignment(l, key, value),
{
    let a = assignment(l, key, value);
    lemma_assignment_value(l, key, value, key);
    lemma_strip_cr_value(a, key);
    lemma_sets_iff_value(strip_cr(a), key);
    lemma_key_facts(l, key);
    let w = indent(l);
    let body = key + seq![' ', '=', ' '] + value;
    assert(a =~= w + body);
    let b2 = strip_cr(body);
    let c = strip_cr(a);
    assert(a.last() == body.last());
    assert(c =~= w + b2);
    assert(b2[0] == key[0]);
    assert(trim_start(b2) == b2);
    lemma_trim_start_ws_prefix(w, b2);
    assert(indent(c) =~= w);
}

/// `set` applied to the text it wrote writes it again and finds the key as
/// before, when every line it copies has no final `\r` of its own.
proof fn lemma_rewrite_twice(ls: Seq<Seq<char>>, key: Seq<char>, value: Seq<char>, done: bool)
    requires
        forall|i: int| 0 <= i < ls.len() ==> !has_char(#[trigger] ls[i], '\n'),
        !done && any_sets(ls, key) ==> key.len() > 0 && !has_char(value, '\n'),
        forall|i: int|
            0 <= i < ls.len() ==> strip_cr(#[trigger] ls[i]) == ls[i] || (!done && sets_key(
                ls[i],
                key,
            ) && forall|j: int| 0 <= j < i ==> !sets_key(#[trigger] ls[j], key)),
    ensures
        rewrite(lines(rewrite(ls, key, value, done)), key, value, done) == rewrite(
            ls,
            key,
            value,
            done,
        ),
        any_sets(lines(rewrite(ls, key, value, done)), key) == any_sets(ls, key),
    decreases ls.len(),
{
    if ls.len() == 0 {
        assert(lines(Seq::<char>::empty()) =~= Seq::<Seq<char>>::empty());
    } else {
        let l = ls[0];
        let rest = ls.drop_first();
        assert(!has_char(l, '\n'));
        assert forall|i: int| 0 <= i < rest.len() implies !has_char(#[trigger] rest[i], '\n') by {
            assert(rest[i] == ls[i + 1]);
        }
        if !done && sets_key(l, key) {
            let a = assignment(l, key, value);
            lemma_assignment_stable(l, key, value);
            let r = rewrite(rest, key, value, true);
            lemma_lines_cons(a, r);
            let lsn = lines(rewrite(ls, key, value, done));
            assert(lsn[0] == strip_cr(a));
            assert(lsn.drop_first() =~= lines(r));
            assert forall|i: int| 0 <= i < rest.len() implies strip_cr(#[trigger] rest[i])
                == rest[i] by {
                assert(rest[i] == ls[i + 1]);
                assert(sets_key(ls[0], key));
            }
            lemma_rewrite_twice(rest, key, value, true);
        } else {
            let r = rewrite(rest, key, value, done);
            lemma_lines_cons(l, r);
            assert(strip_cr(ls[0]) == ls[0]);
            let lsn = lines(rewrite(ls, key, value, done));
            assert(lsn[0] == l);
            assert(lsn.drop_first() =~= lines(r));
            assert forall|i: int| 0 <= i < rest.len() implies strip_cr(#[trigger] rest[i])
                == rest[i] || (!done && sets_key(rest[i], key) && forall|j: int|
                0 <= j < i ==> !sets_key(#[trigger] rest[j], key)) by {
                assert(rest[i] == ls[i + 1]);
                if strip_cr(rest[i]) != rest[i] {
                    assert forall|j: int| 0 <= j < i implies !sets_key(#[trigger] rest[j], key) by {
                        assert(rest[j] == ls[j + 1]);
                    }
                }
            }
            lemma_rewrite_twice(rest, key, value, done);
        }
    }
}

/// The lines of the text `set` writes, one for one with the lines it read.
proof fn lemma_rewrite_lines(ls: Seq<Seq<char>>, key: Seq<char>, value: Seq<char>, done: bool)
    requires
        forall|i: int| 0 <= i < ls.len() ==> !has_char(#[trigger] ls[i], '\n'),
        !done && any_sets(ls, key) ==> !has_char(value, '\n'),
    ensures
        lines(rewrite(ls, key, value, done)).len() == ls.len(),
        forall|i: int|
            0 <= i < ls.len() ==> #[trigger] lines(rewrite(ls, key, value, done))[i] == if !done
                && sets_key(ls[i], key) && forall|j: int|
                0 <= j < i ==> !sets_key(#[trigger] ls[j], key) {
                strip_cr(assignment(ls[i], key, value))
            } else {
                strip_cr(ls[i])
            },
    decreases ls.len(),
{
    if ls.len() == 0 {
        assert(lines(Seq::<char>::empty()) =~= Seq::<Seq<char>>::empty());
    } else {
        let l = ls[0];
        let rest = ls.drop_first();
        assert(!has_char(l, '\n'));
        assert forall|i: int| 0 <= i < rest.len() implies !has_char(#[trigger] rest[i], '\n') by {
            assert(rest[i] == ls[i + 1]);
        }
        let hit = !done && sets_key(l, key);
        let first = if hit {
            assignment(l, key, value)
        } else {
            l
        };
        if hit {
            lemma_assignment_value(l, key, value, key);
        }
        let d2 = done || hit;
        let r = rewrite(rest, key, value, d2);
        lemma_lines_cons(first, r);
        lemma_rewrite_lines(rest, key, value, d2);
        let lsn = lines(rewrite(ls, key, value, done));
        assert(lsn =~= seq![strip_cr(first)] + lines(r));
        assert forall|i: int| 0 <= i < ls.len() implies #[trigger] lsn[i] == if !done && sets_key(
            ls[i],
            key,
        ) && forall|j: int| 0 <= j < i ==> !sets_key(#[trigger] ls[j], key) {
            strip_cr(assignment(ls[i], key, value))
        } else {
            strip_cr(ls[i])
        } by {
            if i > 0 {
                assert(ls[i] == rest[i - 1]);
                assert(lsn[i] == lines(r)[i - 1]);
                if hit {
                    assert(sets_key(ls[0], key));
                } else if !done && sets_key(ls[i], key) && forall|j: int|
                    0 <= j < i - 1 ==> !sets_key(#[trigger] rest[j], key) {
                    assert forall|j: int| 0 <= j < i implies !sets_key(#[trigger] ls[j], key) by {
                        if j > 0 {
                            assert(ls[j] == rest[j - 1]);
                        }
                    }
                } else if !done && sets_key(ls[i], key) {
                    let j = choose|j: int| 0 <= j < i - 1 && sets_key(#[trigger] rest[j], key);
                    assert(ls[j + 1] == rest[j]);
                }
            }
        }
    }
}

/// `set` reports the key present exactly when `get` finds a value for it.
pub proof fn law_set_reports_presence(text: Seq<char>, key: Seq<char>)
    ensures
        any_sets(lines(text), key) == (config_get(text, key) is Some),
{
    lemma_any_sets_lookup(lines(text), key);
}

/// After a `set` that found its key, `get` reads back the value written (trimmed),
/// as long as the value is a single line.
pub proof fn law_set_then_get(text: Seq<char>, key: Seq<char>, value: Seq<char>)
    requires
        any_sets(lines(text), key),
        !has_char(value, '\n'),
    ensures
        config_get(rewrite(lines(text), key, value, false), key) == Some(trim(value)),
{
    lemma_lines_no_nl(text, 0);
    lemma_lookup_rewrite(lines(text), key, value, false, key);
}

/// A `set` leaves the value of every other key as it was.
pub proof fn law_set_keeps_other_keys(
    text: Seq<char>,
    key: Seq<char>,
    value: Seq<char>,
    other: Seq<char>,
)
    requires
        other != key,
        !has_char(value, '\n'),
    ensures
        config_get(rewrite(lines(text), key, value, false), other) == config_get(text, other),
{
    lemma_lines_no_nl(text, 0);
    lemma_lookup_rewrite(lines(text), key, value, false, other);
}

/// A `set` of a key that is not there changes no value.
pub proof fn law_set_missing_key_changes_nothing(
    text: Seq<char>,
    key: Seq<char>,
    value: Seq<char>,
    k: Seq<char>,
)
    requires
        !any_sets(lines(text), key),
    ensures
        config_get(rewrite(lines(text), key, value, false), k) == config_get(text, k),
{
    lemma_lines_no_nl(text, 0);
    lemma_lookup_rewrite(lines(text), key, value, false, k);
}

/// Setting a key to a value twice is setting it once: the second `set` leaves
/// the text as the first wrote it and reports the key as the first did. This
/// holds when the value is one line and the key is not empty (if the key is
/// there at all), and no line other than the one rewritten ends in a `\r`
/// that `lines` left on it.
pub proof fn law_set_twice_is_set_once(text: Seq<char>, key: Seq<char>, value: Seq<char>)
    requires
        any_sets(lines(text), key) ==> key.len() > 0 && !has_char(value, '\n'),
        forall|i: int|
            0 <= i < lines(text).len() ==> strip_cr(#[trigger] lines(text)[i]) == lines(text)[i]
                || (sets_key(lines(text)[i], key) && forall|j: int|
                0 <= j < i ==> !sets_key(#[trigger] lines(text)[j], key)),
    ensures
        ({
            let once = rewrite(lines(text), key, value, false);
            &&& rewrite(lines(once), key, value, false) == once
            &&& any_sets(lines(once), key) == any_sets(lines(text), key)
        }),
{
    lemma_lines_no_nl(text, 0);
    lemma_rewrite_twice(lines(text), key, value, false);
}

/// `set` touches only the line it rewrites: the text it writes has as many
/// lines as the one it read, the first line that assigns `key` becomes
/// `key = value` (with its indentation), and every other line comes back as it
/// was — blank lines, comments and sections included (less a final `\r` that
/// `lines` left on it). This holds when the value is a single line, if the key
/// is there at all.
pub proof fn law_set_touches_only_its_line(text: Seq<char>, key: Seq<char>, value: Seq<char>)
    requires
        any_sets(lines(text), key) ==> !has_char(value, '\n'),
    ensures
        ({
            let before = lines(text);
            let after = lines(rewrite(before, key, value, false));
            &&& after.len() == before.len()
            &&& forall|i: int|
                0 <= i < before.len() ==> #[trigger] after[i] == if sets_key(before[i], key)
                    && forall|j: int| 0 <= j < i ==> !sets_key(#[trigger] before[j], key) {
                    strip_cr(assignment(before[i], key, value))
                } else {
                    strip_cr(before[i])
                }
        }),
{
    lemma_lines_no_nl(text, 0);
    lemma_rewrite_lines(lines(text), key, value, false);
}

} // verus!
