//! Character-level models of the `str` operations the library relies on
//! (`lines`, `trim`, `split_once`, ...) with verified executable versions.
use vstd::prelude::*;

verus! {

/// `char::is_whitespace`: the Unicode `White_Space` property.
pub open spec fn is_ws(c: char) -> bool {
    ||| ('\u{9}' <= c && c <= '\u{d}')
    ||| c == ' '
    ||| c == '\u{85}'
    ||| c == '\u{a0}'
    ||| c == '\u{1680}'
    ||| ('\u{2000}' <= c && c <= '\u{200a}')
    ||| c == '\u{2028}'
    ||| c == '\u{2029}'
    ||| c == '\u{202f}'
    ||| c == '\u{205f}'
    ||| c == '\u{3000}'
}

/// `str::trim_start`: drop leading whitespace.
pub open spec fn trim_start(s: Seq<char>) -> Seq<char>
    decreases s.len(),
{
    if s.len() > 0 && is_ws(s[0]) {
        trim_start(s.drop_first())
    } else {
        s
    }
}

/// `str::trim_end`: drop trailing whitespace.
pub open spec fn trim_end(s: Seq<char>) -> Seq<char>
    decreases s.len(),
{
    if s.len() > 0 && is_ws(s.last()) {
        trim_end(s.drop_last())
    } else {
        s
    }
}

/// `str::trim`: drop whitespace at both ends.
pub open spec fn trim(s: Seq<char>) -> Seq<char> {
    trim_end(trim_start(s))
}

/// Index of the first `c` in `s` at or after `i`, or `s.len()` if there is none.
pub open spec fn find_from(s: Seq<char>, c: char, i: int) -> int
    decreases s.len() - i,
{
    if i < 0 || i >= s.len() {
        s.len() as int
    } else if s[i] == c {
        i
    } else {
        find_from(s, c, i + 1)
    }
}

/// Whether `c` occurs in `s`.
pub open spec fn has_char(s: Seq<char>, c: char) -> bool {
    exists|i: int| 0 <= i < s.len() && s[i] == c
}

/// `str::split_once` on a single character: the text before and after the first `c`.
pub open spec fn split_once(s: Seq<char>, c: char) -> Option<(Seq<char>, Seq<char>)> {
    let i = find_from(s, c, 0);
    if i < s.len() {
        Some((s.take(i), s.skip(i + 1)))
    } else {
        None
    }
}

/// Drop one trailing carriage return (what `str::lines` does to a `\r\n` ending).
pub open spec fn strip_cr(l: Seq<char>) -> Seq<char> {
    if l.len() > 0 && l.last() == '\r' {
        l.drop_last()
    } else {
        l
    }
}

/// `str::lines` applied to the part of `s` that starts at `p`: split after each
/// `\n`, drop the `\n` (and a `\r` right before it); a final line without `\n`
/// is kept as it is, and no empty line follows a final `\n`.
pub open spec fn lines_from(s: Seq<char>, p: int) -> Seq<Seq<char>>
    decreases s.len() - p,
{
    if p < 0 || p >= s.len() {
        seq![]
    } else {
        let e = find_from(s, '\n', p);
        if e >= s.len() {
            seq![s.subrange(p, s.len() as int)]
        } else {
            proof {
                lemma_find_from_bounds(s, '\n', p);
            }
            seq![strip_cr(s.subrange(p, e))] + lines_from(s, e + 1)
        }
    }
}

/// `str::lines`.
pub open spec fn lines(s: Seq<char>) -> Seq<Seq<char>> {
    lines_from(s, 0)
}

pub proof fn lemma_find_from_bounds(s: Seq<char>, c: char, i: int)
    requires
        0 <= i,
    ensures
        i <= find_from(s, c, i) <= s.len() || (i > s.len() && find_from(s, c, i) == s.len()),
        find_from(s, c, i) < s.len() ==> s[find_from(s, c, i)] == c,
        forall|k: int| i <= k < find_from(s, c, i) ==> s[k] != c,
    decreases s.len() - i,
{
    if i < s.len() && s[i] != c {
        lemma_find_from_bounds(s, c, i + 1);
    }
}

/// Calls `String::push`, which appends one character; the contract claims the
/// new contents are the old ones followed by `c`.
#[verifier::external_body]
pub(crate) fn push_char(s: &mut String, c: char)
    ensures
        final(s)@ == old(s)@.push(c),
{
    s.push(c);
}

/// The characters of `s`, in order.
pub fn chars_of(s: &str) -> (v: Vec<char>)
    ensures
        v@ == s@,
{
    let mut v: Vec<char> = Vec::new();
    for c in it: s.chars()
        invariant
            v@ == it.seq().take(it.index() as int),
    {
        v.push(c);
    }
    v
}

/// Appends `v[from..to]` to `out`.
pub fn push_range(out: &mut String, v: &Vec<char>, from: usize, to: usize)
    requires
        from <= to <= v.len(),
    ensures
        final(out)@ == old(out)@ + v@.subrange(from as int, to as int),
{
    let ghost start = out@;
    let mut i = from;
    while i < to
        invariant
            from <= i <= to <= v.len(),
            out@ == start + v@.subrange(from as int, i as int),
        decreases to - i,
    {
        push_char(out, v[i]);
        i = i + 1;
        assert(v@.subrange(from as int, i as int) =~= v@.subrange(from as int, i - 1).push(
            v@[i - 1],
        ));
    }
}

/// A new `String` holding `v[from..to]`.
pub fn string_of_range(v: &Vec<char>, from: usize, to: usize) -> (s: String)
    requires
        from <= to <= v.len(),
    ensures
        s@ == v@.subrange(from as int, to as int),
{
    let mut s = String::new();
    push_range(&mut s, v, from, to);
    assert(Seq::<char>::empty() + v@.subrange(from as int, to as int) =~= v@.subrange(
        from as int,
        to as int,
    ));
    s
}

/// Executable `is_ws`.
pub fn is_ws_char(c: char) -> (b: bool)
    ensures
        b == is_ws(c),
{
    ('\u{9}' <= c && c <= '\u{d}') || c == ' ' || c == '\u{85}' || c == '\u{a0}' || c
        == '\u{1680}' || ('\u{2000}' <= c && c <= '\u{200a}') || c == '\u{2028}' || c
        == '\u{2029}' || c == '\u{202f}' || c == '\u{205f}' || c == '\u{3000}'
}

/// Start of `trim_start(v[i..j])` within `v`.
pub fn skip_ws(v: &Vec<char>, i: usize, j: usize) -> (k: usize)
    requires
        i <= j <= v.len(),
    ensures
        i <= k <= j,
        trim_start(v@.subrange(i as int, j as int)) == v@.subrange(k as int, j as int),
{
    let mut k = i;
    while k < j && is_ws_char(v[k])
        invariant
            i <= k <= j <= v.len(),
            trim_start(v@.subrange(i as int, j as int)) == trim_start(
                v@.subrange(k as int, j as int),
            ),
        decreases j - k,
    {
        assert(v@.subrange(k as int, j as int).drop_first() =~= v@.subrange(k + 1, j as int));
        k = k + 1;
    }
    k
}

/// End of `trim_end(v[i..j])` within `v`.
pub fn back_ws(v: &Vec<char>, i: usize, j: usize) -> (k: usize)
    requires
        i <= j <= v.len(),
    ensures
        i <= k <= j,
        trim_end(v@.subrange(i as int, j as int)) == v@.subrange(i as int, k as int),
{
    let mut k = j;
    while k > i && is_ws_char(v[k - 1])
        invariant
            i <= k <= j <= v.len(),
            trim_end(v@.subrange(i as int, j as int)) == trim_end(
                v@.subrange(i as int, k as int),
            ),
        decreases k - i,
    {
        assert(v@.subrange(i as int, k as int).drop_last() =~= v@.subrange(i as int, k - 1));
        k = k - 1;
    }
    k
}

/// Bounds of `trim(v[i..j])` within `v`.
pub fn trim_bounds(v: &Vec<char>, i: usize, j: usize) -> (r: (usize, usize))
    requires
        i <= j <= v.len(),
    ensures
        i <= r.0 <= r.1 <= j,
        trim(v@.subrange(i as int, j as int)) == v@.subrange(r.0 as int, r.1 as int),
{
    let a = skip_ws(v, i, j);
    let b = back_ws(v, a, j);
    (a, b)
}

/// Index of the first `c` in `v` at or after `i` (`v.len()` if none).
pub fn find_char(v: &Vec<char>, c: char, i: usize) -> (k: usize)
    requires
        i <= v.len(),
    ensures
        k == find_from(v@, c, i as int),
        i <= k <= v.len(),
{
    let mut k = i;
    while k < v.len() && v[k] != c
        invariant
            i <= k <= v.len(),
            find_from(v@, c, i as int) == find_from(v@, c, k as int),
        decreases v.len() - k,
    {
        k = k + 1;
    }
    k
}

/// The line of `v` that starts at `p`: its content ends at `r.0`, the next line
/// starts at `r.1`.
pub fn line_at(v: &Vec<char>, p: usize) -> (r: (usize, usize))
    requires
        p < v.len(),
    ensures
        p <= r.0 <= r.1 <= v.len(),
        p < r.1,
        lines_from(v@, p as int) == seq![v@.subrange(p as int, r.0 as int)] + lines_from(
            v@,
            r.1 as int,
        ),
{
    let e = find_char(v, '\n', p);
    if e >= v.len() {
        assert(lines_from(v@, v.len() as int) =~= Seq::<Seq<char>>::empty());
        assert(seq![v@.subrange(p as int, v.len() as int)] + Seq::<Seq<char>>::empty()
            =~= seq![v@.subrange(p as int, v.len() as int)]);
        (e, e)
    } else {
        let end = if e > p && v[e - 1] == '\r' {
            e - 1
        } else {
            e
        };
        assert(strip_cr(v@.subrange(p as int, e as int)) =~= v@.subrange(p as int, end as int));
        (end, e + 1)
    }
}

} // verus!

verus! {

/// Where `c` first occurs in `s[a..b]`, read from the first occurrence in `s` at or
/// after `a`.
pub proof fn lemma_find_sub(s: Seq<char>, c: char, a: int, b: int, i: int)
    requires
        0 <= a <= i <= b <= s.len(),
    ensures
        find_from(s.subrange(a, b), c, i - a) == if find_from(s, c, i) < b {
            find_from(s, c, i) - a
        } else {
            b - a
        },
    decreases b - i,
{
    lemma_find_from_bounds(s, c, i);
    if i < b && s[i] != c {
        lemma_find_sub(s, c, a, b, i + 1);
    }
}

/// Whether `v[a..b]` spells `k`.
pub fn range_eq(v: &Vec<char>, a: usize, b: usize, k: &Vec<char>) -> (r: bool)
    requires
        a <= b <= v.len(),
    ensures
        r == (v@.subrange(a as int, b as int) == k@),
{
    if b - a != k.len() {
        return false;
    }
    let mut i: usize = 0;
    while i < k.len()
        invariant
            a <= b <= v.len(),
            b - a == k.len(),
            0 <= i <= k.len(),
            forall|j: int| 0 <= j < i ==> v@[a + j] == k@[j],
        decreases k.len() - i,
    {
        if v[a + i] != k[i] {
            assert(v@.subrange(a as int, b as int)[i as int] != k@[i as int]);
            return false;
        }
        i = i + 1;
    }
    assert(v@.subrange(a as int, b as int) =~= k@);
    true
}

/// Decimal value of a string of ASCII digits.
pub open spec fn digits_value(s: Seq<char>) -> int
    decreases s.len(),
{
    if s.len() == 0 {
        0
    } else {
        digits_value(s.drop_last()) * 10 + (s.last() as int - '0' as int)
    }
}

/// Every character is an ASCII digit.
pub open spec fn all_digits(s: Seq<char>) -> bool {
    forall|i: int| 0 <= i < s.len() ==> '0' <= #[trigger] s[i] <= '9'
}

/// `<u32 as FromStr>::from_str`: an optional `+`, then one or more ASCII digits whose
/// value fits in a `u32`.
pub open spec fn parse_u32(s: Seq<char>) -> Option<u32> {
    let d = if s.len() > 0 && s[0] == '+' {
        s.drop_first()
    } else {
        s
    };
    if d.len() > 0 && all_digits(d) && digits_value(d) <= u32::MAX {
        Some(digits_value(d) as u32)
    } else {
        None
    }
}

pub proof fn lemma_digits_prefix_le(s: Seq<char>, i: int)
    requires
        all_digits(s),
        0 <= i <= s.len(),
    ensures
        0 <= digits_value(s.take(i)) <= digits_value(s),
    decreases s.len() - i,
{
    lemma_digits_nonneg(s.take(i));
    if i < s.len() {
        assert(s.take(i + 1).drop_last() =~= s.take(i));
        lemma_digits_prefix_le(s, i + 1);
    } else {
        assert(s.take(i) =~= s);
    }
}

pub proof fn lemma_digits_nonneg(s: Seq<char>)
    requires
        all_digits(s),
    ensures
        digits_value(s) >= 0,
    decreases s.len(),
{
    if s.len() > 0 {
        lemma_digits_nonneg(s.drop_last());
    }
}

/// Executable `parse_u32`.
pub fn parse_u32_chars(v: &Vec<char>) -> (r: Option<u32>)
    ensures
        r == parse_u32(v@),
{
    let start: usize = if v.len() > 0 && v[0] == '+' {
        1
    } else {
        0
    };
    let ghost d = if v@.len() > 0 && v@[0] == '+' {
        v@.drop_first()
    } else {
        v@
    };
    assert(d =~= v@.subrange(start as int, v.len() as int));
    if start >= v.len() {
        return None;
    }
    let mut acc: u64 = 0;
    let mut i = start;
    while i < v.len()
        invariant
            start <= i <= v.len(),
            d == v@.subrange(start as int, v.len() as int),
            d == (if v@.len() > 0 && v@[0] == '+' {
                v@.drop_first()
            } else {
                v@
            }),
            acc == digits_value(d.take(i - start)),
            acc <= u32::MAX,
            all_digits(d.take(i - start)),
        decreases v.len() - i,
    {
        let c = v[i];
        if c < '0' || c > '9' {
            assert(d[i - start] == c);
            return None;
        }
        let dig = (c as u32 - '0' as u32) as u64;
        assert(d.take(i - start + 1).drop_last() =~= d.take(i - start));
        assert(d.take(i - start + 1).last() == c);
        let next = acc * 10 + dig;
        assert(digits_value(d.take(i - start + 1)) == next);
        if next > u32::MAX as u64 {
            proof {
                if all_digits(d) {
                    lemma_digits_prefix_le(d, i - start + 1);
                }
            }
            return None;
        }
        acc = next;
        i = i + 1;
        assert(all_digits(d.take(i - start)));
    }
    assert(d.take(i - start) =~= d);
    Some(acc as u32)
}

/// The lowercase form `str::to_lowercase` gives of a string (Unicode case mapping).
pub uninterp spec fn lowercase(s: Seq<char>) -> Seq<char>;

/// Calls `str::to_lowercase` (Unicode lowercase mapping). The contract claims
/// only that the result is `lowercase` of the argument, a fixed function of it;
/// what that mapping does to each character is left unsaid.
#[verifier::external_body]
pub fn to_lowercase(s: &str) -> (r: String)
    ensures
        r@ == lowercase(s@),
{
    s.to_lowercase()
}

} // verus!

verus! {

/// Every character of `s` is whitespace.
pub open spec fn all_ws(s: Seq<char>) -> bool {
    forall|i: int| 0 <= i < s.len() ==> is_ws(#[trigger] s[i])
}

/// `trim_start` drops a whitespace prefix and stops at a non-whitespace character.
pub proof fn lemma_trim_start_split(s: Seq<char>)
    ensures
        trim_start(s).len() <= s.len(),
        trim_start(s) == s.skip(s.len() - trim_start(s).len()),
        all_ws(s.take(s.len() - trim_start(s).len())),
        trim_start(s).len() > 0 ==> !is_ws(trim_start(s)[0]),
    decreases s.len(),
{
    if s.len() > 0 && is_ws(s[0]) {
        lemma_trim_start_split(s.drop_first());
        let t = trim_start(s.drop_first());
        let n = s.drop_first().len() - t.len();
        assert(s.skip(s.len() - t.len()) =~= s.drop_first().skip(n));
        assert forall|i: int| 0 <= i < s.len() - t.len() implies is_ws(
            #[trigger] s.take(s.len() - t.len())[i],
        ) by {
            if i > 0 {
                assert(s.take(s.len() - t.len())[i] == s.drop_first().take(n)[i - 1]);
            }
        }
    } else {
        assert(s.skip(0) =~= s);
    }
}

/// `trim_end` drops a whitespace suffix and stops at a non-whitespace character.
pub proof fn lemma_trim_end_split(s: Seq<char>)
    ensures
        trim_end(s).len() <= s.len(),
        trim_end(s) == s.take(trim_end(s).len() as int),
        all_ws(s.skip(trim_end(s).len() as int)),
        trim_end(s).len() > 0 ==> !is_ws(trim_end(s).last()),
    decreases s.len(),
{
    if s.len() > 0 && is_ws(s.last()) {
        lemma_trim_end_split(s.drop_last());
        let t = trim_end(s.drop_last());
        assert(s.take(t.len() as int) =~= s.drop_last().take(t.len() as int));
        assert forall|i: int| 0 <= i < s.len() - t.len() implies is_ws(
            #[trigger] s.skip(t.len() as int)[i],
        ) by {
            if i < s.len() - t.len() - 1 {
                assert(s.skip(t.len() as int)[i] == s.drop_last().skip(t.len() as int)[i]);
            }
        }
    } else {
        assert(s.take(s.len() as int) =~= s);
    }
}

/// Leading whitespace does not survive `trim_start`.
pub proof fn lemma_trim_start_ws_prefix(w: Seq<char>, x: Seq<char>)
    requires
        all_ws(w),
    ensures
        trim_start(w + x) == trim_start(x),
    decreases w.len(),
{
    if w.len() > 0 {
        assert((w + x)[0] == w[0]);
        assert((w + x).drop_first() =~= w.drop_first() + x);
        lemma_trim_start_ws_prefix(w.drop_first(), x);
    } else {
        assert(w + x =~= x);
    }
}

/// Once `x` has a non-whitespace character, what follows it is kept.
pub proof fn lemma_trim_start_append(x: Seq<char>, y: Seq<char>)
    requires
        trim_start(x).len() > 0,
    ensures
        trim_start(x + y) == trim_start(x) + y,
    decreases x.len(),
{
    if x.len() > 0 && is_ws(x[0]) {
        assert((x + y)[0] == x[0]);
        assert((x + y).drop_first() =~= x.drop_first() + y);
        lemma_trim_start_append(x.drop_first(), y);
    } else {
        if x.len() == 0 {
            assert(false);
        }
        assert((x + y)[0] == x[0]);
    }
}

/// Trailing whitespace does not survive `trim_end`.
pub proof fn lemma_trim_end_ws_suffix(x: Seq<char>, w: Seq<char>)
    requires
        all_ws(w),
    ensures
        trim_end(x + w) == trim_end(x),
    decreases w.len(),
{
    if w.len() > 0 {
        assert((x + w).last() == w.last());
        assert((x + w).drop_last() =~= x + w.drop_last());
        lemma_trim_end_ws_suffix(x, w.drop_last());
    } else {
        assert(x + w =~= x);
    }
}

/// `trim` is a piece of its argument.
pub proof fn lemma_trim_sub(s: Seq<char>)
    ensures
        exists|a: int, b: int| 0 <= a <= b <= s.len() && trim(s) == s.subrange(a, b),
{
    lemma_trim_start_split(s);
    let t = trim_start(s);
    lemma_trim_end_split(t);
    let a = s.len() - t.len();
    let b = a + trim_end(t).len();
    assert(trim(s) =~= s.subrange(a, b));
}

/// Trimming twice is trimming once.
pub proof fn lemma_trim_idem(s: Seq<char>)
    ensures
        trim(trim(s)) == trim(s),
        trim(s).len() > 0 ==> !is_ws(trim(s)[0]) && !is_ws(trim(s).last()),
{
    lemma_trim_start_split(s);
    let t = trim_start(s);
    lemma_trim_end_split(t);
    let u = trim_end(t);
    if u.len() > 0 {
        assert(u[0] == t[0]);
        assert(trim_start(u) == u);
        lemma_trim_end_split(u);
        lemma_trim_end_idem(t);
    } else {
        assert(trim_start(u) == u);
        assert(trim_end(u) == u);
    }
}

pub proof fn lemma_trim_end_idem(s: Seq<char>)
    ensures
        trim_end(trim_end(s)) == trim_end(s),
{
    lemma_trim_end_split(s);
}

/// `find_from` on `a + b` past `a` is `find_from` on `b`, shifted.
pub proof fn lemma_find_append(a: Seq<char>, b: Seq<char>, c: char, j: int)
    requires
        0 <= j,
    ensures
        find_from(a + b, c, a.len() + j) == a.len() + find_from(b, c, j) || (j > b.len()
            && find_from(b, c, j) == b.len() && find_from(a + b, c, a.len() + j) == a.len()
            + b.len()),
    decreases b.len() - j,
{
    if j < b.len() {
        assert((a + b)[a.len() + j] == b[j]);
        if b[j] != c {
            lemma_find_append(a, b, c, j + 1);
        }
    }
}

/// With no `c` in `a[i..]`, the search runs on into `b`.
pub proof fn lemma_find_skip(a: Seq<char>, b: Seq<char>, c: char, i: int)
    requires
        0 <= i <= a.len(),
        forall|k: int| i <= k < a.len() ==> a[k] != c,
    ensures
        find_from(a + b, c, i) == a.len() + find_from(b, c, 0),
    decreases a.len() - i,
{
    if i < a.len() {
        assert((a + b)[i] == a[i]);
        lemma_find_skip(a, b, c, i + 1);
    } else {
        lemma_find_append(a, b, c, 0);
    }
}

/// `lines` of a text after a prefix, read from the prefix's end.
pub proof fn lemma_lines_shift(a: Seq<char>, b: Seq<char>, j: int)
    requires
        0 <= j,
    ensures
        lines_from(a + b, a.len() + j) == lines_from(b, j),
    decreases b.len() - j,
{
    let s = a + b;
    if j < b.len() {
        lemma_find_append(a, b, '\n', j);
        lemma_find_from_bounds(b, '\n', j);
        let e = find_from(b, '\n', j);
        if e >= b.len() {
            assert(s.subrange(a.len() + j, s.len() as int) =~= b.subrange(j, b.len() as int));
        } else {
            assert(s.subrange(a.len() + j, a.len() + e) =~= b.subrange(j, e));
            lemma_lines_shift(a, b, e + 1);
        }
    }
}

/// The first line of `l + "\n" + r` is `l` (less a final `\r`).
pub proof fn lemma_lines_cons(l: Seq<char>, r: Seq<char>)
    requires
        !has_char(l, '\n'),
    ensures
        lines(l.push('\n') + r) == seq![strip_cr(l)] + lines(r),
{
    let a = l.push('\n');
    let s = a + r;
    assert forall|k: int| 0 <= k < l.len() implies l[k] != '\n' by {
        if l[k] == '\n' {
            assert(has_char(l, '\n'));
        }
    }
    lemma_find_skip(l, seq!['\n'] + r, '\n', 0);
    assert(s =~= l + (seq!['\n'] + r));
    assert(find_from(seq!['\n'] + r, '\n', 0) == 0);
    assert(s.subrange(0, l.len() as int) =~= l);
    lemma_lines_shift(a, r, 0);
}

/// No line holds a newline.
pub proof fn lemma_lines_no_nl(s: Seq<char>, p: int)
    requires
        0 <= p,
    ensures
        forall|i: int| 0 <= i < lines_from(s, p).len() ==> !has_char(#[trigger] lines_from(s, p)[i], '\n'),
    decreases s.len() - p,
{
    if p < s.len() {
        lemma_find_from_bounds(s, '\n', p);
        let e = find_from(s, '\n', p);
        let ls = lines_from(s, p);
        if e >= s.len() {
            let l = s.subrange(p, s.len() as int);
            assert(ls[0] == l);
            assert forall|i: int| 0 <= i < ls.len() implies !has_char(#[trigger] ls[i], '\n') by {
                if has_char(l, '\n') {
                    let k = choose|k: int| 0 <= k < l.len() && l[k] == '\n';
                    assert(s[p + k] == '\n');
                }
            }
        } else {
            lemma_lines_no_nl(s, e + 1);
            let l = s.subrange(p, e);
            let rest = lines_from(s, e + 1);
            assert(ls == seq![strip_cr(l)] + rest);
            assert forall|i: int| 0 <= i < ls.len() implies !has_char(#[trigger] ls[i], '\n') by {
                if i == 0 {
                    if has_char(strip_cr(l), '\n') {
                        let k = choose|k: int| 0 <= k < strip_cr(l).len() && strip_cr(l)[k] == '\n';
                        assert(s[p + k] == '\n');
                    }
                } else {
                    assert(ls[i] == rest[i - 1]);
                }
            }
        }
    }
}

} // verus!

verus! {

/// A hit in `a` is a hit in `a + b`.
pub proof fn lemma_find_prefix(a: Seq<char>, b: Seq<char>, c: char, i: int)
    requires
        0 <= i,
        find_from(a, c, i) < a.len(),
    ensures
        find_from(a + b, c, i) == find_from(a, c, i),
    decreases a.len() - i,
{
    assert((a + b)[i] == a[i]);
    if a[i] != c {
        lemma_find_prefix(a, b, c, i + 1);
    }
}

/// A trailing whitespace character does not change `trim`.
pub proof fn lemma_trim_push_ws(v: Seq<char>, c: char)
    requires
        is_ws(c),
    ensures
        trim(v.push(c)) == trim(v),
{
    lemma_trim_start_split(v);
    if trim_start(v).len() > 0 {
        lemma_trim_start_append(v, seq![c]);
        assert(v + seq![c] =~= v.push(c));
        let t = trim_start(v);
        assert((t + seq![c]).drop_last() =~= t);
        assert((t + seq![c]).last() == c);
    } else {
        assert(v.take(v.len() as int) =~= v);
        assert(all_ws(v.push(c)));
        lemma_trim_start_ws_prefix(v.push(c), seq![]);
        assert(v.push(c) + Seq::<char>::empty() =~= v.push(c));
    }
}

/// `has_char` of a concatenation.
pub proof fn lemma_has_char_add(a: Seq<char>, b: Seq<char>, c: char)
    ensures
        has_char(a + b, c) == (has_char(a, c) || has_char(b, c)),
{
    if has_char(a + b, c) {
        let k = choose|k: int| 0 <= k < (a + b).len() && (a + b)[k] == c;
        if k < a.len() {
            assert(a[k] == c);
        } else {
            assert(b[k - a.len()] == c);
        }
    }
    if has_char(a, c) {
        let k = choose|k: int| 0 <= k < a.len() && a[k] == c;
        assert((a + b)[k] == c);
    }
    if has_char(b, c) {
        let k = choose|k: int| 0 <= k < b.len() && b[k] == c;
        assert((a + b)[a.len() + k] == c);
    }
}

/// A piece of `s` holds no character that `s` lacks.
pub proof fn lemma_has_char_sub(s: Seq<char>, a: int, b: int, c: char)
    requires
        0 <= a <= b <= s.len(),
        !has_char(s, c),
    ensures
        !has_char(s.subrange(a, b), c),
{
    if has_char(s.subrange(a, b), c) {
        let k = choose|k: int| 0 <= k < b - a && s.subrange(a, b)[k] == c;
        assert(s[a + k] == c);
    }
}

} // verus!

verus! {

/// The ASCII digit for `d < 10`.
pub open spec fn digit_char(d: int) -> char {
    (d + '0' as int) as char
}

/// Decimal digits of `n`, as `Display` writes them.
pub open spec fn decimal(n: nat) -> Seq<char>
    decreases n,
{
    if n < 10 {
        seq![digit_char(n as int)]
    } else {
        decimal(n / 10).push(digit_char((n % 10) as int))
    }
}

/// `Display` of a signed integer.
pub open spec fn signed_decimal(i: int) -> Seq<char> {
    if i < 0 {
        seq!['-'] + decimal((-i) as nat)
    } else {
        decimal(i as nat)
    }
}

/// Appends the decimal digits of `n`.
pub fn push_decimal(out: &mut String, n: u64)
    ensures
        final(out)@ == old(out)@ + decimal(n as nat),
    decreases n,
{
    if n >= 10 {
        push_decimal(out, n / 10);
    }
    let d = (n % 10) as u8;
    let c = (48u8 + d) as char;
    assert(c == digit_char((n % 10) as int));
    push_char(out, c);
    proof {
        if n >= 10 {
            assert(old(out)@ + decimal(n as nat) =~= old(out)@ + decimal((n / 10) as nat) + seq![c]);
        } else {
            assert(old(out)@ + decimal(n as nat) =~= old(out)@.push(c));
        }
    }
}

/// Appends `i` as `Display` writes it.
pub fn push_signed(out: &mut String, i: i64)
    ensures
        final(out)@ == old(out)@ + signed_decimal(i as int),
{
    if i < 0 {
        push_char(out, '-');
        let m: u64 = if i == i64::MIN {
            9223372036854775808u64
        } else {
            (-i) as u64
        };
        push_decimal(out, m);
        assert(old(out)@ + signed_decimal(i as int) =~= old(out)@.push('-') + decimal(m as nat));
    } else {
        push_decimal(out, i as u64);
    }
}

/// Appends a string slice.
pub fn push_str(out: &mut String, s: &str)
    ensures
        final(out)@ == old(out)@ + s@,
{
    out.append(s);
}

/// A new `String` with the contents of `s`.
pub fn owned(s: &str) -> (r: String)
    ensures
        r@ == s@,
{
    String::from_str(s)
}

} // verus!

verus! {

/// `p` occurs in `s` at position `i`.
pub open spec fn occurs_at(s: Seq<char>, p: Seq<char>, i: int) -> bool {
    0 <= i && i + p.len() <= s.len() && s.subrange(i, i + p.len()) == p
}

/// `str::contains` with a string pattern.
pub open spec fn contains(s: Seq<char>, p: Seq<char>) -> bool {
    exists|i: int| occurs_at(s, p, i)
}

/// Whether `p` occurs in `v[a..b]`.
pub fn contains_in(v: &Vec<char>, a: usize, b: usize, p: &Vec<char>) -> (r: bool)
    requires
        a <= b <= v.len(),
    ensures
        r == contains(v@.subrange(a as int, b as int), p@),
{
    let ghost s = v@.subrange(a as int, b as int);
    if p.len() > b - a {
        assert forall|i: int| !occurs_at(s, p@, i) by {}
        return false;
    }
    if p.len() == 0 {
        assert(s.subrange(0, 0) =~= p@);
        assert(occurs_at(s, p@, 0));
        return true;
    }
    let mut i = a;
    while i <= b - p.len()
        invariant
            a <= i <= b,
            p.len() <= b - a,
            p.len() > 0,
            b <= v.len(),
            s == v@.subrange(a as int, b as int),
            forall|k: int| 0 <= k < i - a ==> !occurs_at(s, p@, k),
        decreases b - i,
    {
        if range_eq(v, i, i + p.len(), p) {
            assert(s.subrange(i - a, i - a + p.len()) =~= v@.subrange(i as int, i + p.len()));
            assert(occurs_at(s, p@, i - a));
            return true;
        }
        assert(s.subrange(i - a, i - a + p.len()) =~= v@.subrange(i as int, i + p.len()));
        i = i + 1;
    }
    assert forall|k: int| !occurs_at(s, p@, k) by {
        if 0 <= k < i - a {
        } else if k >= i - a && occurs_at(s, p@, k) {
            assert(k + p.len() <= s.len());
        }
    }
    false
}

/// `str::contains`.
pub fn str_contains(s: &str, p: &str) -> (r: bool)
    ensures
        r == contains(s@, p@),
{
    let v = chars_of(s);
    let pv = chars_of(p);
    assert(v@.subrange(0, v.len() as int) =~= v@);
    contains_in(&v, 0, v.len(), &pv)
}

/// `p` is a prefix of `s`.
pub open spec fn starts_with(s: Seq<char>, p: Seq<char>) -> bool {
    p.len() <= s.len() && s.take(p.len() as int) == p
}

/// Whether `v[a..b]` starts with `p`.
pub fn starts_with_in(v: &Vec<char>, a: usize, b: usize, p: &Vec<char>) -> (r: bool)
    requires
        a <= b <= v.len(),
    ensures
        r == starts_with(v@.subrange(a as int, b as int), p@),
{
    if p.len() > b - a {
        return false;
    }
    let r = range_eq(v, a, a + p.len(), p);
    assert(v@.subrange(a as int, b as int).take(p.len() as int) =~= v@.subrange(
        a as int,
        a + p.len(),
    ));
    r
}

} // verus!

verus! {

/// `items` joined with `sep` between consecutive items.
pub open spec fn join_with(items: Seq<Seq<char>>, sep: Seq<char>) -> Seq<char>
    decreases items.len(),
{
    if items.len() == 0 {
        seq![]
    } else if items.len() == 1 {
        items[0]
    } else {
        items[0] + sep + join_with(items.drop_first(), sep)
    }
}

/// `Path::join` on Unix: an absolute `p` replaces `base`; otherwise a `/` is put
/// between them unless `base` is empty or already ends with one.
pub open spec fn path_join(base: Seq<char>, p: Seq<char>) -> Seq<char> {
    if p.len() > 0 && p[0] == '/' {
        p
    } else if base.len() == 0 || base.last() == '/' {
        base + p
    } else {
        base + seq!['/'] + p
    }
}

/// `Path::join` of two strings.
pub fn join_path(base: &str, p: &str) -> (r: String)
    ensures
        r@ == path_join(base@, p@),
{
    let bv = chars_of(base);
    let pv = chars_of(p);
    if pv.len() > 0 && pv[0] == '/' {
        return owned(p);
    }
    let mut r = owned(base);
    if !(bv.len() == 0 || bv[bv.len() - 1] == '/') {
        push_char(&mut r, '/');
    }
    push_str(&mut r, p);
    r
}

/// Joins the strings in `items` with `sep`.
pub fn join_strings(items: &Vec<String>, sep: &str) -> (r: String)
    ensures
        r@ == join_with(items@.map_values(|s: String| s@), sep@),
{
    let ghost views = items@.map_values(|s: String| s@);
    let mut r = String::new();
    let mut i: usize = 0;
    assert(views.skip(0) =~= views);
    assert(r@ + Seq::<char>::empty() + join_with(views, sep@) =~= join_with(views, sep@));
    while i < items.len()
        invariant
            views == items@.map_values(|s: String| s@),
            i <= items.len(),
            r@ + (if i > 0 && i < items.len() {
                sep@
            } else {
                seq![]
            }) + join_with(views.skip(i as int), sep@) == join_with(views, sep@),
        decreases items.len() - i,
    {
        let ghost before = r@;
        let ghost rest = views.skip(i as int);
        assert(rest[0] == items[i as int]@);
        assert(rest.drop_first() =~= views.skip(i + 1));
        if i > 0 {
            push_str(&mut r, sep);
        }
        push_str(&mut r, items[i].as_str());
        if i + 1 < items.len() {
            assert(join_with(rest, sep@) == rest[0] + sep@ + join_with(views.skip(i + 1), sep@));
        } else {
            assert(views.skip(i + 1).len() == 0);
            assert(join_with(rest, sep@) == rest[0]);
        }
        i = i + 1;
        assert(r@ + (if i > 0 && i < items.len() {
            sep@
        } else {
            seq![]
        }) + join_with(views.skip(i as int), sep@) =~= before + (if i - 1 > 0 && i - 1 < items.len() {
            sep@
        } else {
            seq![]
        }) + join_with(rest, sep@));
    }
    assert(views.skip(0) =~= views);
    assert(r@ + Seq::<char>::empty() + Seq::<char>::empty() =~= r@);
    r
}

} // verus!

verus! {

/// `k` copies of `c` (none when `k <= 0`).
pub open spec fn repeat_char(c: char, k: int) -> Seq<char> {
    Seq::new(if k > 0 {
        k as nat
    } else {
        0
    }, |i: int| c)
}

/// `format!("{:0w$}", n)`: the sign, then zeros up to width `w`, then the digits.
pub open spec fn zero_padded(n: int, w: int) -> Seq<char> {
    if n < 0 {
        seq!['-'] + repeat_char('0', w - 1 - decimal((-n) as nat).len()) + decimal((-n) as nat)
    } else {
        repeat_char('0', w - decimal(n as nat).len()) + decimal(n as nat)
    }
}

/// Appends `k` copies of `c`.
pub fn push_repeat(out: &mut String, c: char, k: usize)
    ensures
        final(out)@ == old(out)@ + repeat_char(c, k as int),
{
    let mut i: usize = 0;
    while i < k
        invariant
            i <= k,
            out@ == old(out)@ + repeat_char(c, i as int),
        decreases k - i,
    {
        push_char(out, c);
        i = i + 1;
        assert(out@ =~= old(out)@ + repeat_char(c, i as int));
    }
}

/// Appends `n` zero-padded to width `w`, as `format!("{:0w$}", n)` does.
pub fn push_zero_padded(out: &mut String, n: i64, w: usize)
    ensures
        final(out)@ == old(out)@ + zero_padded(n as int, w as int),
{
    let m: u64 = if n >= 0 {
        n as u64
    } else if n == i64::MIN {
        9223372036854775808u64
    } else {
        (-n) as u64
    };
    let mut digits = String::new();
    push_decimal(&mut digits, m);
    assert(digits@ =~= decimal(m as nat));
    let dl = digits.as_str().unicode_len();
    let room: usize = if n < 0 {
        if w >= 1 && w - 1 > dl {
            w - 1 - dl
        } else {
            0
        }
    } else if w > dl {
        w - dl
    } else {
        0
    };
    if n < 0 {
        push_char(out, '-');
    }
    let ghost mid = out@;
    push_repeat(out, '0', room);
    push_str(out, digits.as_str());
    proof {
        if n < 0 {
            assert(repeat_char('0', room as int) =~= repeat_char('0', w - 1 - dl));
            assert(out@ =~= old(out)@ + zero_padded(n as int, w as int));
        } else {
            assert(repeat_char('0', room as int) =~= repeat_char('0', w - dl));
            assert(out@ =~= old(out)@ + zero_padded(n as int, w as int));
        }
    }
}

} // verus!
