//! Text primitives over character sequences: searching, replacing and
//! conversions between `str`, `String` and `Vec<char>`.

use vstd::prelude::*;
use vstd::string::*;

verus! {

/// `p` occurs in `s` starting at index `i`.
pub open spec fn occurs_at(s: Seq<char>, p: Seq<char>, i: int) -> bool {
    0 <= i && i + p.len() <= s.len() && s.subrange(i, i + p.len()) == p
}

/// Index of the first occurrence of `p` in `s` at or after `i`.
pub open spec fn find_from(s: Seq<char>, p: Seq<char>, i: int) -> Option<int>
    decreases s.len() + 1 - i,
{
    if i < 0 || i + p.len() > s.len() {
        None
    } else if occurs_at(s, p, i) {
        Some(i)
    } else {
        find_from(s, p, i + 1)
    }
}

/// Index of the first occurrence of `p` in `s`.
pub open spec fn find(s: Seq<char>, p: Seq<char>) -> Option<int> {
    find_from(s, p, 0)
}

pub open spec fn contains(s: Seq<char>, p: Seq<char>) -> bool {
    find(s, p) is Some
}

/// `s` with its first occurrence of `p` at or after `h` replaced by `t`
/// (unchanged if none).
pub open spec fn replace_first_from(s: Seq<char>, p: Seq<char>, t: Seq<char>, h: int) -> Seq<char> {
    match find_from(s, p, h) {
        Some(i) => s.subrange(0, i) + t + s.subrange(i + p.len(), s.len() as int),
        None => s,
    }
}

/// `s` with its first occurrence of `p` replaced by `t` (unchanged if none).
pub open spec fn replace_first(s: Seq<char>, p: Seq<char>, t: Seq<char>) -> Seq<char> {
    replace_first_from(s, p, t, 0)
}

/// Left-to-right replacement of the non-overlapping occurrences of `p` in
/// `s` from index `i` on; an empty pattern replaces nothing.
pub open spec fn replace_from(s: Seq<char>, p: Seq<char>, t: Seq<char>, i: int) -> Seq<char>
    decreases s.len() - i,
{
    if i < 0 || i >= s.len() || p.len() == 0 {
        if 0 <= i <= s.len() {
            s.subrange(i, s.len() as int)
        } else {
            Seq::empty()
        }
    } else if occurs_at(s, p, i) {
        t + replace_from(s, p, t, i + p.len())
    } else {
        seq![s[i]] + replace_from(s, p, t, i + 1)
    }
}

/// Every occurrence of `p` in `s` replaced by `t`.
pub open spec fn replace_all(s: Seq<char>, p: Seq<char>, t: Seq<char>) -> Seq<char> {
    replace_from(s, p, t, 0)
}

pub proof fn lemma_find_from(s: Seq<char>, p: Seq<char>, i: int)
    requires
        0 <= i,
    ensures
        match find_from(s, p, i) {
            Some(k) => i <= k && occurs_at(s, p, k) && forall|j: int|
                i <= j < k ==> !occurs_at(s, p, j),
            None => forall|j: int| i <= j ==> !occurs_at(s, p, j),
        },
    decreases s.len() + 1 - i,
{
    if i + p.len() > s.len() {
    } else if occurs_at(s, p, i) {
    } else {
        lemma_find_from(s, p, i + 1);
    }
}

/// Relies on String::push: appends one character at the end.
#[verifier::external_body]
fn push_char(s: &mut String, c: char)
    ensures
        final(s)@ == old(s)@.push(c),
{
    s.push(c)
}

/// The characters of `s`, in order.
pub fn chars_of(s: &str) -> (r: Vec<char>)
    ensures
        r@ == s@,
{
    let n = s.unicode_len();
    let mut r: Vec<char> = Vec::new();
    let mut i: usize = 0;
    while i < n
        invariant
            n == s@.len(),
            i <= n,
            r@ == s@.subrange(0, i as int),
        decreases n - i,
    {
        r.push(s.get_char(i));
        i = i + 1;
        assert(r@ =~= s@.subrange(0, i as int));
    }
    assert(r@ =~= s@);
    r
}

/// The string made of the characters of `v`.
pub fn string_of(v: &[char]) -> (r: String)
    ensures
        r@ == v@,
{
    let mut r = String::new();
    let mut i: usize = 0;
    while i < v.len()
        invariant
            i <= v@.len(),
            r@ == v@.subrange(0, i as int),
        decreases v@.len() - i,
    {
        push_char(&mut r, v[i]);
        i = i + 1;
        assert(r@ =~= v@.subrange(0, i as int));
    }
    assert(r@ =~= v@);
    r
}

/// Appends `src[from..to]` to `out`.
pub fn push_range(out: &mut Vec<char>, src: &[char], from: usize, to: usize)
    requires
        from <= to <= src@.len(),
    ensures
        final(out)@ == old(out)@ + src@.subrange(from as int, to as int),
{
    let mut i: usize = from;
    while i < to
        invariant
            from <= i <= to <= src@.len(),
            out@ == old(out)@ + src@.subrange(from as int, i as int),
        decreases to - i,
    {
        out.push(src[i]);
        i = i + 1;
        assert(out@ =~= old(out)@ + src@.subrange(from as int, i as int));
    }
}

/// Whether `p` occurs in `s` at index `i`.
pub fn matches_at(s: &[char], p: &[char], i: usize) -> (r: bool)
    ensures
        r == occurs_at(s@, p@, i as int),
{
    if i > s.len() || p.len() > s.len() - i {
        return false;
    }
    let mut k: usize = 0;
    while k < p.len()
        invariant
            s@.len() <= usize::MAX,
            i + p@.len() <= s@.len(),
            k <= p@.len(),
            forall|j: int| 0 <= j < k ==> s@[i + j] == p@[j],
        decreases p@.len() - k,
    {
        assert(i + k < s@.len());
        if s[i + k] != p[k] {
            assert(s@.subrange(i as int, i + p@.len())[k as int] != p@[k as int]);
            return false;
        }
        k = k + 1;
    }
    assert(s@.subrange(i as int, i + p@.len()) =~= p@);
    true
}

/// The first occurrence of `p` in `s` at or after `start`.
pub fn find_in(s: &[char], p: &[char], start: usize) -> (r: Option<usize>)
    ensures
        match r {
            Some(k) => find_from(s@, p@, start as int) == Some(k as int),
            None => find_from(s@, p@, start as int) is None,
        },
{
    let mut i: usize = start;
    while i <= s.len() && p.len() <= s.len() - i
        invariant
            start <= i,
            find_from(s@, p@, start as int) == find_from(s@, p@, i as int),
        decreases s@.len() + 1 - i,
    {
        if matches_at(s, p, i) {
            return Some(i);
        }
        if i == s.len() {
            assert(find_from(s@, p@, i + 1) is None);
            return None;
        }
        i = i + 1;
    }
    None
}

/// `s` with the first occurrence of `p` at or after `h` replaced by `t`.
pub fn replace_first_in(s: &[char], p: &[char], t: &[char], h: usize) -> (r: Vec<char>)
    ensures
        r@ == replace_first_from(s@, p@, t@, h as int),
{
    let mut r: Vec<char> = Vec::new();
    match find_in(s, p, h) {
        Some(k) => {
            proof {
                lemma_find_from(s@, p@, h as int);
            }
            assert(occurs_at(s@, p@, k as int));
            push_range(&mut r, s, 0, k);
            push_range(&mut r, t, 0, t.len());
            let n = s.len();
            push_range(&mut r, s, k + p.len(), n);
            assert(t@.subrange(0, t@.len() as int) =~= t@);
        },
        None => {
            push_range(&mut r, s, 0, s.len());
            assert(s@.subrange(0, s@.len() as int) =~= s@);
        },
    }
    assert(r@ =~= replace_first_from(s@, p@, t@, h as int));
    r
}

/// `s` with every occurrence of `p` replaced by `t`.
pub fn replace_all_in(s: &[char], p: &[char], t: &[char]) -> (r: Vec<char>)
    ensures
        r@ == replace_all(s@, p@, t@),
{
    let mut r: Vec<char> = Vec::new();
    let mut i: usize = 0;
    if p.len() == 0 {
        push_range(&mut r, s, 0, s.len());
        assert(r@ =~= replace_all(s@, p@, t@));
        return r;
    }
    while i < s.len()
        invariant
            i <= s@.len(),
            p@.len() > 0,
            r@ + replace_from(s@, p@, t@, i as int) == replace_all(s@, p@, t@),
        decreases s@.len() - i,
    {
        if matches_at(s, p, i) {
            let ghost before = r@;
            push_range(&mut r, t, 0, t.len());
            assert(t@.subrange(0, t@.len() as int) =~= t@);
            assert(r@ + replace_from(s@, p@, t@, i + p@.len()) =~= before + replace_from(
                s@,
                p@,
                t@,
                i as int,
            ));
            i = i + p.len();
        } else {
            let ghost before = r@;
            r.push(s[i]);
            assert(r@ + replace_from(s@, p@, t@, i + 1) =~= before + replace_from(
                s@,
                p@,
                t@,
                i as int,
            ));
            i = i + 1;
        }
    }
    let ghost before = r@;
    assert(replace_from(s@, p@, t@, i as int) == s@.subrange(i as int, s@.len() as int));
    push_range(&mut r, s, i, s.len());
    assert(r@ =~= before + replace_from(s@, p@, t@, i as int));
    r
}

/// Index of the first line feed at or after `i`, or the length of `s`.
pub open spec fn line_end(s: Seq<char>, i: int) -> int
    decreases s.len() - i,
{
    if i < 0 || i >= s.len() {
        s.len() as int
    } else if s[i] == '\n' {
        i
    } else {
        line_end(s, i + 1)
    }
}

/// A line that was ended by a line feed loses one trailing carriage return.
pub open spec fn strip_cr(l: Seq<char>) -> Seq<char> {
    if l.len() > 0 && l.last() == '\r' {
        l.drop_last()
    } else {
        l
    }
}

/// The lines of `s` from index `i` on: pieces split at line feeds, a
/// carriage return before a line feed removed, no piece after a final
/// line feed.
pub open spec fn lines_from(s: Seq<char>, i: int) -> Seq<Seq<char>>
    decreases s.len() + 1 - i,
{
    if i < 0 || i >= s.len() {
        Seq::empty()
    } else {
        let e = line_end(s, i);
        if e < i || e > s.len() {
            Seq::empty()
        } else {
            let l = s.subrange(i, e);
            seq![if e < s.len() { strip_cr(l) } else { l }] + lines_from(s, e + 1)
        }
    }
}

pub open spec fn lines(s: Seq<char>) -> Seq<Seq<char>> {
    lines_from(s, 0)
}

pub proof fn lemma_line_end(s: Seq<char>, i: int)
    requires
        0 <= i <= s.len(),
    ensures
        i <= line_end(s, i) <= s.len(),
        line_end(s, i) < s.len() ==> s[line_end(s, i)] == '\n',
    decreases s.len() - i,
{
    if i < s.len() && s[i] != '\n' {
        lemma_line_end(s, i + 1);
    }
}

/// The Unicode `White_Space` characters.
pub open spec fn is_whitespace(c: char) -> bool {
    let u = c as u32;
    (0x09 <= u <= 0x0d) || u == 0x20 || u == 0x85 || u == 0xa0 || u == 0x1680 || (0x2000 <= u
        <= 0x200a) || u == 0x2028 || u == 0x2029 || u == 0x202f || u == 0x205f || u == 0x3000
}

/// First index at or after `i` that holds no whitespace (or the length).
pub open spec fn skip_ws(s: Seq<char>, i: int) -> int
    decreases s.len() - i,
{
    if 0 <= i < s.len() && is_whitespace(s[i]) {
        skip_ws(s, i + 1)
    } else {
        i
    }
}

/// End of `s[lo..j]` once its trailing whitespace is removed.
pub open spec fn skip_ws_back(s: Seq<char>, lo: int, j: int) -> int
    decreases j,
{
    if 0 <= lo < j && j <= s.len() && is_whitespace(s[j - 1]) {
        skip_ws_back(s, lo, j - 1)
    } else {
        j
    }
}

/// `s` without leading and trailing whitespace.
pub open spec fn trim(s: Seq<char>) -> Seq<char> {
    let a = skip_ws(s, 0);
    s.subrange(a, skip_ws_back(s, a, s.len() as int))
}

pub open spec fn is_digit(c: char) -> bool {
    0x30 <= (c as u32) <= 0x39
}

pub open spec fn digit_value(c: char) -> nat {
    ((c as u32) - 0x30) as nat
}

/// The number written by the decimal digits `d`.
pub open spec fn digits_value(d: Seq<char>) -> nat
    decreases d.len(),
{
    if d.len() == 0 {
        0
    } else {
        digits_value(d.drop_last()) * 10 + digit_value(d.last())
    }
}

/// The digits of a decimal number: the text without one leading `+`.
pub open spec fn unsigned_digits(s: Seq<char>) -> Seq<char> {
    if s.len() > 0 && s[0] == '+' {
        s.drop_first()
    } else {
        s
    }
}

/// A `u32` in decimal: an optional `+`, then one or more digits, with a
/// value that fits in 32 bits.
pub open spec fn parse_u32(s: Seq<char>) -> Option<nat> {
    let d = unsigned_digits(s);
    if d.len() > 0 && (forall|i: int| 0 <= i < d.len() ==> is_digit(#[trigger] d[i]))
        && digits_value(d) <= u32::MAX {
        Some(digits_value(d))
    } else {
        None
    }
}

pub proof fn lemma_parse_rejects(s: Seq<char>, j: int)
    requires
        0 <= j < unsigned_digits(s).len(),
        !is_digit(unsigned_digits(s)[j]),
    ensures
        parse_u32(s) is None,
{
}

pub proof fn lemma_digits_prefix(d: Seq<char>, k: int)
    requires
        0 <= k <= d.len(),
    ensures
        digits_value(d.subrange(0, k)) <= digits_value(d),
    decreases d.len(),
{
    if k < d.len() {
        lemma_digits_prefix(d.drop_last(), k);
        assert(d.drop_last().subrange(0, k) =~= d.subrange(0, k));
    } else {
        assert(d.subrange(0, k) =~= d);
    }
}

/// Index of the first line feed at or after `i`.
pub fn line_end_in(s: &[char], i: usize) -> (r: usize)
    requires
        i <= s@.len(),
    ensures
        r as int == line_end(s@, i as int),
{
    let mut j: usize = i;
    while j < s.len() && s[j] != '\n'
        invariant
            i <= j <= s@.len(),
            line_end(s@, i as int) == line_end(s@, j as int),
        decreases s@.len() - j,
    {
        j = j + 1;
    }
    j
}

/// The lines of `s`, split as `lines` says.
pub fn split_lines(s: &[char]) -> (r: Vec<Vec<char>>)
    ensures
        r@.map_values(|l: Vec<char>| l@) == lines(s@),
{
    let mut r: Vec<Vec<char>> = Vec::new();
    let mut i: usize = 0;
    while i < s.len()
        invariant
            i <= s@.len(),
            r@.map_values(|l: Vec<char>| l@) + lines_from(s@, i as int) == lines(s@),
        decreases s@.len() - i,
    {
        let e = line_end_in(s, i);
        proof {
            lemma_line_end(s@, i as int);
        }
        let mut l: Vec<char> = Vec::new();
        let mut stop = e;
        if e < s.len() && e > i && s[e - 1] == '\r' {
            stop = e - 1;
        }
        push_range(&mut l, s, i, stop);
        let ghost piece = s@.subrange(i as int, e as int);
        assert(l@ =~= (if (e as int) < s@.len() { strip_cr(piece) } else { piece }));
        let ghost before = r@;
        r.push(l);
        assert(r@.map_values(|l: Vec<char>| l@) =~= before.map_values(|l: Vec<char>| l@).push(
            l@,
        ));
        i = e;
        if i < s.len() {
            i = i + 1;
        } else {
            assert(lines_from(s@, e as int + 1) == Seq::<Seq<char>>::empty());
        }
    }
    assert(lines_from(s@, i as int) == Seq::<Seq<char>>::empty());
    assert(r@.map_values(|l: Vec<char>| l@) =~= lines(s@));
    r
}

pub fn is_whitespace_char(c: char) -> (r: bool)
    ensures
        r == is_whitespace(c),
{
    let u = c as u32;
    (0x09 <= u && u <= 0x0d) || u == 0x20 || u == 0x85 || u == 0xa0 || u == 0x1680 || (0x2000
        <= u && u <= 0x200a) || u == 0x2028 || u == 0x2029 || u == 0x202f || u == 0x205f || u
        == 0x3000
}

/// `s` without leading and trailing whitespace.
pub fn trim_chars(s: &[char]) -> (r: Vec<char>)
    ensures
        r@ == trim(s@),
{
    let mut a: usize = 0;
    while a < s.len() && is_whitespace_char(s[a])
        invariant
            a <= s@.len(),
            skip_ws(s@, 0) == skip_ws(s@, a as int),
        decreases s@.len() - a,
    {
        a = a + 1;
    }
    let mut b: usize = s.len();
    while a < b && is_whitespace_char(s[b - 1])
        invariant
            a <= b <= s@.len(),
            a == skip_ws(s@, 0),
            skip_ws_back(s@, a as int, s@.len() as int) == skip_ws_back(s@, a as int, b as int),
        decreases b,
    {
        b = b - 1;
    }
    let mut r: Vec<char> = Vec::new();
    push_range(&mut r, s, a, b);
    assert(r@ =~= trim(s@));
    r
}

/// Reads `s` as a `u32` in decimal, as `parse_u32` says.
pub fn parse_u32_in(s: &[char]) -> (r: Option<u32>)
    ensures
        match r {
            Some(v) => parse_u32(s@) == Some(v as nat),
            None => parse_u32(s@) is None,
        },
{
    let mut k: usize = 0;
    if s.len() > 0 && s[0] == '+' {
        k = 1;
    }
    let ghost d = unsigned_digits(s@);
    assert(d =~= s@.subrange(k as int, s@.len() as int));
    if k >= s.len() {
        return None;
    }
    let mut acc: u64 = 0;
    let mut i: usize = k;
    while i < s.len()
        invariant
            k <= i <= s@.len(),
            d == unsigned_digits(s@),
            d == s@.subrange(k as int, s@.len() as int),
            acc <= u32::MAX,
            acc == digits_value(d.subrange(0, i - k)),
            forall|j: int| 0 <= j < i - k ==> is_digit(#[trigger] d[j]),
        decreases s@.len() - i,
    {
        let c = s[i];
        if !((c as u32) >= 0x30 && (c as u32) <= 0x39) {
            assert(!is_digit(d[i - k]));
            proof {
                lemma_parse_rejects(s@, i - k);
            }
            return None;
        }
        assert(d.subrange(0, i + 1 - k).drop_last() =~= d.subrange(0, i - k));
        assert(d.subrange(0, i + 1 - k).last() == c);
        acc = acc * 10 + ((c as u32) - 0x30) as u64;
        i = i + 1;
        assert(acc == digits_value(d.subrange(0, i - k)));
        if acc > u32::MAX as u64 {
            proof {
                lemma_digits_prefix(d, i - k);
            }
            return None;
        }
    }
    assert(d.subrange(0, i - k) =~= d);
    Some(acc as u32)
}

/// The views of a list of strings.
pub open spec fn strings_view(v: Seq<String>) -> Seq<Seq<char>> {
    v.map_values(|s: String| s@)
}

/// `a` followed by `b`.
pub fn concat_chars(a: &[char], b: &[char]) -> (r: Vec<char>)
    ensures
        r@ == a@ + b@,
{
    let mut r: Vec<char> = Vec::new();
    push_range(&mut r, a, 0, a.len());
    push_range(&mut r, b, 0, b.len());
    assert(r@ =~= a@ + b@);
    r
}

/// The text `a + b` as a `String`.
pub fn concat_str(a: &str, b: &str) -> (r: String)
    ensures
        r@ == a@ + b@,
{
    let s = String::from_str(a);
    s.concat(b)
}

} // verus!
