//! Character-level string helpers shared by the parsers of this crate.
use vstd::prelude::*;

verus! {

broadcast use vstd::string::group_string_axioms;

/// `p` is a prefix of `s`.
pub open spec fn has_prefix(s: Seq<char>, p: Seq<char>) -> bool {
    p.len() <= s.len() && s.subrange(0, p.len() as int) == p
}

/// `p` is a suffix of `s`.
pub open spec fn has_suffix(s: Seq<char>, p: Seq<char>) -> bool {
    p.len() <= s.len() && s.subrange(s.len() - p.len(), s.len() as int) == p
}

/// `pat` occurs in `s` starting at index `i`.
pub open spec fn occurs_at(s: Seq<char>, pat: Seq<char>, i: int) -> bool {
    0 <= i && i + pat.len() <= s.len() && s.subrange(i, i + pat.len()) == pat
}

/// `pat` occurs somewhere in `s`.
pub open spec fn contains_seq(s: Seq<char>, pat: Seq<char>) -> bool {
    exists|i: int| occurs_at(s, pat, i)
}

/// `c` is in `s`.
pub open spec fn has_char(s: Seq<char>, c: char) -> bool {
    exists|i: int| 0 <= i < s.len() && s[i] == c
}

/// `s` with `rep` inserted before every character and at the end, which is
/// what replacing the empty pattern does.
pub open spec fn interleave(s: Seq<char>, rep: Seq<char>) -> Seq<char>
    decreases s.len(),
{
    if s.len() == 0 {
        rep
    } else {
        rep + seq![s[0]] + interleave(s.skip(1), rep)
    }
}

/// `s` with every non-overlapping occurrence of `pat`, found from the left,
/// replaced by `rep` (the behaviour of `str::replace`).
pub open spec fn replace_all(s: Seq<char>, pat: Seq<char>, rep: Seq<char>) -> Seq<char>
    decreases s.len(),
{
    if pat.len() == 0 {
        interleave(s, rep)
    } else if s.len() == 0 {
        s
    } else if has_prefix(s, pat) {
        rep + replace_all(s.skip(pat.len() as int), pat, rep)
    } else {
        seq![s[0]] + replace_all(s.skip(1), pat, rep)
    }
}

/// Number of non-overlapping occurrences of `pat` in `s`, found from the left
/// (the behaviour of `str::matches(..).count()`; the empty pattern matches at
/// every character boundary).
pub open spec fn count_matches(s: Seq<char>, pat: Seq<char>) -> nat
    decreases s.len(),
{
    if pat.len() == 0 {
        s.len() + 1
    } else if s.len() == 0 {
        0
    } else if has_prefix(s, pat) {
        1 + count_matches(s.skip(pat.len() as int), pat)
    } else {
        count_matches(s.skip(1), pat)
    }
}

/// `s` with only its first occurrence of `pat` replaced by `rep` (the
/// behaviour of `str::replacen(pat, rep, 1)`).
pub open spec fn replace_first(s: Seq<char>, pat: Seq<char>, rep: Seq<char>) -> Seq<char>
    decreases s.len(),
{
    if pat.len() == 0 {
        rep + s
    } else if s.len() == 0 {
        s
    } else if has_prefix(s, pat) {
        rep + s.skip(pat.len() as int)
    } else {
        seq![s[0]] + replace_first(s.skip(1), pat, rep)
    }
}

/// Decimal digits of `n`, most significant first, without leading zeros
/// (`"0"` for zero).
pub open spec fn decimal(n: nat) -> Seq<char>
    decreases n,
{
    if n < 10 {
        seq![digit_char(n)]
    } else {
        decimal(n / 10).push(digit_char(n % 10))
    }
}

/// The ASCII digit for `d < 10`.
pub open spec fn digit_char(d: nat) -> char {
    (('0' as nat) + d) as char
}

/// The characters of `s`, in order.
pub fn chars_of(s: &str) -> (v: Vec<char>)
    ensures
        v@ == s@,
{
    let mut v: Vec<char> = Vec::new();
    for c in it: s.chars()
        invariant
            v@ == it.seq().take(it.index() as int),
            it.seq() == s@,
    {
        v.push(c);
    }
    v
}

/// Appends one character (`String::push`).
#[verifier::external_body]
pub(crate) fn push_char(s: &mut String, c: char)
    ensures
        final(s)@ == old(s)@.push(c),
{
    s.push(c);
}

/// Appends a string slice (`String::push_str`).
#[verifier::external_body]
pub(crate) fn push_str(s: &mut String, t: &str)
    ensures
        final(s)@ == old(s)@ + t@,
{
    s.push_str(t);
}

/// Compares two string slices (`<str as PartialEq>::eq`).
#[verifier::external_body]
pub(crate) fn str_eq(a: &str, b: &str) -> (r: bool)
    ensures
        r == (a@ == b@),
{
    a == b
}

/// A string made of the characters of `v`.
pub fn string_of(v: &[char]) -> (s: String)
    ensures
        s@ == v@,
{
    let mut s = String::new();
    let mut i: usize = 0;
    while i < v.len()
        invariant
            i <= v@.len(),
            s@ == v@.take(i as int),
        decreases v@.len() - i,
    {
        push_char(&mut s, v[i]);
        i = i + 1;
        assert(s@ =~= v@.take(i as int));
    }
    assert(v@.take(v@.len() as int) =~= v@);
    s
}

/// A string made of the characters of `v` from index `a` up to `b`.
pub fn range_string(v: &[char], a: usize, b: usize) -> (s: String)
    requires
        a <= b <= v@.len(),
    ensures
        s@ == v@.subrange(a as int, b as int),
{
    let mut s = String::new();
    let mut i: usize = a;
    while i < b
        invariant
            a <= i <= b,
            b <= v@.len(),
            s@ == v@.subrange(a as int, i as int),
        decreases b - i,
    {
        push_char(&mut s, v[i]);
        i = i + 1;
        assert(s@ =~= v@.subrange(a as int, i as int));
    }
    s
}

/// A string made of the characters of `v` from index `k` on.
pub fn suffix_string(v: &[char], k: usize) -> (s: String)
    requires
        k <= v@.len(),
    ensures
        s@ == v@.skip(k as int),
{
    let mut s = String::new();
    let mut i: usize = k;
    while i < v.len()
        invariant
            k <= i <= v@.len(),
            s@ == v@.subrange(k as int, i as int),
        decreases v@.len() - i,
    {
        push_char(&mut s, v[i]);
        i = i + 1;
        assert(s@ =~= v@.subrange(k as int, i as int));
    }
    assert(v@.subrange(k as int, i as int) =~= v@.skip(k as int));
    s
}

/// `a` followed by `b`.
pub fn concat(a: &str, b: &str) -> (s: String)
    ensures
        s@ == a@ + b@,
{
    let mut s = a.to_owned();
    push_str(&mut s, b);
    s
}

/// Decimal text of `n`.
pub fn decimal_string(n: u64) -> (s: String)
    ensures
        s@ == decimal(n as nat),
    decreases n,
{
    let d = char_of_digit(n % 10);
    if n < 10 {
        let mut s = String::new();
        push_char(&mut s, d);
        assert(s@ =~= seq![digit_char(n as nat)]);
        s
    } else {
        let mut s = decimal_string(n / 10);
        push_char(&mut s, d);
        s
    }
}

/// The ASCII digit character of `d`.
fn char_of_digit(d: u64) -> (c: char)
    requires
        d < 10,
    ensures
        c == digit_char(d as nat),
{
    if d == 0 { '0' } else if d == 1 { '1' } else if d == 2 { '2' } else if d == 3 { '3' }
    else if d == 4 { '4' } else if d == 5 { '5' } else if d == 6 { '6' } else if d == 7 { '7' }
    else if d == 8 { '8' } else { '9' }
}

/// `p` is a prefix of `s`, over character vectors.
pub fn starts_with(s: &[char], p: &[char]) -> (r: bool)
    ensures
        r == has_prefix(s@, p@),
{
    if p.len() > s.len() {
        return false;
    }
    let mut i: usize = 0;
    while i < p.len()
        invariant
            p@.len() <= s@.len(),
            i <= p@.len(),
            forall|j: int| 0 <= j < i ==> s@[j] == p@[j],
        decreases p@.len() - i,
    {
        if s[i] != p[i] {
            assert(s@.subrange(0, p@.len() as int)[i as int] != p@[i as int]);
            return false;
        }
        i = i + 1;
    }
    assert(s@.subrange(0, p@.len() as int) =~= p@);
    true
}

/// `p` occurs in `s` at index `i`, over character vectors.
pub fn matches_at(s: &[char], p: &[char], i: usize) -> (r: bool)
    ensures
        r == occurs_at(s@, p@, i as int),
{
    if i > s.len() || p.len() > s.len() - i {
        return false;
    }
    let n = s.len();
    let mut k: usize = 0;
    while k < p.len()
        invariant
            n == s@.len(),
            i + p@.len() <= s@.len(),
            k <= p@.len(),
            forall|j: int| 0 <= j < k ==> s@[i + j] == p@[j],
        decreases p@.len() - k,
    {
        if s[i + k] != p[k] {
            assert(s@.subrange(i as int, i + p@.len())[k as int] != p@[k as int]);
            return false;
        }
        k = k + 1;
    }
    assert(s@.subrange(i as int, i + p@.len()) =~= p@);
    true
}

/// `p` is a suffix of `s`, over character vectors.
pub fn ends_with(s: &[char], p: &[char]) -> (r: bool)
    ensures
        r == has_suffix(s@, p@),
{
    if p.len() > s.len() {
        return false;
    }
    matches_at(s, p, s.len() - p.len())
}

/// `c` occurs in `s`.
pub fn contains_char(s: &[char], c: char) -> (r: bool)
    ensures
        r == has_char(s@, c),
{
    let mut i: usize = 0;
    while i < s.len()
        invariant
            i <= s@.len(),
            forall|j: int| 0 <= j < i ==> s@[j] != c,
        decreases s@.len() - i,
    {
        if s[i] == c {
            return true;
        }
        i = i + 1;
    }
    false
}

/// `pat` occurs somewhere in `s`.
pub fn contains(s: &[char], pat: &[char]) -> (r: bool)
    ensures
        r == contains_seq(s@, pat@),
{
    let mut i: usize = 0;
    while i < s.len()
        invariant
            i <= s@.len(),
            forall|j: int| 0 <= j < i ==> !occurs_at(s@, pat@, j),
        decreases s@.len() - i,
    {
        if matches_at(s, pat, i) {
            return true;
        }
        i = i + 1;
    }
    matches_at(s, pat, i)
}

/// `s` with every occurrence of `pat` replaced by `rep`.
pub fn replace(s: &[char], pat: &[char], rep: &[char]) -> (r: Vec<char>)
    ensures
        r@ == replace_all(s@, pat@, rep@),
{
    let mut out: Vec<char> = Vec::new();
    let mut i: usize = 0;
    assert(s@.skip(0) =~= s@);
    if pat.len() == 0 {
        assert(out@ + interleave(s@, rep@) =~= replace_all(s@, pat@, rep@));
        while i < s.len()
            invariant
                i <= s@.len(),
                pat@.len() == 0,
                out@ + interleave(s@.skip(i as int), rep@) == replace_all(s@, pat@, rep@),
            decreases s@.len() - i,
        {
            assert(s@.skip(i as int).skip(1) =~= s@.skip(i + 1));
            append_all(&mut out, rep);
            out.push(s[i]);
            i = i + 1;
            proof {
                let ghost t = s@.skip((i - 1) as int);
                assert(interleave(t, rep@) == rep@ + seq![t[0]] + interleave(t.skip(1), rep@));
                assert(out@ + interleave(s@.skip(i as int), rep@) =~= replace_all(s@, pat@, rep@));
            }
        }
        append_all(&mut out, rep);
        assert(s@.skip(i as int).len() == 0);
        assert(out@ =~= replace_all(s@, pat@, rep@));
        return out;
    }
    assert(out@ + replace_all(s@, pat@, rep@) =~= replace_all(s@, pat@, rep@));
    while i < s.len()
        invariant
            i <= s@.len(),
            pat@.len() > 0,
            out@ + replace_all(s@.skip(i as int), pat@, rep@) == replace_all(s@, pat@, rep@),
        decreases s@.len() - i,
    {
        let ghost t = s@.skip(i as int);
        let hit = matches_at(s, pat, i);
        proof {
            assert(hit == has_prefix(t, pat@)) by {
                if hit {
                    assert(t.subrange(0, pat@.len() as int) =~= s@.subrange(i as int, i + pat@.len()));
                }
                if has_prefix(t, pat@) {
                    assert(t.subrange(0, pat@.len() as int) =~= s@.subrange(i as int, i + pat@.len()));
                }
            }
        }
        if hit {
            append_all(&mut out, rep);
            i = i + pat.len();
            assert(t.skip(pat@.len() as int) =~= s@.skip(i as int));
            assert(out@ + replace_all(s@.skip(i as int), pat@, rep@) =~= replace_all(s@, pat@, rep@));
        } else {
            out.push(s[i]);
            i = i + 1;
            assert(t.skip(1) =~= s@.skip(i as int));
            assert(out@ + replace_all(s@.skip(i as int), pat@, rep@) =~= replace_all(s@, pat@, rep@));
        }
    }
    assert(out@ =~= replace_all(s@, pat@, rep@));
    out
}

/// Number of non-overlapping occurrences of `pat` in `s`.
pub fn count(s: &[char], pat: &[char]) -> (n: usize)
    requires
        s@.len() < usize::MAX,
    ensures
        n == count_matches(s@, pat@),
{
    if pat.len() == 0 {
        return s.len() + 1;
    }
    let mut n: usize = 0;
    let mut i: usize = 0;
    assert(s@.skip(0) =~= s@);
    while i < s.len()
        invariant
            i <= s@.len(),
            s@.len() < usize::MAX,
            pat@.len() > 0,
            n + count_matches(s@.skip(i as int), pat@) == count_matches(s@, pat@),
            n <= i,
        decreases s@.len() - i,
    {
        let ghost t = s@.skip(i as int);
        let hit = matches_at(s, pat, i);
        proof {
            if hit || has_prefix(t, pat@) {
                assert(t.subrange(0, pat@.len() as int) =~= s@.subrange(i as int, i + pat@.len()));
            }
        }
        if hit {
            n = n + 1;
            i = i + pat.len();
            assert(t.skip(pat@.len() as int) =~= s@.skip(i as int));
        } else {
            i = i + 1;
            assert(t.skip(1) =~= s@.skip(i as int));
        }
    }
    n
}

/// `s` with only its first occurrence of `pat` replaced by `rep`.
pub fn replace_once(s: &[char], pat: &[char], rep: &[char]) -> (r: Vec<char>)
    ensures
        r@ == replace_first(s@, pat@, rep@),
{
    let mut out: Vec<char> = Vec::new();
    if pat.len() == 0 {
        append_all(&mut out, rep);
        append_all(&mut out, s);
        return out;
    }
    let mut i: usize = 0;
    assert(s@.skip(0) =~= s@);
    assert(out@ + replace_first(s@, pat@, rep@) =~= replace_first(s@, pat@, rep@));
    while i < s.len()
        invariant
            i <= s@.len(),
            pat@.len() > 0,
            out@ + replace_first(s@.skip(i as int), pat@, rep@) == replace_first(s@, pat@, rep@),
        decreases s@.len() - i,
    {
        let ghost t = s@.skip(i as int);
        let hit = matches_at(s, pat, i);
        proof {
            if hit || has_prefix(t, pat@) {
                assert(t.subrange(0, pat@.len() as int) =~= s@.subrange(i as int, i + pat@.len()));
            }
        }
        if hit {
            append_all(&mut out, rep);
            let mut k = i + pat.len();
            let ghost mid = out@;
            while k < s.len()
                invariant
                    i + pat@.len() <= k <= s@.len(),
                    out@ == mid + s@.subrange(i + pat@.len(), k as int),
                decreases s@.len() - k,
            {
                out.push(s[k]);
                k = k + 1;
                assert(out@ =~= mid + s@.subrange(i + pat@.len(), k as int));
            }
            assert(t.skip(pat@.len() as int) =~= s@.subrange(i + pat@.len(), s@.len() as int));
            assert(out@ =~= replace_first(s@, pat@, rep@));
            return out;
        } else {
            out.push(s[i]);
            i = i + 1;
            assert(t.skip(1) =~= s@.skip(i as int));
            assert(out@ + replace_first(s@.skip(i as int), pat@, rep@) =~= replace_first(s@, pat@, rep@));
        }
    }
    assert(out@ =~= replace_first(s@, pat@, rep@));
    out
}

/// Appends all of `t` to `out`.
pub fn append_all(out: &mut Vec<char>, t: &[char])
    ensures
        final(out)@ == old(out)@ + t@,
{
    let mut i: usize = 0;
    let ghost start = out@;
    while i < t.len()
        invariant
            i <= t@.len(),
            out@ == start + t@.take(i as int),
        decreases t@.len() - i,
    {
        out.push(t[i]);
        i = i + 1;
        assert(out@ =~= start + t@.take(i as int));
    }
    assert(t@.take(t@.len() as int) =~= t@);
}

/// The two character sequences are equal.
pub fn chars_eq(a: &[char], b: &[char]) -> (r: bool)
    ensures
        r == (a@ == b@),
{
    if a.len() != b.len() {
        return false;
    }
    let mut i: usize = 0;
    while i < a.len()
        invariant
            a@.len() == b@.len(),
            i <= a@.len(),
            forall|j: int| 0 <= j < i ==> a@[j] == b@[j],
        decreases a@.len() - i,
    {
        if a[i] != b[i] {
            return false;
        }
        i = i + 1;
    }
    assert(a@ =~= b@);
    true
}

/// The value of an optional string, as characters.
pub open spec fn opt_chars(o: Option<String>) -> Option<Seq<char>> {
    match o {
        Some(s) => Some(s@),
        None => None,
    }
}

/// The views of a sequence of character vectors.
pub open spec fn views_of(v: Seq<Vec<char>>) -> Seq<Seq<char>> {
    v.map_values(|t: Vec<char>| t@)
}

/// The views of a sequence of strings.
pub open spec fn string_views(v: Seq<String>) -> Seq<Seq<char>> {
    v.map_values(|t: String| t@)
}

/// `c` has the Unicode `White_Space` property (`char::is_whitespace`).
pub open spec fn is_white(c: char) -> bool {
    ||| ('\u{9}' <= c <= '\u{d}')
    ||| c == ' '
    ||| c == '\u{85}'
    ||| c == '\u{a0}'
    ||| c == '\u{1680}'
    ||| ('\u{2000}' <= c <= '\u{200a}')
    ||| c == '\u{2028}'
    ||| c == '\u{2029}'
    ||| c == '\u{202f}'
    ||| c == '\u{205f}'
    ||| c == '\u{3000}'
}

/// Every character of `s` is whitespace, so `s.trim()` is empty.
pub open spec fn is_blank(s: Seq<char>) -> bool {
    forall|i: int| 0 <= i < s.len() ==> is_white(#[trigger] s[i])
}

/// `c` is whitespace.
pub fn white(c: char) -> (r: bool)
    ensures
        r == is_white(c),
{
    ('\u{9}' <= c && c <= '\u{d}') || c == ' ' || c == '\u{85}' || c == '\u{a0}' || c == '\u{1680}'
        || ('\u{2000}' <= c && c <= '\u{200a}') || c == '\u{2028}' || c == '\u{2029}' || c == '\u{202f}'
        || c == '\u{205f}' || c == '\u{3000}'
}

/// `s.trim().is_empty()`.
pub fn blank(s: &str) -> (r: bool)
    ensures
        r == is_blank(s@),
{
    let v = chars_of(s);
    let mut i: usize = 0;
    while i < v.len()
        invariant
            i <= v@.len(),
            v@ == s@,
            forall|k: int| 0 <= k < i ==> is_white(#[trigger] v@[k]),
        decreases v@.len() - i,
    {
        if !white(v[i]) {
            return false;
        }
        i = i + 1;
    }
    true
}

} // verus!
