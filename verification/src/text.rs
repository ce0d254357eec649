//! Character-level string operations with exact specifications.
use vstd::prelude::*;

verus! {

broadcast use vstd::string::group_string_axioms;

/// Appends one character to a `String` (std's `String::push`).
/// Claimed: the string afterwards is the old one followed by `c`.
#[verifier::external_body]
pub(crate) fn push_char(s: &mut String, c: char)
    ensures
        final(s)@ == old(s)@.push(c),
{
    s.push(c)
}

/// The characters of `s`, in order.
pub fn chars_of(s: &str) -> (v: Vec<char>)
    ensures
        v@ == s@,
{
    let mut v: Vec<char> = Vec::new();
    for c in it: s.chars()
        invariant
            it.seq() == s@,
            v@ == it.seq().take(it.index() as int),
    {
        v.push(c);
    }
    v
}

/// A `String` holding exactly the characters `cs`.
pub fn string_from_chars(cs: &[char]) -> (r: String)
    ensures
        r@ == cs@,
{
    let mut r = String::new();
    let mut i: usize = 0;
    while i < cs.len()
        invariant
            i <= cs@.len(),
            r@ == cs@.take(i as int),
        decreases cs@.len() - i,
    {
        push_char(&mut r, cs[i]);
        assert(cs@.take(i as int).push(cs@[i as int]) =~= cs@.take(i + 1));
        i += 1;
    }
    assert(cs@.take(cs@.len() as int) =~= cs@);
    r
}


/// Whether `p` occurs in `s` starting at index `i`.
pub open spec fn occurs_at(s: Seq<char>, p: Seq<char>, i: int) -> bool {
    0 <= i && i + p.len() <= s.len() && s.subrange(i, i + p.len()) == p
}

/// Whether `p` occurs anywhere in `s` (`str::contains` with a string pattern).
pub open spec fn contains_seq(s: Seq<char>, p: Seq<char>) -> bool {
    exists|i: int| occurs_at(s, p, i)
}

/// `s` with every leftmost, non-overlapping occurrence of the pattern `p`
/// replaced by `r`, scanning from the left (`str::replace`); the empty
/// pattern occurs before every character and at the end.
pub open spec fn replace_all(s: Seq<char>, p: Seq<char>, r: Seq<char>) -> Seq<char>
    decreases s.len(),
{
    if p.len() == 0 {
        if s.len() == 0 {
            r
        } else {
            r + seq![s[0]] + replace_all(s.drop_first(), p, r)
        }
    } else if s.len() == 0 {
        s
    } else if occurs_at(s, p, 0) {
        r + replace_all(s.skip(p.len() as int), p, r)
    } else {
        seq![s[0]] + replace_all(s.drop_first(), p, r)
    }
}

/// `s` without the trailing run of `c` (`str::trim_end_matches` with a char).
pub open spec fn trim_end_char(s: Seq<char>, c: char) -> Seq<char>
    decreases s.len(),
{
    if s.len() > 0 && s.last() == c {
        trim_end_char(s.drop_last(), c)
    } else {
        s
    }
}

/// Whether `c` has the Unicode `White_Space` property (as `char::is_whitespace`
/// reports it): the 25 code points U+0009..U+000D, U+0020, U+0085, U+00A0,
/// U+1680, U+2000..U+200A, U+2028, U+2029, U+202F, U+205F and U+3000.
pub open spec fn unicode_white_space(c: char) -> bool {
    ||| '\u{9}' <= c <= '\u{d}'
    ||| c == '\u{20}'
    ||| c == '\u{85}'
    ||| c == '\u{a0}'
    ||| c == '\u{1680}'
    ||| '\u{2000}' <= c <= '\u{200a}'
    ||| c == '\u{2028}'
    ||| c == '\u{2029}'
    ||| c == '\u{202f}'
    ||| c == '\u{205f}'
    ||| c == '\u{3000}'
}

/// Whether `c` is white space.
pub fn is_white_space(c: char) -> (b: bool)
    ensures
        b == unicode_white_space(c),
{
    ('\u{9}' <= c && c <= '\u{d}') || c == '\u{20}' || c == '\u{85}' || c == '\u{a0}' || c
        == '\u{1680}' || ('\u{2000}' <= c && c <= '\u{200a}') || c == '\u{2028}' || c == '\u{2029}'
        || c == '\u{202f}' || c == '\u{205f}' || c == '\u{3000}'
}

/// What `str::to_lowercase` yields on `s`.
pub uninterp spec fn unicode_lowercase(s: Seq<char>) -> Seq<char>;

/// `str::to_lowercase`.
/// Claimed: the result is the named lowercase mapping of `s`.
#[verifier::external_body]
pub(crate) fn to_lowercase(s: &str) -> (r: String)
    ensures
        r@ == unicode_lowercase(s@),
{
    s.to_lowercase()
}

/// `s` without its leading white space.
pub open spec fn trim_start_ws(s: Seq<char>) -> Seq<char>
    decreases s.len(),
{
    if s.len() > 0 && unicode_white_space(s[0]) {
        trim_start_ws(s.drop_first())
    } else {
        s
    }
}

/// `s` without its trailing white space.
pub open spec fn trim_end_ws(s: Seq<char>) -> Seq<char>
    decreases s.len(),
{
    if s.len() > 0 && unicode_white_space(s.last()) {
        trim_end_ws(s.drop_last())
    } else {
        s
    }
}

/// `s` without leading and trailing white space (`str::trim`).
pub open spec fn trim_ws(s: Seq<char>) -> Seq<char> {
    trim_end_ws(trim_start_ws(s))
}

proof fn lemma_trim_start_ws_first(s: Seq<char>)
    ensures
        trim_start_ws(s).len() > 0 ==> !unicode_white_space(trim_start_ws(s)[0]),
        trim_start_ws(s).is_suffix_of(s),
    decreases s.len(),
{
    if s.len() > 0 && unicode_white_space(s[0]) {
        lemma_trim_start_ws_first(s.drop_first());
        let t = trim_start_ws(s.drop_first());
        assert(s.subrange(s.len() - t.len(), s.len() as int) =~= s.drop_first().subrange(
            s.drop_first().len() - t.len(),
            s.drop_first().len() as int,
        ));
    } else {
        assert(s.subrange(0, s.len() as int) =~= s);
    }
}

proof fn lemma_trim_end_ws_last(s: Seq<char>)
    ensures
        trim_end_ws(s).len() > 0 ==> !unicode_white_space(trim_end_ws(s).last()),
        trim_end_ws(s).is_prefix_of(s),
    decreases s.len(),
{
    if s.len() > 0 && unicode_white_space(s.last()) {
        lemma_trim_end_ws_last(s.drop_last());
    }
}

proof fn lemma_trim_start_plain(s: Seq<char>)
    requires
        s.len() > 0 ==> !unicode_white_space(s[0]),
    ensures
        trim_start_ws(s) == s,
{
}

proof fn lemma_trim_end_plain(s: Seq<char>)
    requires
        s.len() > 0 ==> !unicode_white_space(s.last()),
    ensures
        trim_end_ws(s) == s,
{
}

/// Trimming twice is trimming once: a trimmed text neither starts nor ends
/// with white space.
pub proof fn law_trim_idempotent(s: Seq<char>)
    ensures
        trim_ws(trim_ws(s)) == trim_ws(s),
        trim_ws(s).len() > 0 ==> !unicode_white_space(trim_ws(s)[0]) && !unicode_white_space(
            trim_ws(s).last(),
        ),
{
    let a = trim_start_ws(s);
    let t = trim_end_ws(a);
    lemma_trim_start_ws_first(s);
    lemma_trim_end_ws_last(a);
    if t.len() > 0 {
        assert(t[0] == a[0]);
    }
    lemma_trim_start_plain(t);
    lemma_trim_end_plain(t);
}

/// Whether `cs` holds `p` at index `i`.
pub fn matches_at(cs: &[char], i: usize, p: &[char]) -> (b: bool)
    ensures
        b == occurs_at(cs@, p@, i as int),
{
    if i > cs.len() || p.len() > cs.len() - i {
        return false;
    }
    let mut j: usize = 0;
    while j < p.len()
        invariant
            i + p@.len() <= cs@.len(),
            cs@.len() <= usize::MAX,
            j <= p@.len(),
            forall|k: int| 0 <= k < j ==> cs@[i + k] == p@[k],
        decreases p@.len() - j,
    {
        if cs[i + j] != p[j] {
            assert(cs@.subrange(i as int, i + p@.len())[j as int] != p@[j as int]);
            return false;
        }
        j += 1;
    }
    assert(cs@.subrange(i as int, i + p@.len()) =~= p@);
    true
}

/// Whether two strings hold the same characters.
pub fn str_eq(a: &str, b: &str) -> (r: bool)
    ensures
        r == (a@ == b@),
{
    let x = chars_of(a);
    let y = chars_of(b);
    if x.len() != y.len() {
        return false;
    }
    let mut i: usize = 0;
    while i < x.len()
        invariant
            x@ == a@,
            y@ == b@,
            x@.len() == y@.len(),
            i <= x@.len(),
            forall|k: int| 0 <= k < i ==> x@[k] == y@[k],
        decreases x@.len() - i,
    {
        if x[i] != y[i] {
            return false;
        }
        i += 1;
    }
    assert(x@ =~= y@);
    true
}

/// Whether `p` occurs in `s`.
pub fn contains_str(s: &str, p: &str) -> (b: bool)
    ensures
        b == contains_seq(s@, p@),
{
    let cs = chars_of(s);
    let ps = chars_of(p);
    let mut i: usize = 0;
    while i < cs.len()
        invariant
            cs@ == s@,
            ps@ == p@,
            i <= cs@.len(),
            forall|k: int| 0 <= k < i ==> !occurs_at(s@, p@, k),
        decreases cs@.len() - i,
    {
        if matches_at(cs.as_slice(), i, ps.as_slice()) {
            return true;
        }
        i += 1;
    }
    if matches_at(cs.as_slice(), i, ps.as_slice()) {
        return true;
    }
    assert forall|k: int| !occurs_at(s@, p@, k) by {
        if occurs_at(s@, p@, k) {
            assert(k <= i);
        }
    }
    false
}

proof fn lemma_replace_all_skip(s: Seq<char>, p: Seq<char>, r: Seq<char>, i: int)
    requires
        p.len() > 0,
        0 <= i <= s.len(),
    ensures
        s.skip(i).len() > 0 && occurs_at(s.skip(i), p, 0) ==> replace_all(s.skip(i), p, r)
            == r + replace_all(s.skip(i + p.len()), p, r),
        s.skip(i).len() > 0 && !occurs_at(s.skip(i), p, 0) ==> replace_all(s.skip(i), p, r)
            == seq![s[i]] + replace_all(s.skip(i + 1), p, r),
{
    let t = s.skip(i);
    if t.len() > 0 && occurs_at(t, p, 0) {
        assert(t.skip(p.len() as int) =~= s.skip(i + p.len()));
    }
    if t.len() > 0 {
        assert(t.drop_first() =~= s.skip(i + 1));
    }
}

fn extend_chars(out: &mut Vec<char>, cs: &[char])
    ensures
        final(out)@ == old(out)@ + cs@,
{
    let ghost before = out@;
    let mut k: usize = 0;
    while k < cs.len()
        invariant
            k <= cs@.len(),
            out@ == before + cs@.take(k as int),
        decreases cs@.len() - k,
    {
        out.push(cs[k]);
        assert(cs@.take(k as int).push(cs@[k as int]) =~= cs@.take(k + 1));
        k += 1;
    }
    assert(cs@.take(cs@.len() as int) =~= cs@);
}

/// `s` with `r` before every character and at the end: the replacement of the empty pattern.
fn replace_empty(s: &str, r: &str) -> (out: String)
    ensures
        out@ == replace_all(s@, Seq::<char>::empty(), r@),
{
    let cs = chars_of(s);
    let rs = chars_of(r);
    let mut out: Vec<char> = Vec::new();
    let mut i: usize = 0;
    assert(s@.skip(0) =~= s@);
    while i < cs.len()
        invariant
            cs@ == s@,
            rs@ == r@,
            i <= cs@.len(),
            out@ + replace_all(s@.skip(i as int), Seq::<char>::empty(), r@) == replace_all(
                s@,
                Seq::<char>::empty(),
                r@,
            ),
        decreases cs@.len() - i,
    {
        let ghost before = out@;
        let ghost t = s@.skip(i as int);
        assert(t.drop_first() =~= s@.skip(i + 1));
        assert(t[0] == cs@[i as int]);
        extend_chars(&mut out, rs.as_slice());
        out.push(cs[i]);
        assert(before + (r@ + seq![t[0]] + replace_all(t.drop_first(), Seq::<char>::empty(), r@))
            =~= out@ + replace_all(s@.skip(i + 1), Seq::<char>::empty(), r@));
        i += 1;
    }
    assert(s@.skip(i as int) =~= Seq::<char>::empty());
    extend_chars(&mut out, rs.as_slice());
    string_from_chars(out.as_slice())
}

/// `s` with every occurrence of `p` replaced by `r`, as `str::replace` does.
pub fn replace_all_str(s: &str, p: &str, r: &str) -> (out: String)
    ensures
        out@ == replace_all(s@, p@, r@),
{
    if p.is_empty() {
        assert(p@ =~= Seq::<char>::empty());
        return replace_empty(s, r);
    }
    replace_nonempty(s, p, r)
}

fn replace_nonempty(s: &str, p: &str, r: &str) -> (out: String)
    requires
        p@.len() > 0,
    ensures
        out@ == replace_all(s@, p@, r@),
{
    let cs = chars_of(s);
    let ps = chars_of(p);
    let rs = chars_of(r);
    let mut out: Vec<char> = Vec::new();
    let mut i: usize = 0;
    assert(s@.skip(0) =~= s@);
    while i < cs.len()
        invariant
            cs@ == s@,
            ps@ == p@,
            rs@ == r@,
            p@.len() > 0,
            i <= cs@.len(),
            out@ + replace_all(s@.skip(i as int), p@, r@) == replace_all(s@, p@, r@),
        decreases cs@.len() - i,
    {
        proof {
            lemma_replace_all_skip(s@, p@, r@, i as int);
        }
        if matches_at(cs.as_slice(), i, ps.as_slice()) {
            assert(occurs_at(s@.skip(i as int), p@, 0)) by {
                assert(s@.skip(i as int).subrange(0, p@.len() as int) =~= s@.subrange(
                    i as int,
                    i + p@.len(),
                ));
            }
            let mut k: usize = 0;
            let ghost before = out@;
            while k < rs.len()
                invariant
                    rs@ == r@,
                    k <= rs@.len(),
                    out@ == before + r@.take(k as int),
                decreases rs@.len() - k,
            {
                out.push(rs[k]);
                assert(r@.take(k as int).push(r@[k as int]) =~= r@.take(k + 1));
                k += 1;
            }
            assert(r@.take(r@.len() as int) =~= r@);
            assert(before + (r@ + replace_all(s@.skip(i + p@.len()), p@, r@)) =~= (before + r@)
                + replace_all(s@.skip(i + p@.len()), p@, r@));
            i = i + ps.len();
        } else {
            assert(!occurs_at(s@.skip(i as int), p@, 0)) by {
                if occurs_at(s@.skip(i as int), p@, 0) {
                    assert(s@.skip(i as int).subrange(0, p@.len() as int) =~= s@.subrange(
                        i as int,
                        i + p@.len(),
                    ));
                }
            }
            let ghost before = out@;
            out.push(cs[i]);
            assert(before + (seq![s@[i as int]] + replace_all(s@.skip(i + 1), p@, r@)) =~= before.push(
                s@[i as int],
            ) + replace_all(s@.skip(i + 1), p@, r@));
            i = i + 1;
        }
    }
    assert(s@.skip(i as int).len() == 0);
    assert(out@ + replace_all(s@.skip(i as int), p@, r@) =~= out@);
    string_from_chars(out.as_slice())
}

pub(crate) proof fn lemma_trim_end_char_prefix(s: Seq<char>, c: char, n: int)
    requires
        0 <= n <= s.len(),
        forall|k: int| n <= k < s.len() ==> s[k] == c,
    ensures
        trim_end_char(s, c) == trim_end_char(s.take(n), c),
    decreases s.len() - n,
{
    if n < s.len() {
        assert(s.drop_last() =~= s.take(s.len() - 1));
        lemma_trim_end_char_prefix(s.drop_last(), c, n);
        assert(s.drop_last().take(n) =~= s.take(n));
    } else {
        assert(s.take(n) =~= s);
    }
}

/// `s` without its trailing run of `c`.
pub fn trim_end_char_str(s: &str, c: char) -> (out: String)
    ensures
        out@ == trim_end_char(s@, c),
{
    let cs = chars_of(s);
    let mut n: usize = cs.len();
    while n > 0 && cs[n - 1] == c
        invariant
            cs@ == s@,
            n <= cs@.len(),
            forall|k: int| n <= k < cs@.len() ==> cs@[k] == c,
        decreases n,
    {
        n -= 1;
    }
    proof {
        lemma_trim_end_char_prefix(s@, c, n as int);
        let t = s@.take(n as int);
        if t.len() > 0 {
            assert(t.last() == cs@[n - 1]);
        }
    }
    string_from_chars(&cs.as_slice()[0..n])
}

proof fn lemma_trim_start_skip(s: Seq<char>, a: int)
    requires
        0 <= a <= s.len(),
        forall|k: int| 0 <= k < a ==> unicode_white_space(s[k]),
    ensures
        trim_start_ws(s) == trim_start_ws(s.skip(a)),
    decreases a,
{
    if a > 0 {
        assert(s.drop_first().skip(a - 1) =~= s.skip(a));
        lemma_trim_start_skip(s.drop_first(), a - 1);
    } else {
        assert(s.skip(0) =~= s);
    }
}

proof fn lemma_trim_end_take(s: Seq<char>, b: int)
    requires
        0 <= b <= s.len(),
        forall|k: int| b <= k < s.len() ==> unicode_white_space(s[k]),
    ensures
        trim_end_ws(s) == trim_end_ws(s.take(b)),
    decreases s.len() - b,
{
    if b < s.len() {
        assert(s.drop_last() =~= s.take(s.len() - 1));
        lemma_trim_end_take(s.drop_last(), b);
        assert(s.drop_last().take(b) =~= s.take(b));
    } else {
        assert(s.take(b) =~= s);
    }
}

/// `s` without leading and trailing white space.
pub fn trim_str(s: &str) -> (out: String)
    ensures
        out@ == trim_ws(s@),
{
    let cs = chars_of(s);
    let mut a: usize = 0;
    while a < cs.len() && is_white_space(cs[a])
        invariant
            cs@ == s@,
            a <= cs@.len(),
            forall|k: int| 0 <= k < a ==> unicode_white_space(cs@[k]),
        decreases cs@.len() - a,
    {
        a += 1;
    }
    let mut b: usize = cs.len();
    while b > a && is_white_space(cs[b - 1])
        invariant
            cs@ == s@,
            a <= b <= cs@.len(),
            forall|k: int| b <= k < cs@.len() ==> unicode_white_space(cs@[k]),
        decreases b,
    {
        b -= 1;
    }
    proof {
        lemma_trim_start_skip(s@, a as int);
        let t = s@.skip(a as int);
        if t.len() > 0 {
            assert(t[0] == cs@[a as int]);
        }
        assert(trim_start_ws(s@) == t);
        lemma_trim_end_take(t, b - a);
        let u = t.take(b - a);
        if u.len() > 0 {
            assert(u.last() == cs@[b - 1]);
        }
        assert(u =~= s@.subrange(a as int, b as int));
    }
    string_from_chars(&cs.as_slice()[a..b])
}

} // verus!
