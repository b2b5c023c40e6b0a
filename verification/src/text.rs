//! Character-level plumbing shared by the rendering and formatting code:
//! bridges between `&str` and `Vec<char>`, case folding, and decimal
//! digit strings.

use vstd::prelude::*;

verus! {

/// The characters of `s`, in order.
///
/// Relies on `str::chars` and `Iterator::collect`: collecting a string's
/// character iterator yields exactly its characters.
#[verifier::external_body]
pub fn str_to_chars(s: &str) -> (r: Vec<char>)
    ensures
        r@ == s@,
{
    s.chars().collect()
}

/// The string spelled by the characters of `v`, in order.
///
/// Relies on `FromIterator<char> for String`: collecting characters
/// builds the string holding exactly those characters.
#[verifier::external_body]
pub fn chars_to_string(v: &Vec<char>) -> (r: String)
    ensures
        r@ == v@,
{
    v.iter().collect()
}

/// The Unicode lowercase folding of a string, a function of its
/// characters alone.
pub uninterp spec fn lower_of(s: Seq<char>) -> Seq<char>;

/// Relies on `str::to_lowercase`: the result is determined by the
/// characters of the input alone, per the Unicode lowercase mapping.
#[verifier::external_body]
pub fn lowercase(s: &str) -> (r: String)
    ensures
        r@ == lower_of(s@),
{
    s.to_lowercase()
}

/// The decimal digits of `n`, most significant first, no sign and no
/// leading zero (a single `'0'` for zero).
pub open spec fn spec_digits(n: int) -> Seq<char>
    recommends
        n >= 0,
    decreases n,
{
    if n < 10 {
        seq![spec_digit_char(if n < 0 { 0 } else { n })]
    } else {
        spec_digits(n / 10) + seq![spec_digit_char(n % 10)]
    }
}

/// The character for one decimal digit.
pub open spec fn spec_digit_char(d: int) -> char
    recommends
        0 <= d < 10,
{
    ((48 + d) as u8) as char
}

fn digit_char(d: u64) -> (r: char)
    requires
        d < 10,
    ensures
        r == spec_digit_char(d as int),
{
    (48 + d as u8) as char
}

/// The decimal digit characters of `n`.
pub fn u64_digits(n: u64) -> (r: Vec<char>)
    ensures
        r@ == spec_digits(n as int),
    decreases n,
{
    if n < 10 {
        let mut v: Vec<char> = Vec::new();
        v.push(digit_char(n));
        assert(v@ =~= spec_digits(n as int));
        v
    } else {
        let mut v = u64_digits(n / 10);
        v.push(digit_char(n % 10));
        assert(v@ =~= spec_digits(n as int));
        v
    }
}

/// The decimal string of `n`.
pub fn u64_to_string(n: u64) -> (r: String)
    ensures
        r@ == spec_digits(n as int),
{
    let v = u64_digits(n);
    chars_to_string(&v)
}

/// Whether `pat` occurs in `s` starting at `i`.
pub open spec fn spec_match_at(s: Seq<char>, pat: Seq<char>, i: int) -> bool {
    0 <= i && i + pat.len() <= s.len() && s.subrange(i, i + pat.len()) == pat
}

/// Whether `pat` occurs anywhere in `s`.
pub open spec fn spec_contains(s: Seq<char>, pat: Seq<char>) -> bool {
    exists|i: int| spec_match_at(s, pat, i)
}

pub fn match_at(s: &Vec<char>, pat: &Vec<char>, i: usize) -> (r: bool)
    requires
        i <= s@.len(),
    ensures
        r == spec_match_at(s@, pat@, i as int),
{
    let n: usize = s.len();
    if pat.len() > n - i {
        return false;
    }
    let mut k: usize = 0;
    while k < pat.len()
        invariant
            k <= pat@.len(),
            n == s@.len(),
            i + pat@.len() <= n,
            forall|j: int| 0 <= j < k ==> s@[i + j] == pat@[j],
        decreases pat.len() - k,
    {
        proof {
            assert(i + k < n);
        }
        if s[i + k] != pat[k] {
            assert(s@.subrange(i as int, i + pat@.len())[k as int] != pat@[k as int]);
            return false;
        }
        k += 1;
    }
    assert(s@.subrange(i as int, i + pat@.len()) =~= pat@);
    true
}

/// Whether `pat` occurs anywhere in `s`.
pub fn contains_sub(s: &Vec<char>, pat: &Vec<char>) -> (r: bool)
    ensures
        r == spec_contains(s@, pat@),
{
    let mut i: usize = 0;
    while i < s.len()
        invariant
            i <= s@.len(),
            forall|j: int| 0 <= j < i ==> !spec_match_at(s@, pat@, j),
        decreases s.len() - i,
    {
        if match_at(s, pat, i) {
            return true;
        }
        i += 1;
    }
    if match_at(s, pat, s.len()) {
        return true;
    }
    assert forall|j: int| !spec_match_at(s@, pat@, j) by {
        if 0 <= j < s@.len() {
        } else if j == s@.len() {
        }
    }
    false
}

/// Append every character of `piece` to `out`.
pub fn push_all(out: &mut Vec<char>, piece: &Vec<char>)
    ensures
        final(out)@ == old(out)@ + piece@,
{
    let mut k: usize = 0;
    while k < piece.len()
        invariant
            k <= piece@.len(),
            out@ == old(out)@ + piece@.take(k as int),
        decreases piece.len() - k,
    {
        out.push(piece[k]);
        proof {
            assert(old(out)@ + piece@.take(k + 1) =~= (old(out)@ + piece@.take(k as int)).push(
                piece@[k as int],
            ));
        }
        k += 1;
    }
    proof {
        assert(piece@.take(piece@.len() as int) =~= piece@);
    }
}

/// `s` with every occurrence of `pat` replaced by `rep`, scanning left
/// to right without overlap.
pub open spec fn spec_replace_all(s: Seq<char>, pat: Seq<char>, rep: Seq<char>) -> Seq<char>
    recommends
        pat.len() >= 1,
    decreases s.len(),
{
    if s.len() == 0 {
        Seq::empty()
    } else if pat.len() >= 1 && spec_match_at(s, pat, 0) {
        rep + spec_replace_all(s.skip(pat.len() as int), pat, rep)
    } else {
        seq![s[0]] + spec_replace_all(s.skip(1), pat, rep)
    }
}

/// Replace every occurrence of `pat` in `s` by `rep`, scanning left to
/// right without overlap.
pub fn replace_all(s: &Vec<char>, pat: &Vec<char>, rep: &Vec<char>) -> (r: Vec<char>)
    requires
        pat@.len() >= 1,
    ensures
        r@ == spec_replace_all(s@, pat@, rep@),
{
    let mut out: Vec<char> = Vec::new();
    let mut i: usize = 0;
    proof {
        assert(s@.skip(0) =~= s@);
    }
    while i < s.len()
        invariant
            i <= s@.len(),
            pat@.len() >= 1,
            out@ + spec_replace_all(s@.skip(i as int), pat@, rep@) == spec_replace_all(
                s@,
                pat@,
                rep@,
            ),
        decreases s.len() - i,
    {
        let rest_len: usize = s.len() - i;
        if match_at(s, pat, i) {
            proof {
                assert(s@.skip(i as int).subrange(0, pat@.len() as int) =~= s@.subrange(
                    i as int,
                    i + pat@.len(),
                ));
                assert(spec_match_at(s@.skip(i as int), pat@, 0));
                assert(s@.skip(i as int).skip(pat@.len() as int) =~= s@.skip(i + pat@.len()));
            }
            push_all(&mut out, rep);
            i += pat.len();
        } else {
            proof {
                if spec_match_at(s@.skip(i as int), pat@, 0) {
                    assert(s@.subrange(i as int, i + pat@.len()) =~= s@.skip(i as int).subrange(
                        0,
                        pat@.len() as int,
                    ));
                    assert(false);
                }
                assert(s@.skip(i as int)[0] == s@[i as int]);
                assert(s@.skip(i as int).skip(1) =~= s@.skip(i + 1));
            }
            out.push(s[i]);
            i += 1;
        }
    }
    proof {
        assert(s@.skip(s@.len() as int) =~= Seq::<char>::empty());
    }
    out
}

/// Replace every occurrence of `pat` in `s` by `rep`, on strings.
pub fn replace_all_str(s: &str, pat: &str, rep: &str) -> (r: String)
    requires
        pat@.len() >= 1,
    ensures
        r@ == spec_replace_all(s@, pat@, rep@),
{
    let sv = str_to_chars(s);
    let pv = str_to_chars(pat);
    let rv = str_to_chars(rep);
    let out = replace_all(&sv, &pv, &rv);
    chars_to_string(&out)
}

/// Whether a character counts as whitespace for the scanners: space,
/// tab, carriage return or newline.
pub open spec fn spec_is_ws(c: char) -> bool {
    c == ' ' || c == '\t' || c == '\r' || c == '\n'
}

pub fn is_ws(c: char) -> (r: bool)
    ensures
        r == spec_is_ws(c),
{
    c == ' ' || c == '\t' || c == '\r' || c == '\n'
}

/// Length of the prefix of `t` before its first `'>'`.
pub open spec fn spec_gt_pos(t: Seq<char>) -> nat
    decreases t.len(),
{
    if t.len() > 0 && t[0] != '>' {
        1 + spec_gt_pos(t.drop_first())
    } else {
        0
    }
}

/// Length of the whitespace prefix of `t`.
pub open spec fn spec_ws_pos(t: Seq<char>) -> nat
    decreases t.len(),
{
    if t.len() > 0 && spec_is_ws(t[0]) {
        1 + spec_ws_pos(t.drop_first())
    } else {
        0
    }
}

/// First position at or after `i` holding `'>'`, or the length of `s`.
pub fn gt_pos(s: &Vec<char>, i: usize) -> (r: usize)
    requires
        i <= s@.len(),
    ensures
        i <= r <= s@.len(),
        r - i == spec_gt_pos(s@.skip(i as int)),
        r < s@.len() ==> s@[r as int] == '>',
{
    let n: usize = s.len();
    let mut j: usize = i;
    while j < n && s[j] != '>'
        invariant
            i <= j <= n,
            n == s@.len(),
            spec_gt_pos(s@.skip(i as int)) == (j - i) + spec_gt_pos(s@.skip(j as int)),
        decreases n - j,
    {
        proof {
            assert(s@.skip(j as int)[0] == s@[j as int]);
            assert(s@.skip(j as int).drop_first() =~= s@.skip(j + 1));
        }
        j += 1;
    }
    proof {
        if j < n {
            assert(s@.skip(j as int)[0] == s@[j as int]);
        }
    }
    j
}

/// First position at or after `i` holding a non-whitespace character,
/// or the length of `s`.
pub fn ws_pos(s: &Vec<char>, i: usize) -> (r: usize)
    requires
        i <= s@.len(),
    ensures
        i <= r <= s@.len(),
        r - i == spec_ws_pos(s@.skip(i as int)),
        r < s@.len() ==> !spec_is_ws(s@[r as int]),
{
    let n: usize = s.len();
    let mut j: usize = i;
    while j < n && is_ws(s[j])
        invariant
            i <= j <= n,
            n == s@.len(),
            spec_ws_pos(s@.skip(i as int)) == (j - i) + spec_ws_pos(s@.skip(j as int)),
        decreases n - j,
    {
        proof {
            assert(s@.skip(j as int)[0] == s@[j as int]);
            assert(s@.skip(j as int).drop_first() =~= s@.skip(j + 1));
        }
        j += 1;
    }
    proof {
        if j < n {
            assert(s@.skip(j as int)[0] == s@[j as int]);
        }
    }
    j
}

/// Copy `s[a..b]` into a fresh vector.
pub fn copy_range(s: &Vec<char>, a: usize, b: usize) -> (r: Vec<char>)
    requires
        a <= b <= s@.len(),
    ensures
        r@ == s@.subrange(a as int, b as int),
{
    let mut r: Vec<char> = Vec::new();
    let mut k: usize = a;
    while k < b
        invariant
            a <= k <= b <= s@.len(),
            r@ == s@.subrange(a as int, k as int),
        decreases b - k,
    {
        r.push(s[k]);
        proof {
            assert(s@.subrange(a as int, k + 1) =~= s@.subrange(a as int, k as int).push(
                s@[k as int],
            ));
        }
        k += 1;
    }
    r
}

} // verus!
