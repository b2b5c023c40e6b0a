//! Template pre-processing: block-helper markers (`{{#...}}`,
//! `{{/...}}`, `{{!...}}`) that authoring tools wrap in single-cell
//! table rows are stripped out of their `<tr><td>...</td></tr>`
//! wrappers, and newline runs that precede a block helper are removed.

use vstd::prelude::*;
use crate::text::{
    chars_to_string, copy_range, gt_pos, push_all, spec_gt_pos, spec_is_ws, spec_ws_pos,
    str_to_chars, ws_pos,
};

verus! {

/// Case-insensitive match of one character against a lowercase letter.
pub open spec fn spec_ci(c: char, lower: char) -> bool {
    c == lower || (c as u32) + 32 == (lower as u32)
}

pub fn ci_char(c: char, lower: char) -> (r: bool)
    ensures
        r == spec_ci(c, lower),
{
    c == lower || (c as u32) + 32 == (lower as u32)
}

/// Characters that end a helper name.
pub open spec fn spec_is_stop(c: char) -> bool {
    c == '{' || c == '}' || c == '<' || c == '>'
}

/// Length of the prefix of `t` holding helper-name characters.
pub open spec fn spec_body_pos(t: Seq<char>) -> nat
    decreases t.len(),
{
    if t.len() > 0 && !spec_is_stop(t[0]) {
        1 + spec_body_pos(t.drop_first())
    } else {
        0
    }
}

fn body_pos(s: &Vec<char>, i: usize) -> (r: usize)
    requires
        i <= s@.len(),
    ensures
        i <= r <= s@.len(),
        r - i == spec_body_pos(s@.skip(i as int)),
{
    let n: usize = s.len();
    let mut j: usize = i;
    while j < n && !(s[j] == '{' || s[j] == '}' || s[j] == '<' || s[j] == '>')
        invariant
            i <= j <= n,
            n == s@.len(),
            spec_body_pos(s@.skip(i as int)) == (j - i) + spec_body_pos(s@.skip(j as int)),
        decreases n - j,
    {
        proof {
            assert(s@.skip(j as int)[0] == s@[j as int]);
            assert(s@.skip(j as int).drop_first() =~= s@.skip(j + 1));
        }
        j += 1;
    }
    proof {
        if j < n {
            assert(s@.skip(j as int)[0] == s@[j as int]);
        }
    }
    j
}

/// Length of a block-helper token (`{{#...}}`, `{{/...}}` or
/// `{{!...}}`) standing at the front of `t`, if one does.
pub open spec fn spec_helper_at(t: Seq<char>) -> Option<nat> {
    if t.len() >= 5 && t[0] == '{' && t[1] == '{' && (t[2] == '#' || t[2] == '/' || t[2] == '!') {
        let b = 3 + spec_body_pos(t.skip(3)) as int;
        if b > 3 && b + 1 < t.len() && t[b] == '}' && t[b + 1] == '}' {
            Some(((b + 2) as nat))
        } else {
            None
        }
    } else {
        None
    }
}

fn helper_at(s: &Vec<char>, i: usize) -> (r: Option<usize>)
    requires
        i <= s@.len(),
    ensures
        r matches Some(e) ==> spec_helper_at(s@.skip(i as int)) == Some(((e - i) as nat)) && i < e
            <= s@.len(),
        r is None ==> spec_helper_at(s@.skip(i as int)) is None,
{
    let n: usize = s.len();
    let ghost u = s@.skip(i as int);
    if n - i >= 5 && s[i] == '{' && s[i + 1] == '{' && (s[i + 2] == '#' || s[i + 2] == '/' || s[i
        + 2] == '!') {
        proof {
            assert(u[0] == s@[i as int]);
            assert(u[1] == s@[i + 1]);
            assert(u[2] == s@[i + 2]);
        }
        let b = body_pos(s, i + 3);
        proof {
            assert(u.skip(3) =~= s@.skip(i + 3));
        }
        if b > i + 3 && b < n && n - b >= 2 && s[b] == '}' && s[b + 1] == '}' {
            proof {
                assert(u[b - i] == s@[b as int]);
                assert(u[b - i + 1] == s@[b + 1]);
            }
            Some(b + 2)
        } else {
            proof {
                if b - i < u.len() {
                    assert(u[b - i] == s@[b as int]);
                }
                if b - i + 1 < u.len() {
                    assert(u[b - i + 1] == s@[b + 1]);
                }
            }
            None
        }
    } else {
        proof {
            if u.len() >= 5 {
                assert(u[0] == s@[i as int]);
                assert(u[1] == s@[i + 1]);
                assert(u[2] == s@[i + 2]);
            }
        }
        None
    }
}

/// Length of the run of whitespace-separated wrapper tags at the front
/// of `t`.
pub open spec fn spec_skip_wrappers(t: Seq<char>) -> nat
    decreases t.len(),
{
    let w = spec_ws_pos(t) as int;
    if w < t.len() && t[w] == '<' {
        let g = w + 1 + spec_gt_pos(t.skip(w + 1)) as int;
        if g < t.len() && g > w + 1 {
            ((g + 1) + spec_skip_wrappers(t.skip(g + 1))) as nat
        } else {
            0
        }
    } else {
        0
    }
}

fn skip_wrappers(s: &Vec<char>, i: usize) -> (r: usize)
    requires
        i <= s@.len(),
    ensures
        i <= r <= s@.len(),
        r - i == spec_skip_wrappers(s@.skip(i as int)),
    decreases s@.len() - i,
{
    let n: usize = s.len();
    let mut j: usize = i;
    loop
        invariant
            i <= j <= n,
            n == s@.len(),
            spec_skip_wrappers(s@.skip(i as int)) == (j - i) + spec_skip_wrappers(
                s@.skip(j as int),
            ),
        decreases n - j,
    {
        let ghost u = s@.skip(j as int);
        let w = ws_pos(s, j);
        if w < n && s[w] == '<' {
            proof {
                assert(u[w - j] == s@[w as int]);
            }
            let g = gt_pos(s, w + 1);
            proof {
                assert(u.skip(w - j + 1) =~= s@.skip(w + 1));
            }
            if g < n && g > w + 1 {
                proof {
                    assert(u[g - j] == s@[g as int]);
                    assert(u.skip(g - j + 1) =~= s@.skip(g + 1));
                    assert(spec_skip_wrappers(u) == (g + 1 - j) + spec_skip_wrappers(
                        s@.skip(g + 1),
                    ));
                }
                j = g + 1;
            } else {
                proof {
                    if g - j < u.len() {
                        assert(u[g - j] == s@[g as int]);
                    }
                    assert(spec_skip_wrappers(u) == 0);
                }
                return j;
            }
        } else {
            proof {
                if w - j < u.len() {
                    assert(u[w - j] == s@[w as int]);
                }
                assert(spec_skip_wrappers(u) == 0);
            }
            return j;
        }
    }
}

/// Whether a tag body spells `td`, case-insensitively.
pub open spec fn spec_is_td(x: Seq<char>) -> bool {
    x.len() == 2 && spec_ci(x[0], 't') && spec_ci(x[1], 'd')
}

/// Length consumed by a run of whitespace-separated tags ending with
/// the first closing `</td>` tag, if the run reaches one.
pub open spec fn spec_tags_until_td(t: Seq<char>) -> Option<nat>
    decreases t.len(),
{
    let w = spec_ws_pos(t) as int;
    if w + 1 < t.len() && t[w] == '<' {
        if t[w + 1] == '/' {
            let g = w + 2 + spec_gt_pos(t.skip(w + 2)) as int;
            if g < t.len() && g > w + 2 {
                if spec_is_td(t.subrange(w + 2, g)) {
                    Some(((g + 1)) as nat)
                } else {
                    match spec_tags_until_td(t.skip(g + 1)) {
                        Some(m) => Some(((g + 1) + m) as nat),
                        None => None,
                    }
                }
            } else {
                None
            }
        } else {
            let g = w + 1 + spec_gt_pos(t.skip(w + 1)) as int;
            if g < t.len() && g > w + 1 {
                match spec_tags_until_td(t.skip(g + 1)) {
                    Some(m) => Some(((g + 1) + m) as nat),
                    None => None,
                }
            } else {
                None
            }
        }
    } else {
        None
    }
}

fn tags_until_td(s: &Vec<char>, i: usize) -> (r: Option<usize>)
    requires
        i <= s@.len(),
    ensures
        r matches Some(e) ==> spec_tags_until_td(s@.skip(i as int)) == Some(((e - i) as nat)) && i
            < e <= s@.len(),
        r is None ==> spec_tags_until_td(s@.skip(i as int)) is None,
{
    let n: usize = s.len();
    let mut j: usize = i;
    loop
        invariant
            i <= j <= n,
            n == s@.len(),
            spec_tags_until_td(s@.skip(i as int)) is Some <==> spec_tags_until_td(
                s@.skip(j as int),
            ) is Some,
            spec_tags_until_td(s@.skip(j as int)) is Some ==> spec_tags_until_td(
                s@.skip(i as int),
            )->0 == (j - i) + spec_tags_until_td(s@.skip(j as int))->0,
        decreases n - j,
    {
        let ghost u = s@.skip(j as int);
        let w = ws_pos(s, j);
        if w < n && n - w >= 2 && s[w] == '<' {
            proof {
                assert(u[w - j] == s@[w as int]);
                assert(u[w - j + 1] == s@[w + 1]);
            }
            if s[w + 1] == '/' {
                let g = gt_pos(s, w + 2);
                proof {
                    assert(u.skip(w - j + 2) =~= s@.skip(w + 2));
                }
                if g < n && g > w + 2 {
                    proof {
                        assert(u[g - j] == s@[g as int]);
                    }
                    let is_td = g - (w + 2) == 2 && ci_char(s[w + 2], 't') && ci_char(s[w + 3], 'd');
                    proof {
                        assert(u.subrange(w - j + 2, g - j) =~= s@.subrange(w + 2, g as int));
                        if g - (w + 2) == 2 {
                            assert(s@.subrange(w + 2, g as int).len() == 2);
                            assert(s@.subrange(w + 2, g as int)[0] == s@[w + 2]);
                            assert(s@.subrange(w + 2, g as int)[1] == s@[w + 3]);
                        }
                    }
                    if is_td {
                        proof {
                            assert(spec_tags_until_td(u) == Some(((g + 1 - j)) as nat));
                        }
                        return Some(g + 1);
                    } else {
                        proof {
                            assert(u.skip(g - j + 1) =~= s@.skip(g + 1));
                        }
                        j = g + 1;
                    }
                } else {
                    proof {
                        if g - j < u.len() {
                            assert(u[g - j] == s@[g as int]);
                        }
                        assert(spec_tags_until_td(u) is None);
                    }
                    return None;
                }
            } else {
                let g = gt_pos(s, w + 1);
                proof {
                    assert(u.skip(w - j + 1) =~= s@.skip(w + 1));
                }
                if g < n && g > w + 1 {
                    proof {
                        assert(u[g - j] == s@[g as int]);
                        assert(u.skip(g - j + 1) =~= s@.skip(g + 1));
                    }
                    j = g + 1;
                } else {
                    proof {
                        if g - j < u.len() {
                            assert(u[g - j] == s@[g as int]);
                        }
                        assert(spec_tags_until_td(u) is None);
                    }
                    return None;
                }
            }
        } else {
            proof {
                if w - j < u.len() {
                    assert(u[w - j] == s@[w as int]);
                }
                if w - j + 1 < u.len() {
                    assert(u[w - j + 1] == s@[w + 1]);
                }
                assert(spec_tags_until_td(u) is None);
            }
            return None;
        }
    }
}

/// Length consumed by one empty-ish sibling cell
/// (`<td...>...</td>`), if one stands at the front of `t`.
pub open spec fn spec_cell_unit(t: Seq<char>) -> Option<nat> {
    let w = spec_ws_pos(t) as int;
    if w + 2 < t.len() && t[w] == '<' && spec_ci(t[w + 1], 't') && spec_ci(t[w + 2], 'd') {
        let g = w + 3 + spec_gt_pos(t.skip(w + 3)) as int;
        if g < t.len() {
            match spec_tags_until_td(t.skip(g + 1)) {
                Some(m) => Some(((g + 1) + m) as nat),
                None => None,
            }
        } else {
            None
        }
    } else {
        None
    }
}

fn cell_unit(s: &Vec<char>, i: usize) -> (r: Option<usize>)
    requires
        i <= s@.len(),
    ensures
        r matches Some(e) ==> spec_cell_unit(s@.skip(i as int)) == Some(((e - i) as nat)) && i < e
            <= s@.len(),
        r is None ==> spec_cell_unit(s@.skip(i as int)) is None,
{
    let n: usize = s.len();
    let ghost u = s@.skip(i as int);
    let w = ws_pos(s, i);
    if w < n && n - w >= 3 && s[w] == '<' && ci_char(s[w + 1], 't') && ci_char(s[w + 2], 'd') {
        proof {
            assert(u[w - i] == s@[w as int]);
            assert(u[w - i + 1] == s@[w + 1]);
            assert(u[w - i + 2] == s@[w + 2]);
        }
        let g = gt_pos(s, w + 3);
        proof {
            assert(u.skip(w - i + 3) =~= s@.skip(w + 3));
        }
        if g < n {
            proof {
                assert(u.skip(g - i + 1) =~= s@.skip(g + 1));
            }
            match tags_until_td(s, g + 1) {
                Some(e) => Some(e),
                None => None,
            }
        } else {
            None
        }
    } else {
        proof {
            if w - i < u.len() {
                assert(u[w - i] == s@[w as int]);
            }
            if w - i + 1 < u.len() {
                assert(u[w - i + 1] == s@[w + 1]);
            }
            if w - i + 2 < u.len() {
                assert(u[w - i + 2] == s@[w + 2]);
            }
        }
        None
    }
}

/// Length consumed by the run of sibling cells at the front of `t`.
pub open spec fn spec_cells(t: Seq<char>) -> nat
    decreases t.len(),
{
    match spec_cell_unit(t) {
        Some(u) => if 1 <= u <= t.len() {
            (u + spec_cells(t.skip(u as int))) as nat
        } else {
            0
        },
        None => 0,
    }
}

fn cells(s: &Vec<char>, i: usize) -> (r: usize)
    requires
        i <= s@.len(),
    ensures
        i <= r <= s@.len(),
        r - i == spec_cells(s@.skip(i as int)),
{
    let n: usize = s.len();
    let mut j: usize = i;
    loop
        invariant
            i <= j <= n,
            n == s@.len(),
            spec_cells(s@.skip(i as int)) == (j - i) + spec_cells(s@.skip(j as int)),
        decreases n - j,
    {
        let ghost u = s@.skip(j as int);
        match cell_unit(s, j) {
            Some(e) => {
                proof {
                    assert(u.skip(e - j) =~= s@.skip(e as int));
                    assert(spec_cells(u) == (e - j) + spec_cells(s@.skip(e as int)));
                }
                j = e;
            }
            None => {
                proof {
                    assert(spec_cells(u) == 0);
                }
                return j;
            }
        }
    }
}

/// A single-cell helper wrapper row at the front of `t`: the consumed
/// length, and the bounds of the helper token inside it.
pub open spec fn spec_tr_match(t: Seq<char>) -> Option<(nat, nat, nat)> {
    if t.len() >= 4 && t[0] == '<' && spec_ci(t[1], 't') && spec_ci(t[2], 'r') {
        let g1 = 3 + spec_gt_pos(t.skip(3)) as int;
        if g1 < t.len() {
            let w1 = g1 + 1 + spec_ws_pos(t.skip(g1 + 1)) as int;
            if w1 + 2 < t.len() && t[w1] == '<' && spec_ci(t[w1 + 1], 't') && spec_ci(
                t[w1 + 2],
                'd',
            ) {
                let g2 = w1 + 3 + spec_gt_pos(t.skip(w1 + 3)) as int;
                if g2 < t.len() {
                    let p = g2 + 1 + spec_skip_wrappers(t.skip(g2 + 1)) as int;
                    if p <= t.len() {
                        let h = p + spec_ws_pos(t.skip(p)) as int;
                        if h <= t.len() {
                            match spec_helper_at(t.skip(h)) {
                                Some(hl) => {
                                    let e = h + hl as int;
                                    if e <= t.len() {
                                        match spec_tags_until_td(t.skip(e)) {
                                            Some(m) => {
                                                let c0 = e + m as int;
                                                if c0 <= t.len() {
                                                    let c = c0 + spec_cells(t.skip(c0)) as int;
                                                    if c <= t.len() {
                                                        let w = c + spec_ws_pos(t.skip(c)) as int;
                                                        if w + 4 < t.len() && t[w] == '<' && t[w
                                                            + 1] == '/' && spec_ci(t[w + 2], 't')
                                                            && spec_ci(t[w + 3], 'r') && t[w + 4]
                                                            == '>' {
                                                            Some(
                                                                (
                                                                    (w + 5) as nat,
                                                                    h as nat,
                                                                    e as nat,
                                                                ),
                                                            )
                                                        } else {
                                                            None
                                                        }
                                                    } else {
                                                        None
                                                    }
                                                } else {
                                                    None
                                                }
                                            }
                                            None => None,
                                        }
                                    } else {
                                        None
                                    }
                                }
                                None => None,
                            }
                        } else {
                            None
                        }
                    } else {
                        None
                    }
                } else {
                    None
                }
            } else {
                None
            }
        } else {
            None
        }
    } else {
        None
    }
}

#[verifier::rlimit(100)]
fn tr_match(s: &Vec<char>, i: usize) -> (r: Option<(usize, usize, usize)>)
    requires
        i <= s@.len(),
    ensures
        r matches Some((end, hs, he)) ==> {
            &&& spec_tr_match(s@.skip(i as int)) == Some(
                (((end - i) as nat), ((hs - i) as nat), ((he - i) as nat)),
            )
            &&& i < end <= s@.len()
            &&& i <= hs <= he <= end
        },
        r is None ==> spec_tr_match(s@.skip(i as int)) is None,
{
    let n: usize = s.len();
    let ghost u = s@.skip(i as int);
    if !(n - i >= 4 && s[i] == '<' && ci_char(s[i + 1], 't') && ci_char(s[i + 2], 'r')) {
        proof {
            if u.len() >= 4 {
                assert(u[0] == s@[i as int]);
                assert(u[1] == s@[i + 1]);
                assert(u[2] == s@[i + 2]);
            }
        }
        return None;
    }
    proof {
        assert(u[0] == s@[i as int]);
        assert(u[1] == s@[i + 1]);
        assert(u[2] == s@[i + 2]);
        assert(u.skip(3) =~= s@.skip(i + 3));
    }
    let g1 = gt_pos(s, i + 3);
    if !(g1 < n) {
        return None;
    }
    proof {
        assert(u.skip(g1 - i + 1) =~= s@.skip(g1 + 1));
    }
    let w1 = ws_pos(s, g1 + 1);
    if !(w1 < n && n - w1 >= 3 && s[w1] == '<' && ci_char(s[w1 + 1], 't') && ci_char(s[w1 + 2], 'd')) {
        proof {
            if w1 - i < u.len() {
                assert(u[w1 - i] == s@[w1 as int]);
            }
            if w1 - i + 1 < u.len() {
                assert(u[w1 - i + 1] == s@[w1 + 1]);
            }
            if w1 - i + 2 < u.len() {
                assert(u[w1 - i + 2] == s@[w1 + 2]);
            }
        }
        return None;
    }
    proof {
        assert(u[w1 - i] == s@[w1 as int]);
        assert(u[w1 - i + 1] == s@[w1 + 1]);
        assert(u[w1 - i + 2] == s@[w1 + 2]);
        assert(u.skip(w1 - i + 3) =~= s@.skip(w1 + 3));
    }
    let g2 = gt_pos(s, w1 + 3);
    if !(g2 < n) {
        return None;
    }
    proof {
        assert(u.skip(g2 - i + 1) =~= s@.skip(g2 + 1));
    }
    let p = skip_wrappers(s, g2 + 1);
    proof {
        assert(u.skip(p - i) =~= s@.skip(p as int));
    }
    let h = ws_pos(s, p);
    proof {
        assert(u.skip(h - i) =~= s@.skip(h as int));
    }
    let e = match helper_at(s, h) {
        Some(e) => e,
        None => {
            return None;
        }
    };
    proof {
        assert(u.skip(e - i) =~= s@.skip(e as int));
    }
    let m = match tags_until_td(s, e) {
        Some(m) => m,
        None => {
            return None;
        }
    };
    proof {
        assert(u.skip(m - i) =~= s@.skip(m as int));
    }
    let c = cells(s, m);
    proof {
        assert(u.skip(c - i) =~= s@.skip(c as int));
    }
    let w = ws_pos(s, c);
    if w < n && n - w >= 5 && s[w] == '<' && s[w + 1] == '/' && ci_char(s[w + 2], 't') && ci_char(
        s[w + 3],
        'r',
    ) && s[w + 4] == '>' {
        proof {
            assert(u[w - i] == s@[w as int]);
            assert(u[w - i + 1] == s@[w + 1]);
            assert(u[w - i + 2] == s@[w + 2]);
            assert(u[w - i + 3] == s@[w + 3]);
            assert(u[w - i + 4] == s@[w + 4]);
        }
        Some((w + 5, h, e))
    } else {
        proof {
            if w - i < u.len() {
                assert(u[w - i] == s@[w as int]);
            }
            if w - i + 1 < u.len() {
                assert(u[w - i + 1] == s@[w + 1]);
            }
            if w - i + 2 < u.len() {
                assert(u[w - i + 2] == s@[w + 2]);
            }
            if w - i + 3 < u.len() {
                assert(u[w - i + 3] == s@[w + 3]);
            }
            if w - i + 4 < u.len() {
                assert(u[w - i + 4] == s@[w + 4]);
            }
        }
        None
    }
}

/// `t` with every single-cell helper wrapper row replaced by its bare
/// helper token.
pub open spec fn spec_strip_rows(t: Seq<char>) -> Seq<char>
    decreases t.len(),
{
    if t.len() == 0 {
        Seq::empty()
    } else {
        match spec_tr_match(t) {
            Some((end, hs, he)) => {
                if 1 <= end <= t.len() && hs <= he <= t.len() {
                    t.subrange(hs as int, he as int) + spec_strip_rows(t.skip(end as int))
                } else {
                    seq![t[0]] + spec_strip_rows(t.skip(1))
                }
            }
            None => seq![t[0]] + spec_strip_rows(t.skip(1)),
        }
    }
}

fn strip_rows(s: &Vec<char>) -> (r: Vec<char>)
    ensures
        r@ == spec_strip_rows(s@),
{
    let n: usize = s.len();
    let mut out: Vec<char> = Vec::new();
    let mut i: usize = 0;
    proof {
        assert(s@.skip(0) =~= s@);
    }
    while i < n
        invariant
            i <= n,
            n == s@.len(),
            out@ + spec_strip_rows(s@.skip(i as int)) == spec_strip_rows(s@),
        decreases n - i,
    {
        let ghost u = s@.skip(i as int);
        match tr_match(s, i) {
            Some((end, hs, he)) => {
                proof {
                    assert(u.subrange(hs - i, he - i) =~= s@.subrange(hs as int, he as int));
                    assert(u.skip(end - i) =~= s@.skip(end as int));
                }
                let token = copy_range(s, hs, he);
                push_all(&mut out, &token);
                i = end;
            }
            None => {
                proof {
                    assert(u[0] == s@[i as int]);
                    assert(u.skip(1) =~= s@.skip(i + 1));
                }
                out.push(s[i]);
                i += 1;
            }
        }
    }
    proof {
        assert(s@.skip(n as int) =~= Seq::<char>::empty());
    }
    out
}

/// Length of the newline run at the front of `t`.
pub open spec fn spec_nl_run(t: Seq<char>) -> nat
    decreases t.len(),
{
    if t.len() > 0 && t[0] == '\n' {
        1 + spec_nl_run(t.drop_first())
    } else {
        0
    }
}

/// Whether a block-helper opening or closing marker stands at the
/// front of `t`.
pub open spec fn spec_marker_at(t: Seq<char>) -> bool {
    t.len() >= 3 && t[0] == '{' && t[1] == '{' && (t[2] == '#' || t[2] == '/')
}

/// `t` with every newline run that directly precedes a block-helper
/// marker removed.
pub open spec fn spec_collapse_newlines(t: Seq<char>) -> Seq<char>
    decreases t.len(),
{
    if t.len() == 0 {
        Seq::empty()
    } else if t[0] == '\n' {
        let j = spec_nl_run(t) as int;
        if 1 <= j <= t.len() && spec_marker_at(t.skip(j)) {
            spec_collapse_newlines(t.skip(j))
        } else {
            seq![t[0]] + spec_collapse_newlines(t.skip(1))
        }
    } else {
        seq![t[0]] + spec_collapse_newlines(t.skip(1))
    }
}

fn nl_run(s: &Vec<char>, i: usize) -> (r: usize)
    requires
        i <= s@.len(),
    ensures
        i <= r <= s@.len(),
        r - i == spec_nl_run(s@.skip(i as int)),
{
    let n: usize = s.len();
    let mut j: usize = i;
    while j < n && s[j] == '\n'
        invariant
            i <= j <= n,
            n == s@.len(),
            spec_nl_run(s@.skip(i as int)) == (j - i) + spec_nl_run(s@.skip(j as int)),
        decreases n - j,
    {
        proof {
            assert(s@.skip(j as int)[0] == s@[j as int]);
            assert(s@.skip(j as int).drop_first() =~= s@.skip(j + 1));
        }
        j += 1;
    }
    proof {
        if j < n {
            assert(s@.skip(j as int)[0] == s@[j as int]);
        }
    }
    j
}

fn marker_at(s: &Vec<char>, i: usize) -> (r: bool)
    requires
        i <= s@.len(),
    ensures
        r == spec_marker_at(s@.skip(i as int)),
{
    let n: usize = s.len();
    let ghost u = s@.skip(i as int);
    if n - i >= 3 && s[i] == '{' && s[i + 1] == '{' && (s[i + 2] == '#' || s[i + 2] == '/') {
        proof {
            assert(u[0] == s@[i as int]);
            assert(u[1] == s@[i + 1]);
            assert(u[2] == s@[i + 2]);
        }
        true
    } else {
        proof {
            if u.len() >= 3 {
                assert(u[0] == s@[i as int]);
                assert(u[1] == s@[i + 1]);
                assert(u[2] == s@[i + 2]);
            }
        }
        false
    }
}

fn collapse_newlines(s: &Vec<char>) -> (r: Vec<char>)
    ensures
        r@ == spec_collapse_newlines(s@),
{
    let n: usize = s.len();
    let mut out: Vec<char> = Vec::new();
    let mut i: usize = 0;
    proof {
        assert(s@.skip(0) =~= s@);
    }
    while i < n
        invariant
            i <= n,
            n == s@.len(),
            out@ + spec_collapse_newlines(s@.skip(i as int)) == spec_collapse_newlines(s@),
        decreases n - i,
    {
        let ghost u = s@.skip(i as int);
        proof {
            assert(u[0] == s@[i as int]);
            assert(u.skip(1) =~= s@.skip(i + 1));
        }
        if s[i] == '\n' {
            let j = nl_run(s, i);
            proof {
                assert(u.skip(j - i) =~= s@.skip(j as int));
            }
            if marker_at(s, j) {
                i = j;
            } else {
                out.push(s[i]);
                i += 1;
            }
        } else {
            out.push(s[i]);
            i += 1;
        }
    }
    proof {
        assert(s@.skip(n as int) =~= Seq::<char>::empty());
    }
    out
}

/// Bounds and content of the newline run at the front of `t`.
proof fn lemma_nl_run_props(t: Seq<char>)
    ensures
        spec_nl_run(t) <= t.len(),
        spec_nl_run(t) < t.len() ==> t[spec_nl_run(t) as int] != '\n',
        forall|i: int| 0 <= i < spec_nl_run(t) ==> t[i] == '\n',
    decreases t.len(),
{
    if t.len() > 0 && t[0] == '\n' {
        lemma_nl_run_props(t.drop_first());
        let j = spec_nl_run(t);
        assert(j == 1 + spec_nl_run(t.drop_first()));
        assert forall|i: int| 0 <= i < j implies t[i] == '\n' by {
            if i > 0 {
                assert(t.drop_first()[i - 1] == t[i]);
            }
        }
        if j < t.len() {
            assert(t.drop_first()[j - 1] == t[j as int]);
        }
    }
}

/// The first character survives collapsing when it is not a newline.
proof fn lemma_collapse_first(t: Seq<char>)
    requires
        t.len() > 0,
        t[0] != '\n',
    ensures
        spec_collapse_newlines(t).len() > 0,
        spec_collapse_newlines(t)[0] == t[0],
{
}

/// Collapsing newline runs cannot create a block-helper marker where
/// none stood.
proof fn lemma_collapse_no_marker(t: Seq<char>)
    requires
        !spec_marker_at(t),
        t.len() == 0 || t[0] != '\n',
    ensures
        !spec_marker_at(spec_collapse_newlines(t)),
{
    if t.len() == 0 {
        return ;
    }
    let c = spec_collapse_newlines(t);
    let r1 = t.skip(1);
    let c1 = spec_collapse_newlines(r1);
    assert(c == seq![t[0]] + c1);
    if spec_marker_at(c) {
        assert(c[0] == t[0]);
        assert(t[0] == '{');
        assert(c1.len() >= 2);
        assert(c[1] == c1[0]);
        assert(c[2] == c1[1]);
        assert(r1.len() > 0);
        if r1[0] == '\n' {
            let j = spec_nl_run(r1);
            lemma_nl_run_props(r1);
            if 1 <= j <= r1.len() && spec_marker_at(r1.skip(j as int)) {
                let v = r1.skip(j as int);
                assert(c1 == spec_collapse_newlines(v));
                assert(v[0] == '{');
                lemma_collapse_first(v);
                assert(c1[0] == '{');
                let v1 = v.skip(1);
                assert(v1[0] == v[1]);
                assert(v1[0] == '{');
                lemma_collapse_first(v1);
                assert(c1 == seq![v[0]] + spec_collapse_newlines(v1));
                assert(c1[1] == spec_collapse_newlines(v1)[0]);
                assert(c[2] == '{');
                assert(false);
            } else {
                assert(c1 == seq![r1[0]] + spec_collapse_newlines(r1.skip(1)));
                assert(c[1] == '\n');
                assert(false);
            }
        } else {
            let r2 = r1.skip(1);
            let c2 = spec_collapse_newlines(r2);
            assert(c1 == seq![r1[0]] + c2);
            assert(c1[0] == r1[0]);
            assert(r1[0] == t[1]);
            assert(t[1] == '{');
            assert(c[2] == c2[0]);
            assert(r2.len() > 0);
            if r2[0] == '\n' {
                let j2 = spec_nl_run(r2);
                lemma_nl_run_props(r2);
                if 1 <= j2 <= r2.len() && spec_marker_at(r2.skip(j2 as int)) {
                    let v = r2.skip(j2 as int);
                    assert(c2 == spec_collapse_newlines(v));
                    assert(v[0] == '{');
                    lemma_collapse_first(v);
                    assert(c[2] == '{');
                    assert(false);
                } else {
                    assert(c2 == seq![r2[0]] + spec_collapse_newlines(r2.skip(1)));
                    assert(c[2] == '\n');
                    assert(false);
                }
            } else {
                assert(c2 == seq![r2[0]] + spec_collapse_newlines(r2.skip(1)));
                assert(c2[0] == r2[0]);
                assert(r2[0] == t[2]);
                assert(t.len() >= 3);
                assert(spec_marker_at(t));
                assert(false);
            }
        }
    }
}

/// A newline run whose end is no helper marker is kept whole: the
/// collapse distributes past it.
proof fn lemma_collapse_run(t: Seq<char>)
    requires
        t.len() > 0,
        t[0] == '\n',
        !spec_marker_at(t.skip(spec_nl_run(t) as int)),
    ensures
        spec_collapse_newlines(t) == t.take(spec_nl_run(t) as int) + spec_collapse_newlines(
            t.skip(spec_nl_run(t) as int),
        ),
    decreases t.len(),
{
    let j = spec_nl_run(t);
    lemma_nl_run_props(t);
    let r1 = t.skip(1);
    assert(t.drop_first() =~= r1);
    assert(j == 1 + spec_nl_run(r1));
    assert(spec_collapse_newlines(t) == seq![t[0]] + spec_collapse_newlines(r1));
    if j == 1 {
        assert(r1 =~= t.skip(1));
        assert(t.take(1) =~= seq![t[0]]);
        assert(spec_collapse_newlines(t) =~= t.take(1) + spec_collapse_newlines(t.skip(1)));
    } else {
        assert(r1[0] == t[1]);
        assert(r1[0] == '\n');
        assert(r1.skip(spec_nl_run(r1) as int) =~= t.skip(j as int));
        lemma_collapse_run(r1);
        assert(spec_collapse_newlines(t) =~= t.take(j as int) + spec_collapse_newlines(
            t.skip(j as int),
        )) by {
            assert(seq![t[0]] + (r1.take(spec_nl_run(r1) as int) + spec_collapse_newlines(
                r1.skip(spec_nl_run(r1) as int),
            )) =~= t.take(j as int) + spec_collapse_newlines(t.skip(j as int)));
        }
    }
}

/// The newline run of a run followed by something else is exactly the
/// run.
proof fn lemma_nl_run_concat(a: Seq<char>, b: Seq<char>)
    requires
        forall|i: int| 0 <= i < a.len() ==> a[i] == '\n',
        b.len() == 0 || b[0] != '\n',
    ensures
        spec_nl_run(a + b) == a.len(),
    decreases a.len(),
{
    if a.len() == 0 {
        assert(a + b =~= b);
    } else {
        assert((a + b)[0] == a[0]);
        assert((a + b).drop_first() =~= a.drop_first() + b);
        lemma_nl_run_concat(a.drop_first(), b);
    }
}

/// Newline-normalisation law: removing the newline runs that stand
/// before block-helper markers is idempotent — collapsing an already
/// collapsed template changes nothing.
pub proof fn lemma_collapse_newlines_idempotent(t: Seq<char>)
    ensures
        spec_collapse_newlines(spec_collapse_newlines(t)) == spec_collapse_newlines(t),
    decreases t.len(),
{
    if t.len() == 0 {
        return ;
    }
    if t[0] == '\n' {
        let j = spec_nl_run(t);
        lemma_nl_run_props(t);
        if spec_marker_at(t.skip(j as int)) {
            assert(spec_collapse_newlines(t) == spec_collapse_newlines(t.skip(j as int)));
            lemma_collapse_newlines_idempotent(t.skip(j as int));
        } else {
            lemma_collapse_run(t);
            let rest = t.skip(j as int);
            let cr = spec_collapse_newlines(rest);
            lemma_collapse_no_marker(rest);
            lemma_collapse_newlines_idempotent(rest);
            let ct = spec_collapse_newlines(t);
            assert(ct == t.take(j as int) + cr);
            if cr.len() > 0 {
                lemma_collapse_first(rest);
            }
            assert(forall|i: int| 0 <= i < j ==> t.take(j as int)[i] == '\n');
            lemma_nl_run_concat(t.take(j as int), cr);
            assert(spec_nl_run(ct) == j);
            assert(ct[0] == '\n');
            assert(ct.skip(j as int) =~= cr);
            assert(!spec_marker_at(ct.skip(spec_nl_run(ct) as int)));
            lemma_collapse_run(ct);
            assert(ct.take(j as int) =~= t.take(j as int));
            assert(spec_collapse_newlines(ct) =~= ct);
        }
    } else {
        let r1 = t.skip(1);
        lemma_collapse_newlines_idempotent(r1);
        let ct = spec_collapse_newlines(t);
        assert(ct == seq![t[0]] + spec_collapse_newlines(r1));
        assert(ct[0] == t[0]);
        assert(ct.len() > 0);
        assert(ct.skip(1) =~= spec_collapse_newlines(r1));
        assert(spec_collapse_newlines(ct) == seq![ct[0]] + spec_collapse_newlines(ct.skip(1)));
        assert(spec_collapse_newlines(ct) =~= ct);
    }
}

/// The whole pre-processing pass: helper wrapper rows stripped, then
/// helper-adjacent newline runs removed.
pub open spec fn spec_preprocess(t: Seq<char>) -> Seq<char> {
    spec_collapse_newlines(spec_strip_rows(t))
}

/// Row stripping leaves a text without `'<'` untouched: every wrapper
/// row starts with a tag.
proof fn lemma_strip_rows_without_tags(t: Seq<char>)
    requires
        forall|i: int| 0 <= i < t.len() ==> t[i] != '<',
    ensures
        spec_strip_rows(t) == t,
    decreases t.len(),
{
    if t.len() > 0 {
        assert(spec_tr_match(t) is None);
        assert forall|i: int| 0 <= i < t.skip(1).len() implies t.skip(1)[i] != '<' by {
            assert(t.skip(1)[i] == t[i + 1]);
        }
        lemma_strip_rows_without_tags(t.skip(1));
        assert(spec_strip_rows(t) =~= t);
    }
}

/// Partial idempotence of the whole pass: a template whose
/// pre-processed form holds no `'<'` — as when a wrapper row strips
/// down to its bare helper — is a fixed point of pre-processing.
pub proof fn lemma_preprocess_idempotent_without_tags(t: Seq<char>)
    requires
        forall|i: int|
            0 <= i < spec_preprocess(t).len() ==> #[trigger] spec_preprocess(t)[i] != '<',
    ensures
        spec_preprocess(spec_preprocess(t)) == spec_preprocess(t),
{
    let u = spec_preprocess(t);
    lemma_strip_rows_without_tags(u);
    lemma_collapse_newlines_idempotent(spec_strip_rows(t));
}

/// Strip single-cell helper wrapper rows and normalise helper-adjacent
/// newlines in a template.
pub fn preprocess_tiptap_template(template_str: &str) -> (r: String)
    ensures
        r@ == spec_preprocess(template_str@),
{
    let sv = str_to_chars(template_str);
    let stripped = strip_rows(&sv);
    let collapsed = collapse_newlines(&stripped);
    chars_to_string(&collapsed)
}

} // verus!
