//! The rendering pipeline: mustache-style substitution through the
//! template engine, empty-paragraph normalisation, newline conversion,
//! table wrapping, the presentation shell, and CSS inlining.

use vstd::prelude::*;
use crate::preprocess::{preprocess_tiptap_template, spec_preprocess};
use crate::text::{
    chars_to_string, gt_pos, push_all, spec_gt_pos, spec_is_ws, spec_replace_all, spec_ws_pos,
    str_to_chars, ws_pos,
};

verus! {

/// What the template engine renders for a template and a JSON data
/// document: a function of the two texts alone.
pub uninterp spec fn hb_rendered_of(tpl: Seq<char>, data_json: Seq<char>) -> Option<Seq<char>>;

/// Relies on `handlebars::Handlebars::render_template` with HTML
/// escaping disabled, on data decoded by `serde_json::from_str`:
/// whether rendering succeeds, and its output, depend on the template
/// and data texts alone.
#[verifier::external_body]
fn hb_render(tpl: &str, data_json: &str) -> (r: Option<String>)
    ensures
        r matches Some(out) ==> hb_rendered_of(tpl@, data_json@) == Some(out@),
        r is None ==> hb_rendered_of(tpl@, data_json@) is None,
{
    let data: serde_json::Value = match serde_json::from_str(data_json) {
        Ok(v) => v,
        Err(_) => return None,
    };
    let mut engine = handlebars::Handlebars::new();
    engine.register_escape_fn(handlebars::no_escape);
    engine.render_template(tpl, &data).ok()
}

/// What the CSS inliner makes of an HTML document when it succeeds: a
/// function of the document alone.
pub uninterp spec fn css_inlined_of(html: Seq<char>) -> Option<Seq<char>>;

/// Relies on `css_inline::CSSInliner::inline` with style tags stripped
/// and remote stylesheets refused: whether inlining succeeds, and its
/// output, depend on the document text alone.
#[verifier::external_body]
pub fn inline_css(html: &str) -> (r: Option<String>)
    ensures
        r matches Some(out) ==> css_inlined_of(html@) == Some(out@),
        r is None ==> css_inlined_of(html@) is None,
{
    let options = css_inline::InlineOptions {
        keep_style_tags: false,
        load_remote_stylesheets: false,
        ..Default::default()
    };
    let inliner = css_inline::CSSInliner::new(options);
    inliner.inline(html).ok()
}

/// Every newline becomes a `<br>`: paired newlines become two, a
/// remaining single one becomes one.
pub open spec fn spec_line_breaks(s: Seq<char>) -> Seq<char> {
    spec_replace_all(s, seq!['\n'], seq!['<', 'b', 'r', '>'])
}

/// Convert newlines to `<br>` tags so line spacing survives HTML
/// rendering.
pub fn preserve_line_breaks(html: &str) -> (r: String)
    ensures
        r@ == spec_line_breaks(html@),
{
    let sv = str_to_chars(html);
    let mut pat: Vec<char> = Vec::new();
    pat.push('\n');
    let mut rep: Vec<char> = Vec::new();
    rep.push('<');
    rep.push('b');
    rep.push('r');
    rep.push('>');
    proof {
        assert(pat@ =~= seq!['\n']);
        assert(rep@ =~= seq!['<', 'b', 'r', '>']);
    }
    let out = crate::text::replace_all(&sv, &pat, &rep);
    chars_to_string(&out)
}

/// The document shell placed before the rendered body.
pub const WRAP_HEAD: &'static str = "<!DOCTYPE html>\n<html>\n<head>\n<meta charset=\"utf-8\">\n<meta name=\"viewport\" content=\"width=device-width, initial-scale=1.0\">\n<style>\nbody { font-family: Arial, sans-serif; margin: 0; padding: 0; -webkit-text-size-adjust: 100%; -ms-text-size-adjust: 100%; line-height: 1.6; }\ntable { border-collapse: collapse; mso-table-lspace: 0pt; mso-table-rspace: 0pt; width: 100%; margin: 0 auto; }\nth, td { border: 1px solid #e5e7eb; text-align: left; font-size: 14px; padding: 8px; }\nth { background-color: #f9fafb; font-weight: 600; }\ntr:nth-child(even) { background-color: #f9fafb; }\nimg { max-width: 100%; height: auto; display: block; border: 0; outline: none; text-decoration: none; }\np { margin-top: 0; margin-bottom: 0.75em; min-height: 1em; }\n.preserve-line-breaks { white-space: pre-wrap; }\nblockquote { border-left: 3px solid #e1e4e9; padding-left: 1rem; margin: 1rem 0; font-style: italic; color: #6b7280; }\n.table-no-borders th, .table-no-borders td { border: none; }\na { color: blue; text-decoration: underline; }\n</style>\n</head>\n<body style=\"margin: 0; padding: 0; background-color: #f4f4f4;\">\n<table role=\"presentation\" style=\"width: 100%; border-collapse: collapse; border: 0; border-spacing: 0; background-color: #f4f4f4;\">\n<tr>\n<td align=\"center\" style=\"padding: 0;\">\n<table role=\"presentation\" style=\"width: 720px; max-width: 720px; border-collapse: collapse; border: 0; border-spacing: 0; background-color: #ffffff;\">\n<tr>\n<td style=\"padding: 20px;\">\n";

/// The footer placed after the rendered body.
pub const WRAP_TAIL: &'static str = "\n</td>\n</tr>\n</table>\n</td>\n</tr>\n</table>\n<table role=\"presentation\" border=\"0\" cellpadding=\"0\" cellspacing=\"0\" style=\"border-collapse:separate;width:100%\" width=\"100%\">\n<tbody>\n<tr>\n<td style=\"font-family:sans-serif;vertical-align:top;padding-bottom:10px;padding-top:10px;color:#999999;font-size:12px;text-align:center\" valign=\"top\" align=\"center\">\n<span style=\"color:#999999;font-size:12px;text-align:center\">Si tiene dudas o inquietudes,  por favor comun\u{ed}quese directamente con el comercio a trav\u{e9}s del contacto compartido</span>\n</td>\n</tr>\n<tr>\n<td style=\"font-family:sans-serif;vertical-align:top;padding-bottom:10px;padding-top:10px;color:#999999;font-size:12px;text-align:center\" valign=\"top\" align=\"center\">\n<span style=\"color:#999999;font-size:12px;text-align:center\">APEX - es una plataforma de cobro de cartera de BORLS S.A.S \u{a9} 2026 Todos los derechos reservados | <a href=\"https://apex.borls.com\" style=\"color:#999999;font-size:12px;text-align:center\" target=\"_blank\">https://apex.borls.com</a></span>\n</td>\n</tr>\n</tbody>\n</table>\n</body>\n</html>";

/// The rendered body shelled in the fixed presentation document.
pub open spec fn spec_wrap_with_styles(body: Seq<char>) -> Seq<char> {
    WRAP_HEAD@ + body + WRAP_TAIL@
}

/// Shell the rendered body in the presentation table with the fixed
/// stylesheet and footer.
pub fn wrap_with_styles(html_body: &str) -> (r: String)
    ensures
        r@ == spec_wrap_with_styles(html_body@),
{
    let mut s = String::new();
    s.append(WRAP_HEAD);
    s.append(html_body);
    s.append(WRAP_TAIL);
    s
}

/// An empty paragraph (`<p ...>` around only whitespace) standing at
/// the front of `t`: the consumed length and the bounds of the
/// attribute text.
pub open spec fn spec_empty_p(t: Seq<char>) -> Option<(nat, nat, nat)> {
    if t.len() >= 2 && t[0] == '<' && crate::preprocess::spec_ci(t[1], 'p') {
        let g = 2 + spec_gt_pos(t.skip(2)) as int;
        if g < t.len() {
            let w = g + 1 + spec_ws_pos(t.skip(g + 1)) as int;
            if w + 3 < t.len() && t[w] == '<' && t[w + 1] == '/' && crate::preprocess::spec_ci(
                t[w + 2],
                'p',
            ) && t[w + 3] == '>' {
                Some(((w + 4) as nat, 2 as nat, g as nat))
            } else {
                None
            }
        } else {
            None
        }
    } else {
        None
    }
}

/// Whether every character of `x` is whitespace.
pub open spec fn spec_all_ws(x: Seq<char>) -> bool {
    forall|j: int| 0 <= j < x.len() ==> spec_is_ws(#[trigger] x[j])
}

/// What an empty paragraph is replaced by: a non-breaking space keeps
/// the paragraph from collapsing, and whitespace-only attributes are
/// dropped.
pub open spec fn spec_p_replacement(attrs: Seq<char>) -> Seq<char> {
    if spec_all_ws(attrs) {
        "<p>&nbsp;</p>"@
    } else {
        "<p"@ + attrs + ">&nbsp;</p>"@
    }
}

/// `t` with every empty paragraph holding a non-breaking space.
pub open spec fn spec_fix_empty_paragraphs(t: Seq<char>) -> Seq<char>
    decreases t.len(),
{
    if t.len() == 0 {
        Seq::empty()
    } else {
        match spec_empty_p(t) {
            Some((end, a0, a1)) => {
                if 1 <= end <= t.len() && a0 <= a1 <= t.len() {
                    spec_p_replacement(t.subrange(a0 as int, a1 as int))
                        + spec_fix_empty_paragraphs(t.skip(end as int))
                } else {
                    seq![t[0]] + spec_fix_empty_paragraphs(t.skip(1))
                }
            }
            None => seq![t[0]] + spec_fix_empty_paragraphs(t.skip(1)),
        }
    }
}

fn range_all_ws(s: &Vec<char>, a: usize, b: usize) -> (r: bool)
    requires
        a <= b <= s@.len(),
    ensures
        r == spec_all_ws(s@.subrange(a as int, b as int)),
{
    let mut k: usize = a;
    while k < b
        invariant
            a <= k <= b <= s@.len(),
            forall|j: int| a <= j < k ==> spec_is_ws(#[trigger] s@[j]),
        decreases b - k,
    {
        if !crate::text::is_ws(s[k]) {
            assert(s@.subrange(a as int, b as int)[k - a] == s@[k as int]);
            return false;
        }
        k += 1;
    }
    assert forall|j: int| 0 <= j < b - a implies spec_is_ws(
        #[trigger] s@.subrange(a as int, b as int)[j],
    ) by {
        assert(s@.subrange(a as int, b as int)[j] == s@[a + j]);
    }
    true
}

fn empty_p_at(s: &Vec<char>, i: usize) -> (r: Option<(usize, usize, usize)>)
    requires
        i <= s@.len(),
    ensures
        r matches Some((end, a0, a1)) ==> {
            &&& spec_empty_p(s@.skip(i as int)) == Some(
                (((end - i) as nat), ((a0 - i) as nat), ((a1 - i) as nat)),
            )
            &&& i < end <= s@.len()
            &&& i <= a0 <= a1 <= end
        },
        r is None ==> spec_empty_p(s@.skip(i as int)) is None,
{
    let n: usize = s.len();
    let ghost u = s@.skip(i as int);
    if !(n - i >= 2 && s[i] == '<' && crate::preprocess::ci_char(s[i + 1], 'p')) {
        proof {
            if u.len() >= 2 {
                assert(u[0] == s@[i as int]);
                assert(u[1] == s@[i + 1]);
            }
        }
        return None;
    }
    proof {
        assert(u[0] == s@[i as int]);
        assert(u[1] == s@[i + 1]);
        assert(u.skip(2) =~= s@.skip(i + 2));
    }
    let g = gt_pos(s, i + 2);
    if !(g < n) {
        return None;
    }
    proof {
        assert(u.skip(g - i + 1) =~= s@.skip(g + 1));
    }
    let w = ws_pos(s, g + 1);
    if w < n && n - w >= 4 && s[w] == '<' && s[w + 1] == '/' && crate::preprocess::ci_char(
        s[w + 2],
        'p',
    ) && s[w + 3] == '>' {
        proof {
            assert(u[w - i] == s@[w as int]);
            assert(u[w - i + 1] == s@[w + 1]);
            assert(u[w - i + 2] == s@[w + 2]);
            assert(u[w - i + 3] == s@[w + 3]);
        }
        Some((w + 4, i + 2, g))
    } else {
        proof {
            if w - i < u.len() {
                assert(u[w - i] == s@[w as int]);
            }
            if w - i + 1 < u.len() {
                assert(u[w - i + 1] == s@[w + 1]);
            }
            if w - i + 2 < u.len() {
                assert(u[w - i + 2] == s@[w + 2]);
            }
            if w - i + 3 < u.len() {
                assert(u[w - i + 3] == s@[w + 3]);
            }
        }
        None
    }
}

/// Replace every empty `<p>...</p>` by a paragraph holding a
/// non-breaking space, so empty paragraphs do not collapse.
pub fn fix_empty_paragraphs(html: &str) -> (r: String)
    ensures
        r@ == spec_fix_empty_paragraphs(html@),
{
    let s = str_to_chars(html);
    let n: usize = s.len();
    let mut out: Vec<char> = Vec::new();
    let mut i: usize = 0;
    proof {
        assert(s@.skip(0) =~= s@);
    }
    while i < n
        invariant
            i <= n,
            n == s@.len(),
            out@ + spec_fix_empty_paragraphs(s@.skip(i as int)) == spec_fix_empty_paragraphs(s@),
        decreases n - i,
    {
        let ghost u = s@.skip(i as int);
        match empty_p_at(&s, i) {
            Some((end, a0, a1)) => {
                proof {
                    assert(u.subrange(a0 - i, a1 - i) =~= s@.subrange(a0 as int, a1 as int));
                    assert(u.skip(end - i) =~= s@.skip(end as int));
                }
                if range_all_ws(&s, a0, a1) {
                    let repl = str_to_chars("<p>&nbsp;</p>");
                    push_all(&mut out, &repl);
                } else {
                    let open = str_to_chars("<p");
                    push_all(&mut out, &open);
                    let attrs = crate::text::copy_range(&s, a0, a1);
                    push_all(&mut out, &attrs);
                    let close = str_to_chars(">&nbsp;</p>");
                    push_all(&mut out, &close);
                }
                i = end;
            }
            None => {
                proof {
                    assert(u[0] == s@[i as int]);
                    assert(u.skip(1) =~= s@.skip(i + 1));
                }
                out.push(s[i]);
                i += 1;
            }
        }
    }
    proof {
        assert(s@.skip(n as int) =~= Seq::<char>::empty());
    }
    chars_to_string(&out)
}

/// The characters of `tiptap-table`, the class the authoring tool puts
/// on invoice tables.
pub open spec fn spec_tiptap_class() -> Seq<char> {
    seq!['t', 'i', 'p', 't', 'a', 'p', '-', 't', 'a', 'b', 'l', 'e']
}

/// Case-insensitive occurrence of lowercase `pat` at `k` in `x`.
pub open spec fn spec_ci_match_at(x: Seq<char>, pat: Seq<char>, k: int) -> bool {
    0 <= k && k + pat.len() <= x.len() && forall|j: int|
        0 <= j < pat.len() ==> crate::preprocess::spec_ci(x[k + j], #[trigger] pat[j])
}

/// Case-insensitive containment of lowercase `pat` in `x`.
pub open spec fn spec_contains_ci(x: Seq<char>, pat: Seq<char>) -> bool {
    exists|k: int| spec_ci_match_at(x, pat, k)
}

/// A `<table ...>` open tag at the front of `t` carrying the invoice
/// table class: the consumed length of the tag.
pub open spec fn spec_table_tag(t: Seq<char>) -> Option<nat> {
    if t.len() >= 6 && t[0] == '<' && crate::preprocess::spec_ci(t[1], 't')
        && crate::preprocess::spec_ci(t[2], 'a') && crate::preprocess::spec_ci(t[3], 'b')
        && crate::preprocess::spec_ci(t[4], 'l') && crate::preprocess::spec_ci(t[5], 'e') {
        let g = 6 + spec_gt_pos(t.skip(6)) as int;
        if g < t.len() && spec_contains_ci(t.subrange(0, g + 1), spec_tiptap_class()) {
            Some(((g + 1) as nat))
        } else {
            None
        }
    } else {
        None
    }
}

/// Whether any invoice table tag occurs in `t`.
pub open spec fn spec_has_tiptap(t: Seq<char>) -> bool {
    exists|k: int| 0 <= k <= t.len() && spec_table_tag(#[trigger] t.skip(k)) is Some
}

/// The scroll container placed before each invoice table tag.
pub open spec fn spec_div_prefix() -> Seq<char> {
    "<div style=\"margin: 0 auto; overflow-x: auto;\">"@
}

/// Pass one of table enhancement: each invoice table tag gains a
/// scroll container before it.
pub open spec fn spec_wrap_open_tags(t: Seq<char>) -> Seq<char>
    decreases t.len(),
{
    if t.len() == 0 {
        Seq::empty()
    } else {
        match spec_table_tag(t) {
            Some(l) => {
                if 1 <= l <= t.len() {
                    spec_div_prefix() + t.subrange(0, l as int) + spec_wrap_open_tags(
                        t.skip(l as int),
                    )
                } else {
                    seq![t[0]] + spec_wrap_open_tags(t.skip(1))
                }
            }
            None => seq![t[0]] + spec_wrap_open_tags(t.skip(1)),
        }
    }
}

/// Whether a `</table>` close tag stands at the front of `t`,
/// case-insensitively.
pub open spec fn spec_close_table_at(t: Seq<char>) -> bool {
    t.len() >= 8 && t[0] == '<' && t[1] == '/' && crate::preprocess::spec_ci(t[2], 't')
        && crate::preprocess::spec_ci(t[3], 'a') && crate::preprocess::spec_ci(t[4], 'b')
        && crate::preprocess::spec_ci(t[5], 'l') && crate::preprocess::spec_ci(t[6], 'e') && t[7]
        == '>'
}

/// Pass two of table enhancement: each table close tag also closes the
/// scroll container.
pub open spec fn spec_close_tables(t: Seq<char>) -> Seq<char>
    decreases t.len(),
{
    if t.len() == 0 {
        Seq::empty()
    } else if spec_close_table_at(t) {
        "</table></div>"@ + spec_close_tables(t.skip(8))
    } else {
        seq![t[0]] + spec_close_tables(t.skip(1))
    }
}

/// The enhanced document: untouched unless some invoice table occurs,
/// else with every invoice table wrapped in a scroll container.
pub open spec fn spec_enhance_tables(t: Seq<char>) -> Seq<char> {
    if spec_has_tiptap(t) {
        spec_close_tables(spec_wrap_open_tags(t))
    } else {
        t
    }
}

fn table_tag_at(s: &Vec<char>, i: usize) -> (r: Option<usize>)
    requires
        i <= s@.len(),
    ensures
        r matches Some(l) ==> spec_table_tag(s@.skip(i as int)) == Some(((l - i) as nat)) && i < l
            <= s@.len(),
        r is None ==> spec_table_tag(s@.skip(i as int)) is None,
{
    let n: usize = s.len();
    let ghost u = s@.skip(i as int);
    if !(n - i >= 6 && s[i] == '<' && crate::preprocess::ci_char(s[i + 1], 't')
        && crate::preprocess::ci_char(s[i + 2], 'a') && crate::preprocess::ci_char(s[i + 3], 'b')
        && crate::preprocess::ci_char(s[i + 4], 'l') && crate::preprocess::ci_char(
        s[i + 5],
        'e',
    )) {
        proof {
            if u.len() >= 6 {
                assert(u[0] == s@[i as int]);
                assert(u[1] == s@[i + 1]);
                assert(u[2] == s@[i + 2]);
                assert(u[3] == s@[i + 3]);
                assert(u[4] == s@[i + 4]);
                assert(u[5] == s@[i + 5]);
            }
        }
        return None;
    }
    proof {
        assert(u[0] == s@[i as int]);
        assert(u[1] == s@[i + 1]);
        assert(u[2] == s@[i + 2]);
        assert(u[3] == s@[i + 3]);
        assert(u[4] == s@[i + 4]);
        assert(u[5] == s@[i + 5]);
        assert(u.skip(6) =~= s@.skip(i + 6));
    }
    let g = gt_pos(s, i + 6);
    if !(g < n) {
        return None;
    }
    let tag = crate::text::copy_range(s, i, g + 1);
    proof {
        assert(tag@ =~= u.subrange(0, g - i + 1));
    }
    if contains_ci_tiptap(&tag) {
        Some(g + 1)
    } else {
        None
    }
}

fn tiptap_class_chars() -> (r: Vec<char>)
    ensures
        r@ == spec_tiptap_class(),
{
    let mut v: Vec<char> = Vec::new();
    v.push('t');
    v.push('i');
    v.push('p');
    v.push('t');
    v.push('a');
    v.push('p');
    v.push('-');
    v.push('t');
    v.push('a');
    v.push('b');
    v.push('l');
    v.push('e');
    proof {
        assert(v@ =~= spec_tiptap_class());
    }
    v
}

fn contains_ci_tiptap(x: &Vec<char>) -> (r: bool)
    ensures
        r == spec_contains_ci(x@, spec_tiptap_class()),
{
    let pat = tiptap_class_chars();
    let n: usize = x.len();
    if pat.len() > n {
        assert(forall|k: int| !spec_ci_match_at(x@, spec_tiptap_class(), k));
        return false;
    }
    let mut k: usize = 0;
    while k <= n - pat.len()
        invariant
            pat@ == spec_tiptap_class(),
            pat@.len() <= n,
            n == x@.len(),
            k <= n - pat@.len() + 1,
            forall|m: int| 0 <= m < k ==> !spec_ci_match_at(x@, spec_tiptap_class(), m),
        decreases n - k,
    {
        let mut j: usize = 0;
        let mut all: bool = true;
        while j < pat.len() && all
            invariant
                pat@ == spec_tiptap_class(),
                k + pat@.len() <= n,
                n == x@.len(),
                j <= pat@.len(),
                all <==> forall|q: int|
                    0 <= q < j ==> crate::preprocess::spec_ci(x@[k + q], #[trigger] pat@[q]),
            decreases pat.len() - j,
        {
            let here = crate::preprocess::ci_char(x[k + j], pat[j]);
            if !here {
                assert(!crate::preprocess::spec_ci(x@[k + j], pat@[j as int]));
                all = false;
            }
            j += 1;
        }
        if all {
            assert(spec_ci_match_at(x@, spec_tiptap_class(), k as int));
            return true;
        }
        proof {
            assert(!spec_ci_match_at(x@, spec_tiptap_class(), k as int));
        }
        k += 1;
    }
    assert forall|m: int| !spec_ci_match_at(x@, spec_tiptap_class(), m) by {
        if 0 <= m && m + spec_tiptap_class().len() <= x@.len() {
            assert(m < k);
        }
    }
    false
}

fn close_table_at(s: &Vec<char>, i: usize) -> (r: bool)
    requires
        i <= s@.len(),
    ensures
        r == spec_close_table_at(s@.skip(i as int)),
{
    let n: usize = s.len();
    let ghost u = s@.skip(i as int);
    proof {
        if u.len() >= 8 {
            assert(u[0] == s@[i as int]);
            assert(u[1] == s@[i + 1]);
            assert(u[2] == s@[i + 2]);
            assert(u[3] == s@[i + 3]);
            assert(u[4] == s@[i + 4]);
            assert(u[5] == s@[i + 5]);
            assert(u[6] == s@[i + 6]);
            assert(u[7] == s@[i + 7]);
        }
    }
    n - i >= 8 && s[i] == '<' && s[i + 1] == '/' && crate::preprocess::ci_char(s[i + 2], 't')
        && crate::preprocess::ci_char(s[i + 3], 'a') && crate::preprocess::ci_char(s[i + 4], 'b')
        && crate::preprocess::ci_char(s[i + 5], 'l') && crate::preprocess::ci_char(s[i + 6], 'e')
        && s[i + 7] == '>'
}

/// Wrap invoice tables in a scrollable container; documents without an
/// invoice table pass through unchanged.
pub fn enhance_invoice_tables(html: &str) -> (r: String)
    ensures
        r@ == spec_enhance_tables(html@),
{
    let s = str_to_chars(html);
    let n: usize = s.len();
    let mut found: bool = false;
    let mut k: usize = 0;
    while k < n
        invariant
            k <= n,
            n == s@.len(),
            found ==> spec_has_tiptap(s@),
            !found ==> forall|m: int| 0 <= m < k ==> spec_table_tag(#[trigger] s@.skip(m)) is None,
        decreases n - k,
    {
        if !found {
            if table_tag_at(&s, k).is_some() {
                found = true;
            }
        }
        k += 1;
    }
    if !found {
        proof {
            assert forall|m: int| 0 <= m <= s@.len() implies spec_table_tag(
                #[trigger] s@.skip(m),
            ) is None by {
                if m == s@.len() {
                    assert(s@.skip(m).len() == 0);
                }
            }
        }
        return html.to_owned();
    }
    // Pass one: a scroll container before each invoice table tag.
    let mut out: Vec<char> = Vec::new();
    let mut i: usize = 0;
    proof {
        assert(s@.skip(0) =~= s@);
    }
    while i < n
        invariant
            i <= n,
            n == s@.len(),
            out@ + spec_wrap_open_tags(s@.skip(i as int)) == spec_wrap_open_tags(s@),
        decreases n - i,
    {
        let ghost u = s@.skip(i as int);
        match table_tag_at(&s, i) {
            Some(l) => {
                proof {
                    assert(u.subrange(0, l - i) =~= s@.subrange(i as int, l as int));
                    assert(u.skip(l - i) =~= s@.skip(l as int));
                }
                let prefix = str_to_chars("<div style=\"margin: 0 auto; overflow-x: auto;\">");
                push_all(&mut out, &prefix);
                let tag = crate::text::copy_range(&s, i, l);
                push_all(&mut out, &tag);
                i = l;
            }
            None => {
                proof {
                    assert(u[0] == s@[i as int]);
                    assert(u.skip(1) =~= s@.skip(i + 1));
                }
                out.push(s[i]);
                i += 1;
            }
        }
    }
    proof {
        assert(s@.skip(n as int) =~= Seq::<char>::empty());
    }
    // Pass two: each close tag also closes the container.
    let t = out;
    let tn: usize = t.len();
    let mut out2: Vec<char> = Vec::new();
    let mut i2: usize = 0;
    proof {
        assert(t@.skip(0) =~= t@);
    }
    while i2 < tn
        invariant
            i2 <= tn,
            tn == t@.len(),
            t@ == spec_wrap_open_tags(s@),
            out2@ + spec_close_tables(t@.skip(i2 as int)) == spec_close_tables(t@),
        decreases tn - i2,
    {
        let ghost u = t@.skip(i2 as int);
        if close_table_at(&t, i2) {
            proof {
                assert(u.skip(8) =~= t@.skip(i2 + 8));
            }
            let repl = str_to_chars("</table></div>");
            push_all(&mut out2, &repl);
            i2 += 8;
        } else {
            proof {
                assert(u[0] == t@[i2 as int]);
                assert(u.skip(1) =~= t@.skip(i2 + 1));
            }
            out2.push(t[i2]);
            i2 += 1;
        }
    }
    proof {
        assert(t@.skip(tn as int) =~= Seq::<char>::empty());
    }
    chars_to_string(&out2)
}

/// Render a template against a JSON data document: the template is
/// pre-processed, then substituted by the engine with escaping off.
pub fn render_template(template_str: &str, data_json: &str) -> (r: Option<String>)
    ensures
        r matches Some(out) ==> hb_rendered_of(spec_preprocess(template_str@), data_json@)
            == Some(out@),
        r is None ==> hb_rendered_of(spec_preprocess(template_str@), data_json@) is None,
{
    let processed = preprocess_tiptap_template(template_str);
    hb_render(processed.as_str(), data_json)
}

} // verus!
