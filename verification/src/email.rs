//! Building outgoing emails: the rendering context, the full HTML
//! pipeline, the sender header, provider selection, tracking-pixel
//! injection, and the provider payload helpers.

use vstd::prelude::*;
use crate::currency::{format_currency, spec_format_currency};
use crate::json::{context_json, invoices_view, pairs_view, spec_context_json};
use crate::models::{Attachment, CollectionClient, CustomData, EmailMessage, EmailTemplate, Invoice};
use crate::render::{
    enhance_invoice_tables, fix_empty_paragraphs, inline_css, preserve_line_breaks,
    render_template, wrap_with_styles, css_inlined_of, hb_rendered_of, spec_enhance_tables,
    spec_fix_empty_paragraphs, spec_line_breaks, spec_wrap_with_styles,
};
use crate::preprocess::spec_preprocess;
use crate::text::{
    chars_to_string, copy_range, lower_of, lowercase, replace_all_str, spec_is_ws,
    spec_replace_all, spec_ws_pos, str_to_chars,
};

verus! {

/// The email provider chosen by configuration.
#[derive(Clone, Copy, Debug, PartialEq, Eq, Structural)]
pub enum ProviderKind {
    Ses,
    Brevo,
}

/// Select a provider from the configuration string: `brevo` in any
/// case selects Brevo, anything else the default provider.
pub fn provider_for(config: &str) -> (r: ProviderKind)
    ensures
        r == ProviderKind::Brevo <==> lower_of(config@) == "brevo"@,
{
    let folded = lowercase(config);
    if folded == "brevo".to_owned() {
        ProviderKind::Brevo
    } else {
        ProviderKind::Ses
    }
}

/// `t` without trailing whitespace.
pub open spec fn spec_trim_end(t: Seq<char>) -> Seq<char>
    decreases t.len(),
{
    if t.len() > 0 && spec_is_ws(t.last()) {
        spec_trim_end(t.drop_last())
    } else {
        t
    }
}

/// `t` without leading or trailing whitespace.
pub open spec fn spec_trim(t: Seq<char>) -> Seq<char> {
    spec_trim_end(t.skip(spec_ws_pos(t) as int))
}

fn trim_chars(s: &Vec<char>, a: usize, b: usize) -> (r: Vec<char>)
    requires
        a <= b <= s@.len(),
    ensures
        r@ == spec_trim(s@.subrange(a as int, b as int)),
{
    let ghost u = s@.subrange(a as int, b as int);
    proof {
        assert(u =~= s@.subrange(a as int, b as int));
    }
    let mut start: usize = a;
    while start < b && crate::text::is_ws(s[start])
        invariant
            a <= start <= b <= s@.len(),
            spec_ws_pos(u) == (start - a) + spec_ws_pos(s@.subrange(start as int, b as int)),
        decreases b - start,
    {
        proof {
            let cur = s@.subrange(start as int, b as int);
            assert(cur[0] == s@[start as int]);
            assert(cur.drop_first() =~= s@.subrange(start + 1, b as int));
        }
        start += 1;
    }
    proof {
        let cur = s@.subrange(start as int, b as int);
        if start < b {
            assert(cur[0] == s@[start as int]);
        }
        assert(spec_ws_pos(cur) == 0);
        assert(u.skip(spec_ws_pos(u) as int) =~= s@.subrange(start as int, b as int));
    }
    let mut e: usize = b;
    while e > start && crate::text::is_ws(s[e - 1])
        invariant
            start <= e <= b <= s@.len(),
            spec_trim_end(s@.subrange(start as int, b as int)) == spec_trim_end(
                s@.subrange(start as int, e as int),
            ),
        decreases e,
    {
        proof {
            let cur = s@.subrange(start as int, e as int);
            assert(cur.last() == s@[e - 1]);
            assert(cur.drop_last() =~= s@.subrange(start as int, e - 1));
        }
        e -= 1;
    }
    proof {
        let cur = s@.subrange(start as int, e as int);
        if cur.len() > 0 {
            assert(cur.last() == s@[e - 1]);
        }
        assert(spec_trim_end(cur) == cur);
    }
    copy_range(s, start, e)
}

/// First `'<'` at or after `i`, or the length of `s`.
fn find_lt(s: &Vec<char>, i: usize) -> (r: usize)
    requires
        i <= s@.len(),
    ensures
        i <= r <= s@.len(),
        forall|j: int| i <= j < r ==> s@[j] != '<',
        r < s@.len() ==> s@[r as int] == '<',
{
    let n: usize = s.len();
    let mut j: usize = i;
    while j < n && s[j] != '<'
        invariant
            i <= j <= n,
            n == s@.len(),
            forall|k: int| i <= k < j ==> s@[k] != '<',
        decreases n - j,
    {
        j += 1;
    }
    j
}

/// First `'>'` at or after `i`, or the length of `s`.
fn find_gt_from(s: &Vec<char>, i: usize) -> (r: usize)
    requires
        i <= s@.len(),
    ensures
        i <= r <= s@.len(),
        forall|j: int| i <= j < r ==> s@[j] != '>',
        r < s@.len() ==> s@[r as int] == '>',
{
    let n: usize = s.len();
    let mut j: usize = i;
    while j < n && s[j] != '>'
        invariant
            i <= j <= n,
            n == s@.len(),
            forall|k: int| i <= k < j ==> s@[k] != '>',
        decreases n - j,
    {
        j += 1;
    }
    j
}

/// A parsed sender: display name and address.
#[derive(Clone, Debug)]
pub struct Sender {
    pub name: String,
    pub email: String,
}

/// Whether `from` has the bracketed shape `Name <address>`: a `'<'`
/// followed later by a `'>'`.
pub open spec fn spec_bracketed(from: Seq<char>) -> bool {
    exists|i: int, j: int|
        0 <= i < j < from.len() && from[i] == '<' && from[j] == '>' && (forall|k: int|
            0 <= k < i ==> from[k] != '<') && (forall|k: int| i < k < j ==> from[k] != '>')
}

/// Split a sender of the shape `Name <address>` into its display name
/// and address, both trimmed; anything else serves as both name and
/// address.
pub fn parse_sender(from: &str) -> (r: Sender)
    ensures
        spec_bracketed(from@) ==> exists|i: int, j: int|
            {
                &&& 0 <= i < j < from@.len()
                &&& from@[i] == '<'
                &&& from@[j] == '>'
                &&& r.name@ == spec_trim(from@.subrange(0, i))
                &&& r.email@ == spec_trim(from@.subrange(i + 1, j))
            },
        !spec_bracketed(from@) ==> r.name@ == from@ && r.email@ == from@,
{
    let s = str_to_chars(from);
    let n: usize = s.len();
    let i = find_lt(&s, 0);
    if i < n {
        let j = find_gt_from(&s, i + 1);
        if j < n {
            proof {
                assert(spec_bracketed(s@));
            }
            let name = trim_chars(&s, 0, i);
            let email = trim_chars(&s, i + 1, j);
            return Sender { name: chars_to_string(&name), email: chars_to_string(&email) };
        }
        proof {
            assert forall|a: int, b: int|
                !(0 <= a < b < s@.len() && s@[a] == '<' && s@[b] == '>' && (forall|k: int|
                    0 <= k < a ==> s@[k] != '<') && (forall|k: int|
                    a < k < b ==> s@[k] != '>')) by {
                if 0 <= a < b < s@.len() && s@[a] == '<' && (forall|k: int|
                    0 <= k < a ==> s@[k] != '<') {
                    assert(a == i);
                }
            }
        }
        return Sender { name: from.to_owned(), email: from.to_owned() };
    }
    proof {
        assert forall|a: int, b: int|
            !(0 <= a < b < s@.len() && s@[a] == '<' && s@[b] == '>' && (forall|k: int|
                0 <= k < a ==> s@[k] != '<') && (forall|k: int| a < k < b ==> s@[k] != '>')) by {
            if 0 <= a < s@.len() && s@[a] == '<' {
            }
        }
    }
    Sender { name: from.to_owned(), email: from.to_owned() }
}

/// The sender header for a business: its display name with the fixed
/// collection mailbox.
pub fn from_header(business_name: &str) -> (r: String)
    ensures
        r@ == business_name@ + " - Cartera <notify@borls.com>"@,
{
    let mut s = String::new();
    s.append(business_name);
    s.append(" - Cartera <notify@borls.com>");
    assert(s@ =~= business_name@ + " - Cartera <notify@borls.com>"@);
    s
}

/// The tracking pixel for a recipient, aimed at the open-tracking
/// endpoint.
pub open spec fn spec_pixel(
    tracking_url: Seq<char>,
    client_id: Seq<char>,
    execution_id: Seq<char>,
    message_id: Seq<char>,
) -> Seq<char> {
    "<img src=\""@ + tracking_url + "/api/track/open?client_id="@ + client_id + "&execution_id="@
        + execution_id + "&message_id="@ + message_id
        + "\" alt=\"\" width=\"1\" height=\"1\" style=\"display:none;\" />"@
}

/// Inject an open-tracking pixel into an HTML document, before the
/// closing body tag when one exists, else before the closing html tag,
/// else at the end.  Without both a recipient and an execution the
/// document passes through unchanged.
pub fn inject_tracking_pixel(
    html: &str,
    tracking_url: &str,
    client_id: Option<&str>,
    execution_id: Option<&str>,
    message_id: Option<&str>,
) -> (r: String)
    ensures
        (client_id is None || execution_id is None) ==> r@ == html@,
        (client_id is Some && execution_id is Some) ==> {
            let pixel = spec_pixel(
                tracking_url@,
                client_id->0@,
                execution_id->0@,
                if message_id is Some {
                    message_id->0@
                } else {
                    Seq::<char>::empty()
                },
            );
            if crate::text::spec_contains(html@, "</body>"@) {
                r@ == spec_replace_all(html@, "</body>"@, pixel + "</body>"@)
            } else if crate::text::spec_contains(html@, "</html>"@) {
                r@ == spec_replace_all(html@, "</html>"@, pixel + "</html>"@)
            } else {
                r@ == html@ + pixel
            }
        },
{
    let cid = match client_id {
        Some(c) => c,
        None => {
            return html.to_owned();
        }
    };
    let eid = match execution_id {
        Some(e) => e,
        None => {
            return html.to_owned();
        }
    };
    let mid = match message_id {
        Some(m) => m,
        None => "",
    };
    proof {
        reveal_strlit("");
    }
    let mut pixel = String::new();
    pixel.append("<img src=\"");
    pixel.append(tracking_url);
    pixel.append("/api/track/open?client_id=");
    pixel.append(cid);
    pixel.append("&execution_id=");
    pixel.append(eid);
    pixel.append("&message_id=");
    pixel.append(mid);
    pixel.append("\" alt=\"\" width=\"1\" height=\"1\" style=\"display:none;\" />");
    proof {
        assert(pixel@ =~= spec_pixel(tracking_url@, cid@, eid@, mid@));
    }
    let hv = str_to_chars(html);
    let body_pat = str_to_chars("</body>");
    let html_pat = str_to_chars("</html>");
    proof {
        reveal_strlit("</body>");
        reveal_strlit("</html>");
    }
    if crate::text::contains_sub(&hv, &body_pat) {
        let mut rep = pixel.clone();
        rep.append("</body>");
        proof {
            assert(rep@ =~= pixel@ + "</body>"@);
        }
        return replace_all_str(html, "</body>", rep.as_str());
    }
    if crate::text::contains_sub(&hv, &html_pat) {
        let mut rep = pixel.clone();
        rep.append("</html>");
        proof {
            assert(rep@ =~= pixel@ + "</html>"@);
        }
        return replace_all_str(html, "</html>", rep.as_str());
    }
    let mut out = html.to_owned();
    out.append(pixel.as_str());
    out
}

/// Pass a document through while recording the tracking parameters;
/// tracking itself rides on the provider's configuration set, so the
/// document is returned unchanged.
pub fn add_client_tracking(
    html: &str,
    client_id: Option<&str>,
    execution_id: Option<&str>,
    message_id: Option<&str>,
) -> (r: String)
    ensures
        r@ == html@,
{
    let _ = client_id;
    let _ = execution_id;
    let _ = message_id;
    html.to_owned()
}

/// One optional pair of the rendering context.
pub open spec fn spec_opt_pair(key: Seq<char>, v: Option<String>) -> Seq<(Seq<char>, Seq<char>)> {
    match v {
        Some(s) => seq![(key, s@)],
        None => Seq::empty(),
    }
}

/// The recipient's display name for rendering, with its fallback.
pub open spec fn spec_fallback_name(client: CollectionClient) -> Seq<char> {
    match client.custom_data {
        Some(cd) => match cd.full_name {
            Some(n) => n@,
            None => "Cliente"@,
        },
        None => "Cliente"@,
    }
}

/// The view of a list of string pairs.
pub open spec fn spec_fields_view(v: Seq<(String, String)>) -> Seq<(Seq<char>, Seq<char>)> {
    Seq::new(v.len(), |i: int| (v[i].0@, v[i].1@))
}

/// The leading rendering pairs of every recipient: the display name
/// with its fallback, then the formatted total.
pub open spec fn spec_base_pairs(client: CollectionClient) -> Seq<(Seq<char>, Seq<char>)> {
    seq![
        ("full_name"@, spec_fallback_name(client)),
        ("total_amount_due"@, spec_format_currency(client.spec_amount_due() as int)),
    ]
}

/// The string pairs handed to the template for one recipient: the
/// display name with its fallback, the formatted total, every present
/// free-form entry, and the remaining entries.
pub open spec fn spec_template_pairs(client: CollectionClient) -> Seq<(Seq<char>, Seq<char>)> {
    match client.custom_data {
        Some(cd) => spec_base_pairs(client) + spec_opt_pair("email"@, cd.email) + spec_opt_pair(
            "message_id"@,
            cd.message_id,
        ) + spec_opt_pair("email_sent_at"@, cd.email_sent_at) + spec_opt_pair("error"@, cd.error)
            + spec_opt_pair("error_type"@, cd.error_type) + spec_opt_pair(
            "template_id"@,
            cd.template_id,
        ) + spec_opt_pair("threshold_id"@, cd.threshold_id) + spec_fields_view(cd.extra@),
        None => spec_base_pairs(client),
    }
}

fn push_opt_pair(out: &mut Vec<(String, String)>, key: &str, v: &Option<String>)
    ensures
        pairs_view(final(out)@) == pairs_view(old(out)@) + spec_opt_pair(key@, *v),
{
    match v {
        Some(s) => {
            out.push((key.to_owned(), s.clone()));
        }
        None => {}
    }
    proof {
        assert(pairs_view(out@) =~= pairs_view(old(out)@) + spec_opt_pair(key@, *v));
    }
}

/// Build the rendering pairs for one recipient.
pub fn template_pairs(client: &CollectionClient) -> (r: Vec<(String, String)>)
    ensures
        pairs_view(r@) == spec_template_pairs(*client),
{
    let mut out: Vec<(String, String)> = Vec::new();
    let name: String = match &client.custom_data {
        Some(cd) => match &cd.full_name {
            Some(n) => n.clone(),
            None => "Cliente".to_owned(),
        },
        None => "Cliente".to_owned(),
    };
    out.push(("full_name".to_owned(), name));
    out.push(("total_amount_due".to_owned(), format_currency(client.amount_due())));
    proof {
        assert(pairs_view(out@) =~= spec_base_pairs(*client));
    }
    match &client.custom_data {
        Some(cd) => {
            push_opt_pair(&mut out, "email", &cd.email);
            push_opt_pair(&mut out, "message_id", &cd.message_id);
            push_opt_pair(&mut out, "email_sent_at", &cd.email_sent_at);
            push_opt_pair(&mut out, "error", &cd.error);
            push_opt_pair(&mut out, "error_type", &cd.error_type);
            push_opt_pair(&mut out, "template_id", &cd.template_id);
            push_opt_pair(&mut out, "threshold_id", &cd.threshold_id);
            let ghost whole = spec_template_pairs(*client);
            let ghost before = whole.len() - cd.extra@.len();
            proof {
                assert(pairs_view(out@) =~= whole.take(before as int));
            }
            let mut k: usize = 0;
            while k < cd.extra.len()
                invariant
                    k <= cd.extra@.len(),
                    out@.len() == before + k,
                    whole == spec_template_pairs(*client),
                    before == whole.len() - cd.extra@.len(),
                    client.custom_data matches Some(c) && c.extra@ == cd.extra@,
                    pairs_view(out@) == whole.take(before + k),
                decreases cd.extra.len() - k,
            {
                out.push((cd.extra[k].0.clone(), cd.extra[k].1.clone()));
                proof {
                    assert(whole[before + k] == (cd.extra@[k as int].0@, cd.extra@[k as int].1@));
                    assert(pairs_view(out@) =~~= whole.take(before + k + 1));
                }
                k += 1;
            }
            proof {
                assert(whole.take(whole.len() as int) =~= whole);
                assert(pairs_view(out@) =~= spec_template_pairs(*client));
            }
        }
        None => {
            proof {
                assert(pairs_view(out@) =~= spec_template_pairs(*client));
            }
        }
    }
    out
}

/// The rendering pairs of one invoice: its free-form fields, then its
/// amount formatted.
pub open spec fn spec_invoice_row(inv: Invoice) -> Seq<(Seq<char>, Seq<char>)> {
    spec_fields_view(inv.fields@) + match inv.amount_due {
        Some(a) => seq![("amount_due"@, spec_format_currency(a as int))],
        None => Seq::<(Seq<char>, Seq<char>)>::empty(),
    }
}

/// The rendering rows for a recipient's invoices; none means an empty
/// list.
pub open spec fn spec_invoice_rows(o: Option<Vec<Invoice>>) -> Seq<Seq<(Seq<char>, Seq<char>)>> {
    match o {
        Some(v) => Seq::new(v@.len(), |i: int| spec_invoice_row(v@[i])),
        None => Seq::empty(),
    }
}

fn invoice_row(inv: &Invoice) -> (r: Vec<(String, String)>)
    ensures
        pairs_view(r@) == spec_invoice_row(*inv),
{
    let mut out: Vec<(String, String)> = Vec::new();
    let mut k: usize = 0;
    while k < inv.fields.len()
        invariant
            k <= inv.fields@.len(),
            out@.len() == k,
            pairs_view(out@) == spec_fields_view(inv.fields@.take(k as int)),
        decreases inv.fields.len() - k,
    {
        let ghost prev = out@;
        out.push((inv.fields[k].0.clone(), inv.fields[k].1.clone()));
        proof {
            let whole = spec_fields_view(inv.fields@.take(k + 1));
            assert forall|i: int| 0 <= i < k + 1 implies #[trigger] pairs_view(out@)[i]
                == whole[i] by {
                if i < k {
                    assert(out@[i] == prev[i]);
                    assert(pairs_view(prev)[i] == spec_fields_view(inv.fields@.take(k as int))[i]);
                    assert(inv.fields@.take(k + 1)[i] == inv.fields@.take(k as int)[i]);
                } else {
                    assert(out@[i].0 == inv.fields@[k as int].0);
                    assert(out@[i].1 == inv.fields@[k as int].1);
                    assert(inv.fields@.take(k + 1)[i] == inv.fields@[k as int]);
                }
            }
            assert(pairs_view(out@) =~= whole);
        }
        k += 1;
    }
    proof {
        assert(inv.fields@.take(inv.fields@.len() as int) =~= inv.fields@);
        assert(spec_fields_view(inv.fields@.take(inv.fields@.len() as int)) =~= spec_fields_view(
            inv.fields@,
        ));
    }
    match inv.amount_due {
        Some(a) => {
            out.push(("amount_due".to_owned(), format_currency(a)));
        }
        None => {}
    }
    proof {
        assert(pairs_view(out@) =~= spec_invoice_row(*inv));
    }
    out
}

/// Build the rendering rows for a recipient's invoices, formatting
/// each amount.
pub fn invoice_rows(o: &Option<Vec<Invoice>>) -> (r: Vec<Vec<(String, String)>>)
    ensures
        invoices_view(r@) == spec_invoice_rows(*o),
{
    let mut out: Vec<Vec<(String, String)>> = Vec::new();
    match o {
        Some(v) => {
            let mut k: usize = 0;
            while k < v.len()
                invariant
                    k <= v@.len(),
                    out@.len() == k,
                    forall|i: int|
                        0 <= i < k ==> pairs_view((#[trigger] out@[i])@) == spec_invoice_row(
                            v@[i],
                        ),
                decreases v.len() - k,
            {
                out.push(invoice_row(&v[k]));
                k += 1;
            }
            proof {
                assert(invoices_view(out@) =~= spec_invoice_rows(Some(*v)));
            }
        }
        None => {
            proof {
                assert(invoices_view(out@) =~= spec_invoice_rows(Option::<Vec<Invoice>>::None));
            }
        }
    }
    out
}

/// What the composed HTML body is: the rendered document through the
/// normalisation pipeline with CSS inlined when the inliner succeeds,
/// or, when rendering fails, the raw template with the two fallback
/// tokens substituted.
pub open spec fn spec_composed_body(
    tpl: Seq<char>,
    data: Seq<char>,
    fallback_name: Seq<char>,
    fallback_amount: Seq<char>,
) -> Seq<char> {
    match hb_rendered_of(spec_preprocess(tpl), data) {
        Some(r0) => {
            let wrapped = spec_wrap_with_styles(
                spec_enhance_tables(spec_line_breaks(spec_fix_empty_paragraphs(r0))),
            );
            match css_inlined_of(wrapped) {
                Some(x) => x,
                None => wrapped,
            }
        }
        None => spec_replace_all(
            spec_replace_all(tpl, "{{nombre}}"@, fallback_name),
            "{{monto}}"@,
            fallback_amount,
        ),
    }
}

/// Compose the HTML body for one recipient: render, normalise empty
/// paragraphs, convert newlines, wrap invoice tables, shell in the
/// presentation document and inline its CSS; a failed render falls
/// back to two-token substitution on the raw template, and a failed
/// inline downgrades to the un-inlined document.
pub fn compose_email_body(
    template_content: &str,
    data_json: &str,
    fallback_name: &str,
    fallback_amount: &str,
) -> (r: String)
    ensures
        r@ == spec_composed_body(template_content@, data_json@, fallback_name@, fallback_amount@),
{
    match render_template(template_content, data_json) {
        Some(rendered) => {
            let fixed = fix_empty_paragraphs(rendered.as_str());
            let with_breaks = preserve_line_breaks(fixed.as_str());
            let enhanced = enhance_invoice_tables(with_breaks.as_str());
            let wrapped = wrap_with_styles(enhanced.as_str());
            match inline_css(wrapped.as_str()) {
                Some(inlined) => inlined,
                None => wrapped,
            }
        }
        None => {
            proof {
                reveal_strlit("{{nombre}}");
                reveal_strlit("{{monto}}");
            }
            let once = replace_all_str(template_content, "{{nombre}}", fallback_name);
            replace_all_str(once.as_str(), "{{monto}}", fallback_amount)
        }
    }
}

fn dup_strings(v: &Vec<String>) -> (r: Vec<String>)
    ensures
        r@ == v@,
{
    let mut r: Vec<String> = Vec::new();
    let mut k: usize = 0;
    while k < v.len()
        invariant
            k <= v@.len(),
            r@ == v@.take(k as int),
        decreases v.len() - k,
    {
        r.push(v[k].clone());
        proof {
            assert(r@ =~= v@.take(k + 1));
        }
        k += 1;
    }
    proof {
        assert(v@.take(v@.len() as int) =~= v@);
    }
    r
}

fn dup_attachments(v: &Vec<Attachment>) -> (r: Vec<Attachment>)
    ensures
        r@.len() == v@.len(),
        forall|i: int|
            0 <= i < v@.len() ==> {
                &&& (#[trigger] r@[i]).id@ == v@[i].id@
                &&& r@[i].name@ == v@[i].name@
                &&& r@[i].storage_path@ == v@[i].storage_path@
                &&& r@[i].storage_bucket@ == v@[i].storage_bucket@
                &&& r@[i].file_type == v@[i].file_type
                &&& r@[i].data@ == v@[i].data@
            },
{
    let mut r: Vec<Attachment> = Vec::new();
    let mut k: usize = 0;
    while k < v.len()
        invariant
            k <= v@.len(),
            r@.len() == k,
            forall|i: int|
                0 <= i < k ==> {
                    &&& (#[trigger] r@[i]).id@ == v@[i].id@
                    &&& r@[i].name@ == v@[i].name@
                    &&& r@[i].storage_path@ == v@[i].storage_path@
                    &&& r@[i].storage_bucket@ == v@[i].storage_bucket@
                    &&& r@[i].file_type == v@[i].file_type
                    &&& r@[i].data@ == v@[i].data@
                },
        decreases v.len() - k,
    {
        let a = &v[k];
        let mut data: Vec<u8> = Vec::new();
        let mut b: usize = 0;
        while b < a.data.len()
            invariant
                b <= a.data@.len(),
                data@ == a.data@.take(b as int),
                a == &v@[k as int],
            decreases a.data.len() - b,
        {
            data.push(a.data[b]);
            proof {
                assert(data@ =~= a.data@.take(b + 1));
            }
            b += 1;
        }
        proof {
            assert(a.data@.take(a.data@.len() as int) =~= a.data@);
        }
        r.push(
            Attachment {
                id: a.id.clone(),
                name: a.name.clone(),
                storage_path: a.storage_path.clone(),
                storage_bucket: a.storage_bucket.clone(),
                file_type: match &a.file_type {
                    Some(t) => Some(t.clone()),
                    None => None,
                },
                data,
            },
        );
        k += 1;
    }
    r
}

/// Assemble the full outgoing email for one recipient: the composed
/// body, the fixed plain-text alternative, the business sender header,
/// the filtered addresses and the execution's attachments.
pub fn build_client_email(
    template: &EmailTemplate,
    client: &CollectionClient,
    emails: &Vec<String>,
    attachments: &Vec<Attachment>,
    execution_id: &str,
    business_name: &str,
) -> (r: EmailMessage)
    ensures
        r.to@ == emails@,
        r.subject@ == template.subject@,
        r.html_body@ == spec_composed_body(
            template.content@,
            spec_context_json(spec_template_pairs(*client), spec_invoice_rows(client.invoices)),
            spec_fallback_name(*client),
            spec_format_currency(client.spec_amount_due() as int),
        ),
        r.text_body@ == "Por favor habilite HTML para ver este correo."@,
        r.from@ == business_name@ + " - Cartera <notify@borls.com>"@,
        r.attachments@.len() == attachments@.len(),
        forall|i: int|
            0 <= i < attachments@.len() ==> {
                &&& (#[trigger] r.attachments@[i]).name@ == attachments@[i].name@
                &&& r.attachments@[i].file_type == attachments@[i].file_type
                &&& r.attachments@[i].data@ == attachments@[i].data@
            },
        r.client_id matches Some(c) && c@ == client.id@,
        r.execution_id matches Some(e) && e@ == execution_id@,
        r.message_id is None,
{
    let pairs = template_pairs(client);
    let rows = invoice_rows(&client.invoices);
    let data = context_json(&pairs, &rows);
    let fallback_name: String = match &client.custom_data {
        Some(cd) => match &cd.full_name {
            Some(n) => n.clone(),
            None => "Cliente".to_owned(),
        },
        None => "Cliente".to_owned(),
    };
    let fallback_amount = format_currency(client.amount_due());
    let html_body = compose_email_body(
        template.content.as_str(),
        data.as_str(),
        fallback_name.as_str(),
        fallback_amount.as_str(),
    );
    EmailMessage {
        to: dup_strings(emails),
        subject: template.subject.clone(),
        html_body,
        text_body: "Por favor habilite HTML para ver este correo.".to_owned(),
        from: from_header(business_name),
        attachments: dup_attachments(attachments),
        client_id: Some(client.id.clone()),
        execution_id: Some(execution_id.to_owned()),
        message_id: None,
    }
}

/// The base64 encoding of a byte string, a function of the bytes
/// alone.
pub uninterp spec fn base64_of(bytes: Seq<u8>) -> Seq<char>;

/// Relies on `base64::Engine::encode` with the standard alphabet: the
/// encoding is a function of the bytes alone.
#[verifier::external_body]
fn base64_encode(bytes: &Vec<u8>) -> (r: String)
    ensures
        r@ == base64_of(bytes@),
{
    base64::Engine::encode(&base64::engine::general_purpose::STANDARD, bytes)
}

/// One attachment of the JSON provider's payload: its name and its
/// base64-encoded bytes.
#[derive(Clone, Debug)]
pub struct EncodedAttachment {
    pub content: String,
    pub name: String,
}

/// Encode every attachment for the JSON provider's payload.
pub fn encode_attachments(attachments: &Vec<Attachment>) -> (r: Vec<EncodedAttachment>)
    ensures
        r@.len() == attachments@.len(),
        forall|i: int|
            0 <= i < attachments@.len() ==> (#[trigger] r@[i]).content@ == base64_of(
                attachments@[i].data@,
            ) && r@[i].name@ == attachments@[i].name@,
{
    let mut r: Vec<EncodedAttachment> = Vec::new();
    let mut i: usize = 0;
    while i < attachments.len()
        invariant
            i <= attachments@.len(),
            r@.len() == i,
            forall|k: int|
                0 <= k < i ==> (#[trigger] r@[k]).content@ == base64_of(attachments@[k].data@)
                    && r@[k].name@ == attachments@[k].name@,
        decreases attachments.len() - i,
    {
        let content = base64_encode(&attachments[i].data);
        r.push(EncodedAttachment { content, name: attachments[i].name.clone() });
        i += 1;
    }
    r
}

} // verus!
