//! Building the JSON data document handed to the template engine: the
//! recipient's free-form entries and its invoices, as one escaped JSON
//! object.

use vstd::prelude::*;
use crate::text::{chars_to_string, push_all, str_to_chars};

verus! {

/// One hexadecimal digit character.
pub open spec fn spec_hex_digit(d: int) -> char
    recommends
        0 <= d < 16,
{
    if d < 10 {
        ((48 + d) as u8) as char
    } else {
        ((87 + d) as u8) as char
    }
}

/// The JSON escape of one character inside a string literal.
pub open spec fn spec_escape_char(c: char) -> Seq<char> {
    if c == '"' {
        seq!['\\', '"']
    } else if c == '\\' {
        seq!['\\', '\\']
    } else if c == '\n' {
        seq!['\\', 'n']
    } else if c == '\r' {
        seq!['\\', 'r']
    } else if c == '\t' {
        seq!['\\', 't']
    } else if (c as u32) < 32 {
        seq!['\\', 'u', '0', '0', spec_hex_digit(((c as u32) as int) / 16), spec_hex_digit(
            ((c as u32) as int) % 16,
        )]
    } else {
        seq![c]
    }
}

/// The JSON escape of a whole text.
pub open spec fn spec_escape(s: Seq<char>) -> Seq<char>
    decreases s.len(),
{
    if s.len() == 0 {
        Seq::empty()
    } else {
        spec_escape(s.drop_last()) + spec_escape_char(s.last())
    }
}

/// A JSON string literal: the escaped text in double quotes.
pub open spec fn spec_json_string(s: Seq<char>) -> Seq<char> {
    seq!['"'] + spec_escape(s) + seq!['"']
}

fn hex_digit(d: u32) -> (r: char)
    requires
        d < 16,
    ensures
        r == spec_hex_digit(d as int),
{
    if d < 10 {
        (48 + d as u8) as char
    } else {
        (87 + d as u8) as char
    }
}

fn push_escaped_char(out: &mut Vec<char>, c: char)
    ensures
        final(out)@ == old(out)@ + spec_escape_char(c),
{
    if c == '"' {
        out.push('\\');
        out.push('"');
        assert(out@ =~= old(out)@ + spec_escape_char(c));
    } else if c == '\\' {
        out.push('\\');
        out.push('\\');
        assert(out@ =~= old(out)@ + spec_escape_char(c));
    } else if c == '\n' {
        out.push('\\');
        out.push('n');
        assert(out@ =~= old(out)@ + spec_escape_char(c));
    } else if c == '\r' {
        out.push('\\');
        out.push('r');
        assert(out@ =~= old(out)@ + spec_escape_char(c));
    } else if c == '\t' {
        out.push('\\');
        out.push('t');
        assert(out@ =~= old(out)@ + spec_escape_char(c));
    } else if (c as u32) < 32 {
        out.push('\\');
        out.push('u');
        out.push('0');
        out.push('0');
        out.push(hex_digit((c as u32) / 16));
        out.push(hex_digit((c as u32) % 16));
        assert(out@ =~= old(out)@ + spec_escape_char(c));
    } else {
        out.push(c);
        assert(out@ =~= old(out)@ + spec_escape_char(c));
    }
}

fn push_json_string(out: &mut Vec<char>, s: &str)
    ensures
        final(out)@ == old(out)@ + spec_json_string(s@),
{
    let v = str_to_chars(s);
    out.push('"');
    let mut k: usize = 0;
    while k < v.len()
        invariant
            k <= v@.len(),
            v@ == s@,
            out@ == old(out)@ + seq!['"'] + spec_escape(s@.take(k as int)),
        decreases v.len() - k,
    {
        proof {
            assert(s@.take(k + 1).drop_last() =~= s@.take(k as int));
            assert(s@.take(k + 1).last() == s@[k as int]);
        }
        push_escaped_char(out, v[k]);
        k += 1;
    }
    proof {
        assert(s@.take(s@.len() as int) =~= s@);
    }
    out.push('"');
    proof {
        assert(out@ =~= old(out)@ + spec_json_string(s@));
    }
}

/// The view of a list of key-value string pairs.
pub open spec fn pairs_view(v: Seq<(String, String)>) -> Seq<(Seq<char>, Seq<char>)> {
    Seq::new(v.len(), |i: int| (v[i].0@, v[i].1@))
}

/// The members of a JSON object for the pairs, each followed by a
/// comma.
pub open spec fn spec_members(pairs: Seq<(Seq<char>, Seq<char>)>) -> Seq<char>
    decreases pairs.len(),
{
    if pairs.len() == 0 {
        Seq::empty()
    } else {
        spec_members(pairs.drop_last()) + spec_json_string(pairs.last().0) + seq![':']
            + spec_json_string(pairs.last().1) + seq![',']
    }
}

fn push_members(out: &mut Vec<char>, pairs: &Vec<(String, String)>)
    ensures
        final(out)@ == old(out)@ + spec_members(pairs_view(pairs@)),
{
    let mut k: usize = 0;
    while k < pairs.len()
        invariant
            k <= pairs@.len(),
            out@ == old(out)@ + spec_members(pairs_view(pairs@.take(k as int))),
        decreases pairs.len() - k,
    {
        proof {
            assert(pairs_view(pairs@.take(k + 1)).drop_last() =~= pairs_view(
                pairs@.take(k as int),
            ));
            assert(pairs_view(pairs@.take(k + 1)).last() == (
                pairs@[k as int].0@,
                pairs@[k as int].1@,
            ));
        }
        push_json_string(out, pairs[k].0.as_str());
        out.push(':');
        push_json_string(out, pairs[k].1.as_str());
        out.push(',');
        k += 1;
    }
    proof {
        assert(pairs@.take(pairs@.len() as int) =~= pairs@);
    }
}

/// One invoice as a JSON object of string members.
pub open spec fn spec_invoice_obj(pairs: Seq<(Seq<char>, Seq<char>)>) -> Seq<char>
    decreases pairs.len(),
{
    if pairs.len() == 0 {
        seq!['{', '}']
    } else {
        seq!['{'] + spec_inner_members(pairs) + seq!['}']
    }
}

/// Comma-separated members, no trailing comma.
pub open spec fn spec_inner_members(pairs: Seq<(Seq<char>, Seq<char>)>) -> Seq<char>
    decreases pairs.len(),
{
    if pairs.len() == 0 {
        Seq::empty()
    } else if pairs.len() == 1 {
        spec_json_string(pairs[0].0) + seq![':'] + spec_json_string(pairs[0].1)
    } else {
        spec_inner_members(pairs.drop_last()) + seq![','] + spec_json_string(pairs.last().0)
            + seq![':'] + spec_json_string(pairs.last().1)
    }
}

fn push_invoice_obj(out: &mut Vec<char>, pairs: &Vec<(String, String)>)
    ensures
        final(out)@ == old(out)@ + spec_invoice_obj(pairs_view(pairs@)),
{
    out.push('{');
    let mut k: usize = 0;
    while k < pairs.len()
        invariant
            k <= pairs@.len(),
            out@ == old(out)@ + seq!['{'] + spec_inner_members(pairs_view(pairs@.take(k as int))),
        decreases pairs.len() - k,
    {
        proof {
            assert(pairs_view(pairs@.take(k + 1)).drop_last() =~= pairs_view(
                pairs@.take(k as int),
            ));
            assert(pairs_view(pairs@.take(k + 1)).last() == (
                pairs@[k as int].0@,
                pairs@[k as int].1@,
            ));
            assert(pairs_view(pairs@.take(k + 1)).len() == k + 1);
        }
        if k > 0 {
            out.push(',');
        }
        push_json_string(out, pairs[k].0.as_str());
        out.push(':');
        push_json_string(out, pairs[k].1.as_str());
        proof {
            assert(out@ =~= old(out)@ + seq!['{'] + spec_inner_members(
                pairs_view(pairs@.take(k + 1)),
            ));
        }
        k += 1;
    }
    proof {
        assert(pairs@.take(pairs@.len() as int) =~= pairs@);
    }
    out.push('}');
    proof {
        assert(out@ =~= old(out)@ + spec_invoice_obj(pairs_view(pairs@)));
    }
}

/// The view of a list of invoices, each a list of pairs.
pub open spec fn invoices_view(v: Seq<Vec<(String, String)>>) -> Seq<Seq<(Seq<char>, Seq<char>)>> {
    Seq::new(v.len(), |i: int| pairs_view(v[i]@))
}

/// Comma-separated invoice objects.
pub open spec fn spec_invoice_items(items: Seq<Seq<(Seq<char>, Seq<char>)>>) -> Seq<char>
    decreases items.len(),
{
    if items.len() == 0 {
        Seq::empty()
    } else if items.len() == 1 {
        spec_invoice_obj(items[0])
    } else {
        spec_invoice_items(items.drop_last()) + seq![','] + spec_invoice_obj(items.last())
    }
}

/// The whole data document: every pair as a string member, then the
/// invoice array.
pub open spec fn spec_context_json(
    pairs: Seq<(Seq<char>, Seq<char>)>,
    invoices: Seq<Seq<(Seq<char>, Seq<char>)>>,
) -> Seq<char> {
    seq!['{'] + spec_members(pairs) + "\"invoices\":["@ + spec_invoice_items(invoices) + seq![
        ']',
        '}',
    ]
}

/// Serialise the rendering context: the pairs as JSON string members
/// and the invoices as an array of objects of string members.
pub fn context_json(pairs: &Vec<(String, String)>, invoices: &Vec<Vec<(String, String)>>) -> (r:
    String)
    ensures
        r@ == spec_context_json(pairs_view(pairs@), invoices_view(invoices@)),
{
    let mut out: Vec<char> = Vec::new();
    out.push('{');
    push_members(&mut out, pairs);
    let label = str_to_chars("\"invoices\":[");
    push_all(&mut out, &label);
    let mut k: usize = 0;
    while k < invoices.len()
        invariant
            k <= invoices@.len(),
            out@ == seq!['{'] + spec_members(pairs_view(pairs@)) + "\"invoices\":["@
                + spec_invoice_items(invoices_view(invoices@.take(k as int))),
        decreases invoices.len() - k,
    {
        proof {
            assert(invoices_view(invoices@.take(k + 1)).drop_last() =~= invoices_view(
                invoices@.take(k as int),
            ));
            assert(invoices_view(invoices@.take(k + 1)).last() =~= pairs_view(
                invoices@[k as int]@,
            ));
            assert(invoices_view(invoices@.take(k + 1)).len() == k + 1);
        }
        if k > 0 {
            out.push(',');
        }
        push_invoice_obj(&mut out, &invoices[k]);
        proof {
            assert(out@ =~= seq!['{'] + spec_members(pairs_view(pairs@)) + "\"invoices\":["@
                + spec_invoice_items(invoices_view(invoices@.take(k + 1))));
        }
        k += 1;
    }
    proof {
        assert(invoices@.take(invoices@.len() as int) =~= invoices@);
    }
    out.push(']');
    out.push('}');
    proof {
        assert(out@ =~= spec_context_json(pairs_view(pairs@), invoices_view(invoices@)));
    }
    chars_to_string(&out)
}

} // verus!
