//! Deterministic JSON encoding of bar snapshots, in the shape the
//! i3/sway bar protocol consumes: one array of item objects per frame.
//! Fields that are unset are omitted; field order is fixed, so equal
//! states encode to equal text.

use vstd::prelude::*;
use vstd::string::StringExecFns;
use crate::color::{hex_of, hex_chars, Rgb};
use crate::i3::{extra_view, I3Item, I3Markup, ItemModel};
use crate::text::{chars_of, dec_digits, lemma_seq_add_assoc, lemma_seq_add_empty, push_u64, string_from_chars};

verus! {

/// How one character is written inside a JSON string: quote, backslash
/// and the common control characters are escaped, everything else passes
/// through.
pub open spec fn esc_char(c: char) -> Seq<char> {
    if c == '"' {
        seq!['\\', '"']
    } else if c == '\\' {
        seq!['\\', '\\']
    } else if c == '\n' {
        seq!['\\', 'n']
    } else if c == '\t' {
        seq!['\\', 't']
    } else if c == '\r' {
        seq!['\\', 'r']
    } else {
        seq![c]
    }
}

/// A whole character sequence escaped for JSON.
pub open spec fn json_escape(s: Seq<char>) -> Seq<char>
    decreases s.len(),
{
    if s.len() == 0 {
        Seq::empty()
    } else {
        esc_char(s[0]) + json_escape(s.drop_first())
    }
}

/// A JSON string literal holding `s`.
pub open spec fn json_string(s: Seq<char>) -> Seq<char> {
    seq!['"'] + json_escape(s) + seq!['"']
}

pub open spec fn bool_text(b: bool) -> Seq<char> {
    if b {
        "true"@
    } else {
        "false"@
    }
}

/// The extra-data entries as further members, their keys prefixed with
/// `_` so they can never collide with a protocol field.
pub open spec fn extra_json(extra: Seq<(Seq<char>, bool)>) -> Seq<char>
    decreases extra.len(),
{
    if extra.len() == 0 {
        Seq::empty()
    } else {
        seq![','] + json_string(seq!['_'] + extra[0].0) + seq![':'] + bool_text(extra[0].1)
            + extra_json(extra.drop_first())
    }
}

/// The text and colour members of an item's JSON object.
pub open spec fn item_json_head(m: ItemModel) -> Seq<char> {
    "{\"full_text\":"@ + json_string(m.full_text) + (match m.short_text {
        Some(s) => ",\"short_text\":"@ + json_string(s),
        None => Seq::empty(),
    }) + (match m.color {
        Some(c) => ",\"color\":\""@ + hex_of(c) + seq!['"'],
        None => Seq::empty(),
    }) + (match m.background_color {
        Some(c) => ",\"background\":\""@ + hex_of(c) + seq!['"'],
        None => Seq::empty(),
    }) + (if m.markup == I3Markup::Pango {
        ",\"markup\":\"pango\""@
    } else {
        Seq::empty()
    })
}

/// The flag, instance and metadata members of an item's JSON object.
pub open spec fn item_json_tail(m: ItemModel) -> Seq<char> {
    ",\"separator\":"@ + bool_text(m.separator) + (match m.separator_block_width_px {
        Some(w) => ",\"separator_block_width\":"@ + dec_digits(w as nat),
        None => Seq::empty(),
    }) + ",\"urgent\":"@ + bool_text(m.urgent) + (match m.instance {
        Some(s) => ",\"instance\":"@ + json_string(s),
        None => Seq::empty(),
    }) + extra_json(m.extra) + seq!['}']
}

/// The JSON object encoding one item.
pub open spec fn item_json(m: ItemModel) -> Seq<char> {
    item_json_head(m) + item_json_tail(m)
}

/// The members after the first item of an array.
pub open spec fn rest_json(items: Seq<ItemModel>) -> Seq<char>
    decreases items.len(),
{
    if items.len() == 0 {
        Seq::empty()
    } else {
        seq![','] + item_json(items[0]) + rest_json(items.drop_first())
    }
}

/// The JSON array encoding a whole snapshot, in order.
pub open spec fn items_json(items: Seq<ItemModel>) -> Seq<char> {
    if items.len() == 0 {
        "[]"@
    } else {
        seq!['['] + item_json(items[0]) + rest_json(items.drop_first()) + seq![']']
    }
}

/// Append `s` escaped for JSON.
fn push_json_escaped(out: &mut String, s: &Vec<char>)
    ensures
        final(out)@ == old(out)@ + json_escape(s@),
{
    let mut i: usize = 0;
    proof {
        assert(s@.skip(0) =~= s@);
        assert(out@ + json_escape(s@) =~= old(out)@ + json_escape(s@));
    }
    while i < s.len()
        invariant
            i <= s@.len(),
            out@ + json_escape(s@.skip(i as int)) == old(out)@ + json_escape(s@),
        decreases s@.len() - i,
    {
        let ghost rest = s@.skip(i as int);
        proof {
            assert(rest[0] == s@[i as int]);
            assert(rest.drop_first() =~= s@.skip(i + 1));
            assert(json_escape(rest) == esc_char(s@[i as int]) + json_escape(s@.skip(i + 1)));
        }
        let c = s[i];
        match c {
            '"' => {
                out.push('\\');
                out.push('"');
            },
            '\\' => {
                out.push('\\');
                out.push('\\');
            },
            '\n' => {
                out.push('\\');
                out.push('n');
            },
            '\t' => {
                out.push('\\');
                out.push('t');
            },
            '\r' => {
                out.push('\\');
                out.push('r');
            },
            _ => {
                out.push(c);
            },
        }
        proof {
            assert(out@ + json_escape(s@.skip(i + 1)) =~= old(out)@ + json_escape(s@));
        }
        i += 1;
    }
    proof {
        assert(s@.skip(s@.len() as int) =~= Seq::<char>::empty());
        assert(final(out)@ =~= old(out)@ + json_escape(s@));
    }
}

/// Append a JSON string literal holding `s`.
fn push_json_string(out: &mut String, s: &str)
    ensures
        final(out)@ == old(out)@ + json_string(s@),
{
    out.push('"');
    let v = chars_of(s);
    push_json_escaped(out, &v);
    out.push('"');
    proof {
        assert(final(out)@ =~= old(out)@ + json_string(s@));
    }
}

fn push_bool(out: &mut String, b: bool)
    ensures
        final(out)@ == old(out)@ + bool_text(b),
{
    if b {
        out.append("true");
    } else {
        out.append("false");
    }
}

/// Append a colour as a quoted `#RRGGBB` JSON value.
fn push_color(out: &mut String, c: Rgb)
    ensures
        final(out)@ == old(out)@ + hex_of(c) + seq!['"'],
{
    let v = hex_chars(c);
    let s = string_from_chars(&v);
    out.append(s.as_str());
    out.push('"');
    proof {
        assert(final(out)@ =~= old(out)@ + hex_of(c) + seq!['"']);
    }
}

fn push_item_json_head(out: &mut String, item: &I3Item)
    ensures
        final(out)@ == old(out)@ + item_json_head(item@),
{
    let ghost o0 = old(out)@;
    let ghost m = item@;
    out.append("{\"full_text\":");
    push_json_string(out, item.full_text.as_str());
    let ghost a0 = "{\"full_text\":"@ + json_string(m.full_text);
    proof {
        lemma_seq_add_assoc(o0, "{\"full_text\":"@, json_string(m.full_text));
        assert(out@ == o0 + a0);
    }
    let ghost m1 = (match m.short_text {
        Some(s) => ",\"short_text\":"@ + json_string(s),
        None => Seq::<char>::empty(),
    });
    match &item.short_text {
        Some(s) => {
            out.append(",\"short_text\":");
            push_json_string(out, s.as_str());
            proof {
                lemma_seq_add_assoc(o0 + a0, ",\"short_text\":"@, json_string(s@));
            }
        },
        None => {
            proof {
                lemma_seq_add_empty(o0 + a0);
            }
        },
    }
    proof {
        assert(out@ == (o0 + a0) + m1);
    }
    let ghost m2 = (match m.color {
        Some(c) => ",\"color\":\""@ + hex_of(c) + seq!['"'],
        None => Seq::<char>::empty(),
    });
    let ghost p2 = (o0 + a0) + m1;
    match &item.color {
        Some(c) => {
            out.append(",\"color\":\"");
            push_color(out, *c);
            proof {
                lemma_seq_add_assoc(p2, ",\"color\":\""@, hex_of(*c));
                lemma_seq_add_assoc(p2, ",\"color\":\""@ + hex_of(*c), seq!['"']);
            }
        },
        None => {
            proof {
                lemma_seq_add_empty(p2);
            }
        },
    }
    proof {
        assert(out@ == p2 + m2);
    }
    let ghost m3 = (match m.background_color {
        Some(c) => ",\"background\":\""@ + hex_of(c) + seq!['"'],
        None => Seq::<char>::empty(),
    });
    let ghost p3 = p2 + m2;
    match &item.background_color {
        Some(c) => {
            out.append(",\"background\":\"");
            push_color(out, *c);
            proof {
                lemma_seq_add_assoc(p3, ",\"background\":\""@, hex_of(*c));
                lemma_seq_add_assoc(p3, ",\"background\":\""@ + hex_of(*c), seq!['"']);
            }
        },
        None => {
            proof {
                lemma_seq_add_empty(p3);
            }
        },
    }
    proof {
        assert(out@ == p3 + m3);
    }
    let ghost m4 = (if m.markup == I3Markup::Pango {
        ",\"markup\":\"pango\""@
    } else {
        Seq::<char>::empty()
    });
    let ghost p4 = p3 + m3;
    match item.markup {
        I3Markup::Pango => {
            out.append(",\"markup\":\"pango\"");
        },
        I3Markup::Plain => {
            proof {
                lemma_seq_add_empty(p4);
            }
        },
    }
    proof {
        assert(out@ == p4 + m4);
        lemma_seq_add_assoc(o0, a0, m1);
        lemma_seq_add_assoc(o0, a0 + m1, m2);
        lemma_seq_add_assoc(o0, (a0 + m1) + m2, m3);
        lemma_seq_add_assoc(o0, ((a0 + m1) + m2) + m3, m4);
        assert(out@ == o0 + item_json_head(m));
    }
}

/// Append the `"key":bool` members for the extra-data entries.
fn push_extra_json(out: &mut String, extra: &Vec<(String, bool)>)
    ensures
        final(out)@ == old(out)@ + extra_json(extra_view(extra@)),
{
    let ghost ev = extra_view(extra@);
    let mut i: usize = 0;
    proof {
        assert(ev.skip(0) =~= ev);
        assert(out@ + extra_json(ev) =~= old(out)@ + extra_json(ev));
    }
    while i < extra.len()
        invariant
            i <= extra@.len(),
            ev.len() == extra@.len(),
            forall|j: int|
                0 <= j < extra@.len() ==> #[trigger] ev[j] == (extra@[j].0@, extra@[j].1),
            out@ + extra_json(ev.skip(i as int)) == old(out)@ + extra_json(ev),
        decreases extra@.len() - i,
    {
        let ghost rest = ev.skip(i as int);
        proof {
            assert(rest[0] == ev[i as int]);
            assert(rest.drop_first() =~= ev.skip(i + 1));
        }
        out.push(',');
        out.push('"');
        out.push('_');
        let key_chars = chars_of(extra[i].0.as_str());
        push_json_escaped(out, &key_chars);
        out.push('"');
        out.push(':');
        push_bool(out, extra[i].1);
        proof {
            let prefixed = seq!['_'] + ev[i as int].0;
            assert(prefixed.len() > 0 && prefixed[0] == '_');
            assert(esc_char('_') =~= seq!['_']);
            assert(prefixed.drop_first() =~= ev[i as int].0);
            assert(json_escape(prefixed) =~= seq!['_'] + json_escape(ev[i as int].0));
            assert(out@ + extra_json(ev.skip(i + 1)) =~= old(out)@ + extra_json(ev));
        }
        i += 1;
    }
    proof {
        assert(ev.skip(ev.len() as int) =~= Seq::<(Seq<char>, bool)>::empty());
        assert(final(out)@ =~= old(out)@ + extra_json(ev));
    }
}

fn push_item_json_tail(out: &mut String, item: &I3Item)
    ensures
        final(out)@ == old(out)@ + item_json_tail(item@),
{
    let ghost o0 = old(out)@;
    let ghost m = item@;
    out.append(",\"separator\":");
    push_bool(out, item.separator);
    let ghost a1 = ",\"separator\":"@;
    let ghost a2 = bool_text(m.separator);
    let ghost a3 = (match m.separator_block_width_px {
        Some(w) => ",\"separator_block_width\":"@ + dec_digits(w as nat),
        None => Seq::<char>::empty(),
    });
    let ghost p3 = (o0 + a1) + a2;
    match item.separator_block_width_px {
        Some(w) => {
            out.append(",\"separator_block_width\":");
            push_u64(out, w as u64);
            proof {
                lemma_seq_add_assoc(p3, ",\"separator_block_width\":"@, dec_digits(w as nat));
            }
        },
        None => {
            proof {
                lemma_seq_add_empty(p3);
            }
        },
    }
    proof {
        assert(out@ == p3 + a3);
    }
    out.append(",\"urgent\":");
    push_bool(out, item.urgent);
    let ghost a4 = ",\"urgent\":"@;
    let ghost a5 = bool_text(m.urgent);
    let ghost a6 = (match m.instance {
        Some(s) => ",\"instance\":"@ + json_string(s),
        None => Seq::<char>::empty(),
    });
    let ghost p6 = (((p3 + a3) + a4) + a5);
    match &item.instance {
        Some(s) => {
            out.append(",\"instance\":");
            push_json_string(out, s.as_str());
            proof {
                lemma_seq_add_assoc(p6, ",\"instance\":"@, json_string(s@));
            }
        },
        None => {
            proof {
                lemma_seq_add_empty(p6);
            }
        },
    }
    proof {
        assert(out@ == p6 + a6);
    }
    let ghost a7 = extra_json(m.extra);
    push_extra_json(out, &item.extra);
    out.push('}');
    let ghost a8 = seq!['}'];
    proof {
        assert(out@ =~= (((p6 + a6) + a7) + a8));
        lemma_seq_add_assoc(o0, a1, a2);
        lemma_seq_add_assoc(o0, a1 + a2, a3);
        lemma_seq_add_assoc(o0, (a1 + a2) + a3, a4);
        lemma_seq_add_assoc(o0, ((a1 + a2) + a3) + a4, a5);
        lemma_seq_add_assoc(o0, (((a1 + a2) + a3) + a4) + a5, a6);
        lemma_seq_add_assoc(o0, ((((a1 + a2) + a3) + a4) + a5) + a6, a7);
        lemma_seq_add_assoc(o0, (((((a1 + a2) + a3) + a4) + a5) + a6) + a7, a8);
        assert(out@ == o0 + item_json_tail(m));
    }
}

/// Append the JSON object encoding `item`.
fn push_item_json(out: &mut String, item: &I3Item)
    ensures
        final(out)@ == old(out)@ + item_json(item@),
{
    push_item_json_head(out, item);
    push_item_json_tail(out, item);
    proof {
        lemma_seq_add_assoc(old(out)@, item_json_head(item@), item_json_tail(item@));
    }
}

/// Encode a whole snapshot as one JSON array, in slot order.
pub fn items_to_json(items: &Vec<I3Item>) -> (r: String)
    ensures
        r@ == items_json(items.deep_view()),
{
    let ghost dv = items.deep_view();
    let mut out = String::new();
    if items.len() == 0 {
        out.append("[]");
        proof {
            assert(out@ =~= items_json(dv));
        }
        return out;
    }
    out.push('[');
    push_item_json(&mut out, &items[0]);
    let ghost head = seq!['['] + item_json(dv[0]);
    proof {
        assert(dv[0] == items@[0].deep_view());
        assert(out@ =~= head);
        assert(dv.skip(1) =~= dv.drop_first());
    }
    let mut i: usize = 1;
    while i < items.len()
        invariant
            1 <= i <= items@.len(),
            dv.len() == items@.len(),
            forall|j: int| 0 <= j < items@.len() ==> #[trigger] dv[j] == items@[j].deep_view(),
            out@ + rest_json(dv.skip(i as int)) == head + rest_json(dv.drop_first()),
        decreases items@.len() - i,
    {
        let ghost rest = dv.skip(i as int);
        proof {
            assert(rest[0] == dv[i as int]);
            assert(rest.drop_first() =~= dv.skip(i + 1));
        }
        out.push(',');
        push_item_json(&mut out, &items[i]);
        proof {
            assert(out@ + rest_json(dv.skip(i + 1)) =~= head + rest_json(dv.drop_first()));
        }
        i += 1;
    }
    proof {
        assert(dv.skip(dv.len() as int) =~= Seq::<ItemModel>::empty());
    }
    out.push(']');
    proof {
        assert(out@ =~= items_json(dv));
    }
    out
}

} // verus!
