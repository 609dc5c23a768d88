use vstd::prelude::*;
use vstd::string::*;
use crate::strutil::str_eq;

verus! {

broadcast use vstd::std_specs::vec::group_vec_axioms, vstd::seq::group_seq_axioms;

/// A JSON document as the transformer reads it: a number carries its canonical
/// decimal text and, when it is an integer in signed 64-bit range, that value.
#[derive(Debug, PartialEq, Eq)]
pub enum JsonValue {
    Null,
    Bool(bool),
    Num { text: String, int_value: Option<i64> },
    Str(String),
    Arr(Vec<JsonValue>),
    Obj(Vec<(String, JsonValue)>),
}

/// Hexadecimal digit for `n` in 0..16.
pub open spec fn hex_char(n: int) -> char {
    "0123456789abcdef"@[n]
}

/// How one character of a JSON string is written inside quotes: the two-char
/// escapes of the JSON grammar, `\u00XX` for other control characters, and the
/// character itself otherwise.
pub open spec fn esc_char(c: char) -> Seq<char> {
    if c == '"' {
        seq!['\\', '"']
    } else if c == '\\' {
        seq!['\\', '\\']
    } else if c == '\u{8}' {
        seq!['\\', 'b']
    } else if c == '\t' {
        seq!['\\', 't']
    } else if c == '\n' {
        seq!['\\', 'n']
    } else if c == '\u{c}' {
        seq!['\\', 'f']
    } else if c == '\r' {
        seq!['\\', 'r']
    } else if (c as int) < 0x20 {
        seq!['\\', 'u', '0', '0', hex_char(c as int / 16), hex_char(c as int % 16)]
    } else {
        seq![c]
    }
}

pub open spec fn esc_seq(s: Seq<char>) -> Seq<char>
    decreases s.len(),
{
    if s.len() == 0 {
        Seq::empty()
    } else {
        esc_seq(s.drop_last()) + esc_char(s.last())
    }
}

/// The compact (no whitespace) JSON text of a value.
pub open spec fn json_text(v: JsonValue) -> Seq<char>
    decreases v, 1nat, 0nat,
{
    match v {
        JsonValue::Null => "null"@,
        JsonValue::Bool(b) => if b { "true"@ } else { "false"@ },
        JsonValue::Num { text, int_value } => text@,
        JsonValue::Str(s) => seq!['"'] + esc_seq(s@) + seq!['"'],
        JsonValue::Arr(items) => seq!['['] + json_list_text(items, items.len() as int) + seq![']'],
        JsonValue::Obj(fields) => seq!['{'] + json_obj_text(fields, fields.len() as int) + seq!['}'],
    }
}

/// Compact text of the first `i` elements of an array, comma-separated.
pub open spec fn json_list_text(items: Vec<JsonValue>, i: int) -> Seq<char>
    decreases items, 0nat, i,
{
    if i <= 0 || i > items.len() {
        Seq::empty()
    } else {
        json_list_text(items, i - 1) + (if i == 1 { Seq::empty() } else { seq![','] }) + json_text(
            items[i - 1],
        )
    }
}

/// Compact text of the first `i` members of an object, comma-separated.
pub open spec fn json_obj_text(fields: Vec<(String, JsonValue)>, i: int) -> Seq<char>
    decreases fields, 0nat, i,
{
    if i <= 0 || i > fields.len() {
        Seq::empty()
    } else {
        json_obj_text(fields, i - 1) + (if i == 1 { Seq::empty() } else { seq![','] }) + seq!['"']
            + esc_seq(fields[i - 1].0@) + seq!['"', ':'] + json_text(fields[i - 1].1)
    }
}

/// Appends the escaped body of `s` (without the surrounding quotes) to `out`.
fn append_escaped(out: &mut String, s: &str)
    ensures
        final(out)@ == old(out)@ + esc_seq(s@),
{
    let n = s.unicode_len();
    let mut i: usize = 0;
    while i < n
        invariant
            n == s@.len(),
            i <= n,
            out@ == old(out)@ + esc_seq(s@.take(i as int)),
        decreases n - i,
    {
        let c = s.get_char(i);
        proof {
            assert(s@.take(i as int + 1).drop_last() =~= s@.take(i as int));
            assert(s@.take(i as int + 1).last() == s@[i as int]);
        }
        if c == '"' {
            out.append("\\\"");
            proof {
                reveal_strlit("\\\"");
                assert("\\\""@ =~= esc_char(c));
            }
        } else if c == '\\' {
            out.append("\\\\");
            proof {
                reveal_strlit("\\\\");
                assert("\\\\"@ =~= esc_char(c));
            }
        } else if c == '\u{8}' {
            out.append("\\b");
            proof {
                reveal_strlit("\\b");
                assert("\\b"@ =~= esc_char(c));
            }
        } else if c == '\t' {
            out.append("\\t");
            proof {
                reveal_strlit("\\t");
                assert("\\t"@ =~= esc_char(c));
            }
        } else if c == '\n' {
            out.append("\\n");
            proof {
                reveal_strlit("\\n");
                assert("\\n"@ =~= esc_char(c));
            }
        } else if c == '\u{c}' {
            out.append("\\f");
            proof {
                reveal_strlit("\\f");
                assert("\\f"@ =~= esc_char(c));
            }
        } else if c == '\r' {
            out.append("\\r");
            proof {
                reveal_strlit("\\r");
                assert("\\r"@ =~= esc_char(c));
            }
        } else if (c as u32) < 0x20 {
            let code = c as u32;
            let hi = (code / 16) as usize;
            let lo = (code % 16) as usize;
            let table = "0123456789abcdef";
            proof {
                reveal_strlit("0123456789abcdef");
            }
            out.append("\\u00");
            out.append(table.substring_char(hi, hi + 1));
            out.append(table.substring_char(lo, lo + 1));
            proof {
                reveal_strlit("\\u00");
                assert(table@.subrange(hi as int, hi as int + 1) =~= seq![
                    hex_char(c as int / 16),
                ]);
                assert(table@.subrange(lo as int, lo as int + 1) =~= seq![
                    hex_char(c as int % 16),
                ]);
                assert("\\u00"@ + table@.subrange(hi as int, hi as int + 1) + table@.subrange(
                    lo as int,
                    lo as int + 1,
                ) =~= esc_char(c));
            }
        } else {
            out.append(s.substring_char(i, i + 1));
            proof {
                assert(s@.subrange(i as int, i as int + 1) =~= seq![c]);
                assert(seq![c] =~= esc_char(c));
            }
        }
        i = i + 1;
    }
    proof {
        assert(s@.take(n as int) =~= s@);
    }
}

/// Writes `v` as compact JSON text, the form the remote API's free-form
/// payloads are re-serialized into.
pub fn to_compact_text(v: &JsonValue) -> (r: String)
    ensures
        r@ == json_text(*v),
    decreases v,
{
    match v {
        JsonValue::Null => String::from_str("null"),
        JsonValue::Bool(b) => {
            if *b {
                String::from_str("true")
            } else {
                String::from_str("false")
            }
        },
        JsonValue::Num { text, int_value } => text.clone(),
        JsonValue::Str(s) => {
            let mut out = String::from_str("\"");
            proof {
                reveal_strlit("\"");
                assert("\""@ =~= seq!['"']);
            }
            append_escaped(&mut out, s.as_str());
            out.append("\"");
            proof {
                assert(seq!['"'] + esc_seq(s@) + seq!['"'] =~= json_text(*v));
            }
            out
        },
        JsonValue::Arr(items) => {
            let mut out = String::from_str("[");
            proof {
                reveal_strlit("[");
                assert("["@ =~= seq!['[']);
            }
            let mut i: usize = 0;
            while i < items.len()
                invariant
                    *v == JsonValue::Arr(*items),
                    i <= items.len(),
                    out@ == seq!['['] + json_list_text(*items, i as int),
                decreases items.len() - i,
            {
                if i > 0 {
                    out.append(",");
                    proof {
                        reveal_strlit(",");
                        assert(","@ =~= seq![',']);
                    }
                }
                proof {
                    assert(v->Arr_0 == *items);
                    assert(decreases_to!(*v => v->Arr_0));
                    assert(decreases_to!(*items => items@[i as int]));
                }
                let piece = to_compact_text(&items[i]);
                out.append(piece.as_str());
                i = i + 1;
            }
            out.append("]");
            proof {
                reveal_strlit("]");
                assert("]"@ =~= seq![']']);
                assert(out@ =~= json_text(*v));
            }
            out
        },
        JsonValue::Obj(fields) => {
            let mut out = String::from_str("{");
            proof {
                reveal_strlit("{");
                assert("{"@ =~= seq!['{']);
            }
            let mut i: usize = 0;
            while i < fields.len()
                invariant
                    *v == JsonValue::Obj(*fields),
                    i <= fields.len(),
                    out@ == seq!['{'] + json_obj_text(*fields, i as int),
                decreases fields.len() - i,
            {
                if i > 0 {
                    out.append(",");
                    proof {
                        reveal_strlit(",");
                        assert(","@ =~= seq![',']);
                    }
                }
                out.append("\"");
                append_escaped(&mut out, fields[i].0.as_str());
                out.append("\":");
                proof {
                    reveal_strlit("\"");
                    reveal_strlit("\":");
                    assert("\""@ =~= seq!['"']);
                    assert("\":"@ =~= seq!['"', ':']);
                }
                proof {
                    assert(v->Obj_0 == *fields);
                    assert(decreases_to!(*v => v->Obj_0));
                    assert(decreases_to!(*fields => fields@[i as int]));
                    assert(decreases_to!(fields@[i as int] => fields@[i as int].1));
                }
                let piece = to_compact_text(&fields[i].1);
                out.append(piece.as_str());
                i = i + 1;
            }
            out.append("}");
            proof {
                reveal_strlit("}");
                assert("}"@ =~= seq!['}']);
                assert(out@ =~= json_text(*v));
            }
            out
        },
    }
}

/// First member of an object's field list with the given name, as
/// `serde`-style field lookup sees it.
pub open spec fn json_get(fields: Seq<(String, JsonValue)>, name: Seq<char>) -> Option<JsonValue>
    decreases fields.len(),
{
    if fields.len() == 0 {
        None
    } else if fields[0].0@ == name {
        Some(fields[0].1)
    } else {
        json_get(fields.drop_first(), name)
    }
}

/// Looks a member up by name in an object's field list.
pub fn obj_get<'a>(fields: &'a Vec<(String, JsonValue)>, name: &str) -> (r: Option<
    &'a JsonValue,
>)
    ensures
        match r {
            Some(v) => json_get(fields@, name@) == Some(*v),
            None => json_get(fields@, name@) is None,
        },
{
    let mut i: usize = 0;
    proof {
        assert(fields@.skip(0) =~= fields@);
    }
    while i < fields.len()
        invariant
            i <= fields.len(),
            json_get(fields@, name@) == json_get(fields@.skip(i as int), name@),
        decreases fields.len() - i,
    {
        proof {
            assert(fields@.skip(i as int)[0] == fields@[i as int]);
            assert(fields@.skip(i as int).drop_first() =~= fields@.skip(i as int + 1));
        }
        if str_eq(fields[i].0.as_str(), name) {
            return Some(&fields[i].1);
        }
        i = i + 1;
    }
    None
}

/// The string payload of a JSON string value, `None` for any other shape.
pub open spec fn spec_as_str(v: JsonValue) -> Option<Seq<char>> {
    match v {
        JsonValue::Str(s) => Some(s@),
        _ => None,
    }
}

pub fn as_str_value(v: &JsonValue) -> (r: Option<String>)
    ensures
        r is Some <==> spec_as_str(*v) is Some,
        r is Some ==> r->0@ == spec_as_str(*v)->0,
{
    match v {
        JsonValue::Str(s) => Some(s.clone()),
        _ => None,
    }
}

} // verus!
