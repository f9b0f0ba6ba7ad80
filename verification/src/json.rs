//! The library's own JSON value type, its mathematical model, and the one
//! trusted boundary where text is parsed into it.

use vstd::prelude::*;

use crate::text::push_char;
use crate::text::str_eq;
use vstd::string::StrSliceExecFns;
use vstd::string::StringExecFns;

verus! {

broadcast use {vstd::seq::group_seq_axioms, vstd::std_specs::vec::group_vec_axioms};

/// A JSON value as the library holds it. Numbers keep the literal text the
/// parser rendered them with, so no floating point runs through the logic.
#[derive(Debug)]
pub enum Json {
    Null,
    Bool(bool),
    Num(String),
    Str(String),
    Arr(Vec<Json>),
    Obj(Vec<(String, Json)>),
}

/// The mathematical model of a JSON value: the same tree over sequences of
/// characters.
#[verifier::ext_equal]
pub enum JsonModel {
    Null,
    Bool(bool),
    Num(Seq<char>),
    Str(Seq<char>),
    Arr(Seq<JsonModel>),
    Obj(Seq<(Seq<char>, JsonModel)>),
}

/// The model of a concrete JSON value.
pub open spec fn model(j: Json) -> JsonModel
    decreases j,
{
    match j {
        Json::Null => JsonModel::Null,
        Json::Bool(b) => JsonModel::Bool(b),
        Json::Num(t) => JsonModel::Num(t@),
        Json::Str(s) => JsonModel::Str(s@),
        Json::Arr(v) => JsonModel::Arr(model_seq(v@)),
        Json::Obj(m) => JsonModel::Obj(model_entries(m@)),
    }
}

/// The models of the elements of an array.
pub open spec fn model_seq(v: Seq<Json>) -> Seq<JsonModel>
    decreases v,
{
    if v.len() == 0 {
        Seq::empty()
    } else {
        model_seq(v.drop_last()).push(model(v.last()))
    }
}

/// The models of the entries of an object, in order.
pub open spec fn model_entries(m: Seq<(String, Json)>) -> Seq<(Seq<char>, JsonModel)>
    decreases m,
{
    if m.len() == 0 {
        Seq::empty()
    } else {
        model_entries(m.drop_last()).push((m.last().0@, model(m.last().1)))
    }
}

/// Element by element, the model of an array is the model of each element.
pub proof fn lemma_model_seq_index(v: Seq<Json>)
    ensures
        model_seq(v).len() == v.len(),
        forall|i: int| 0 <= i < v.len() ==> model_seq(v)[i] == model(#[trigger] v[i]),
    decreases v,
{
    if v.len() > 0 {
        lemma_model_seq_index(v.drop_last());
        assert forall|i: int| 0 <= i < v.len() implies model_seq(v)[i] == model(
            #[trigger] v[i],
        ) by {
            if i < v.len() - 1 {
                assert(v.drop_last()[i] == v[i]);
            } else {
                assert(v.last() == v[i]);
            }
        }
    }
}

/// Entry by entry, the model of an object keeps each key and models each value.
pub proof fn lemma_model_entries_index(m: Seq<(String, Json)>)
    ensures
        model_entries(m).len() == m.len(),
        forall|i: int|
            0 <= i < m.len() ==> model_entries(m)[i] == (#[trigger] m[i].0@, model(m[i].1)),
    decreases m,
{
    if m.len() > 0 {
        lemma_model_entries_index(m.drop_last());
        assert forall|i: int| 0 <= i < m.len() implies model_entries(m)[i] == (
            #[trigger] m[i].0@,
            model(m[i].1),
        ) by {
            if i < m.len() - 1 {
                assert(m.drop_last()[i] == m[i]);
            } else {
                assert(m.last() == m[i]);
            }
        }
    }
}

/// The value under the first entry with the given key, if any.
pub open spec fn spec_lookup(entries: Seq<(Seq<char>, JsonModel)>, key: Seq<char>) -> Option<
    JsonModel,
>
    decreases entries,
{
    if entries.len() == 0 {
        None
    } else if entries.first().0 == key {
        Some(entries.first().1)
    } else {
        spec_lookup(entries.drop_first(), key)
    }
}

/// Looks a key up among an object's entries, first match first.
pub fn lookup<'a>(entries: &'a Vec<(String, Json)>, key: &str) -> (r: Option<&'a Json>)
    ensures
        (match r {
            Some(j) => spec_lookup(model_entries(entries@), key@) == Some(model(*j)),
            None => spec_lookup(model_entries(entries@), key@) is None,
        }),
{
    proof {
        lemma_model_entries_index(entries@);
    }
    let ghost ms = model_entries(entries@);
    proof {
        assert(ms.skip(0) =~= ms);
    }
    let mut i: usize = 0;
    while i < entries.len()
        invariant
            i <= entries.len(),
            ms == model_entries(entries@),
            spec_lookup(ms, key@) == spec_lookup(ms.skip(i as int), key@),
            forall|k: int| 0 <= k < entries@.len() ==> ms[k] == (#[trigger] entries@[k].0@, model(
                entries@[k].1,
            )),
            ms.len() == entries@.len(),
        decreases entries.len() - i,
    {
        if str_eq(entries[i].0.as_str(), key) {
            proof {
                assert(ms.skip(i as int).first() == ms[i as int]);
            }
            return Some(&entries[i].1);
        }
        proof {
            assert(ms.skip(i as int).first() == ms[i as int]);
            assert(ms.skip(i as int).drop_first() =~= ms.skip(i as int + 1));
        }
        i = i + 1;
    }
    proof {
        assert(ms.skip(i as int) =~= Seq::empty());
    }
    None
}

/// The value of the string field with the given key, if the value is an
/// object and such a field holds a string.
pub open spec fn spec_str_field(m: JsonModel, key: Seq<char>) -> Option<Seq<char>> {
    match m {
        JsonModel::Obj(entries) => match spec_lookup(entries, key) {
            Some(JsonModel::Str(s)) => Some(s),
            _ => None,
        },
        _ => None,
    }
}

/// Reads a string field out of a JSON object, if there is one.
pub fn str_field<'a>(j: &'a Json, key: &str) -> (r: Option<&'a String>)
    ensures
        (match r {
            Some(s) => spec_str_field(model(*j), key@) == Some(s@),
            None => spec_str_field(model(*j), key@) is None,
        }),
{
    match j {
        Json::Obj(entries) => match lookup(entries, key) {
            Some(Json::Str(s)) => Some(s),
            _ => None,
        },
        _ => None,
    }
}

/// What parsing a text as JSON yields: a value, or the parser's error text.
pub enum JsonParsed {
    Value(JsonModel),
    Error(Seq<char>),
}

/// The outcome of parsing a text as JSON. Parsing is a pure function of the
/// text: the same input gives the same outcome on every call.
pub uninterp spec fn json_parse(s: Seq<char>) -> JsonParsed;

#[verifier::external_type_specification]
#[verifier::external_body]
pub struct ExValue(serde_json::Value);

/// Relies on the variants of serde_json::Value: each arm moves one variant's
/// contents across. Numbers keep the text serde_json renders them with,
/// a pure function of the numeric value; objects keep serde_json's map
/// order, which is ascending by key.
#[verifier::external_body]
fn from_value(v: serde_json::Value) -> Json {
    match v {
        serde_json::Value::Null => Json::Null,
        serde_json::Value::Bool(b) => Json::Bool(b),
        serde_json::Value::Number(n) => Json::Num(n.to_string()),
        serde_json::Value::String(s) => Json::Str(s),
        serde_json::Value::Array(a) => Json::Arr(a.into_iter().map(from_value).collect()),
        serde_json::Value::Object(o) => Json::Obj(
            o.into_iter().map(|(k, x)| (k, from_value(x))).collect(),
        ),
    }
}

/// Relies on serde_json::from_str::<serde_json::Value>: whether a text
/// parses, the value it parses to, and the error text otherwise are all
/// pure functions of the input text.
#[verifier::external_body]
pub fn parse_json(s: &str) -> (r: Result<Json, String>)
    ensures
        (match r {
            Ok(j) => json_parse(s@) == JsonParsed::Value(model(j)),
            Err(e) => json_parse(s@) == JsonParsed::Error(e@),
        }),
{
    match serde_json::from_str::<serde_json::Value>(s) {
        Ok(v) => Ok(from_value(v)),
        Err(e) => Err(e.to_string()),
    }
}

/// The character for one hexadecimal digit.
pub open spec fn hex_char(d: int) -> char {
    if d < 10 {
        crate::text::digit_char(d)
    } else if d == 10 {
        'a'
    } else if d == 11 {
        'b'
    } else if d == 12 {
        'c'
    } else if d == 13 {
        'd'
    } else if d == 14 {
        'e'
    } else {
        'f'
    }
}

/// How one character is written inside a JSON string literal: quotes and
/// backslashes are escaped, control characters get their short escapes or a
/// hexadecimal one, and everything else stands as it is.
pub open spec fn spec_escape_char(c: char) -> Seq<char> {
    if c == '"' {
        seq!['\\', '"']
    } else if c == '\\' {
        seq!['\\', '\\']
    } else if c as u32 == 8 {
        seq!['\\', 'b']
    } else if c as u32 == 12 {
        seq!['\\', 'f']
    } else if c == '\n' {
        seq!['\\', 'n']
    } else if c == '\r' {
        seq!['\\', 'r']
    } else if c == '\t' {
        seq!['\\', 't']
    } else if (c as u32) < 32 {
        seq!['\\', 'u', '0', '0', hex_char(c as int / 16), hex_char(c as int % 16)]
    } else {
        seq![c]
    }
}

/// A whole string escaped for a JSON string literal, character by character.
pub open spec fn spec_escape(s: Seq<char>) -> Seq<char>
    decreases s,
{
    if s.len() == 0 {
        Seq::empty()
    } else {
        spec_escape(s.drop_last()) + spec_escape_char(s.last())
    }
}

fn hex_char_exec(d: u32) -> (c: char)
    requires
        d < 16,
    ensures
        c == hex_char(d as int),
{
    if d == 10 {
        'a'
    } else if d == 11 {
        'b'
    } else if d == 12 {
        'c'
    } else if d == 13 {
        'd'
    } else if d == 14 {
        'e'
    } else if d == 15 {
        'f'
    } else {
        crate::text::digit_to_char(d as u64)
    }
}

fn write_escape_char(out: &mut String, c: char)
    ensures
        final(out)@ == old(out)@ + spec_escape_char(c),
{
    if c == '"' {
        push_char(out, '\\');
        push_char(out, '"');
    } else if c == '\\' {
        push_char(out, '\\');
        push_char(out, '\\');
    } else if c as u32 == 8 {
        push_char(out, '\\');
        push_char(out, 'b');
    } else if c as u32 == 12 {
        push_char(out, '\\');
        push_char(out, 'f');
    } else if c == '\n' {
        push_char(out, '\\');
        push_char(out, 'n');
    } else if c == '\r' {
        push_char(out, '\\');
        push_char(out, 'r');
    } else if c == '\t' {
        push_char(out, '\\');
        push_char(out, 't');
    } else if (c as u32) < 32 {
        push_char(out, '\\');
        push_char(out, 'u');
        push_char(out, '0');
        push_char(out, '0');
        push_char(out, hex_char_exec(c as u32 / 16));
        push_char(out, hex_char_exec(c as u32 % 16));
    } else {
        push_char(out, c);
    }
    proof {
        assert(final(out)@ =~= old(out)@ + spec_escape_char(c));
    }
}

/// Writes a string as a JSON string literal, quotes included.
fn write_escaped(out: &mut String, s: &str)
    ensures
        final(out)@ == old(out)@ + seq!['"'] + spec_escape(s@) + seq!['"'],
{
    push_char(out, '"');
    let n = s.unicode_len();
    let mut i: usize = 0;
    while i < n
        invariant
            i <= n,
            n == s@.len(),
            out@ =~= old(out)@ + seq!['"'] + spec_escape(s@.take(i as int)),
        decreases n - i,
    {
        let c = s.get_char(i);
        write_escape_char(out, c);
        proof {
            assert(s@.take(i as int + 1).drop_last() =~= s@.take(i as int));
            assert(s@.take(i as int + 1).last() == s@[i as int]);
            assert(out@ =~= old(out)@ + seq!['"'] + spec_escape(s@.take(i as int + 1)));
        }
        i = i + 1;
    }
    proof {
        assert(s@.take(s@.len() as int) =~= s@);
    }
    push_char(out, '"');
    proof {
        assert(final(out)@ =~= old(out)@ + seq!['"'] + spec_escape(s@) + seq!['"']);
    }
}

/// Two spaces for each indentation level.
pub open spec fn spec_indent(n: nat) -> Seq<char>
    decreases n,
{
    if n == 0 {
        Seq::empty()
    } else {
        spec_indent((n - 1) as nat) + seq![' ', ' ']
    }
}

/// The indentation level one deeper, capped so that it always fits in a
/// machine word whatever the nesting depth.
pub open spec fn spec_next_ind(ind: nat) -> nat {
    if ind < 65535 {
        ind + 1
    } else {
        ind
    }
}

/// The pretty-printed text of a JSON value at a given indentation level:
/// primitives inline, arrays and objects over one line per element.
pub open spec fn spec_pretty(m: JsonModel, ind: nat) -> Seq<char>
    decreases m,
{
    match m {
        JsonModel::Null => "null"@,
        JsonModel::Bool(b) => if b {
            "true"@
        } else {
            "false"@
        },
        JsonModel::Num(t) => t,
        JsonModel::Str(s) => seq!['"'] + spec_escape(s) + seq!['"'],
        JsonModel::Arr(items) => if items.len() == 0 {
            "[]"@
        } else {
            seq!['['] + spec_items(items, spec_next_ind(ind)) + seq!['\n'] + spec_indent(ind)
                + seq![']']
        },
        JsonModel::Obj(entries) => if entries.len() == 0 {
            "{}"@
        } else {
            seq!['{'] + spec_obj_body(entries, spec_next_ind(ind)) + seq!['\n'] + spec_indent(ind)
                + seq!['}']
        },
    }
}

/// The lines of a pretty-printed array body, each element indented on a line
/// of its own, with commas between elements.
pub open spec fn spec_items(items: Seq<JsonModel>, ind: nat) -> Seq<char>
    decreases items,
{
    if items.len() == 0 {
        Seq::empty()
    } else {
        spec_items(items.drop_last(), ind) + (if items.len() == 1 {
            seq!['\n']
        } else {
            seq![',', '\n']
        }) + spec_indent(ind) + spec_pretty(items.last(), ind)
    }
}

/// The lines of a pretty-printed object body: one `"key": value` line per
/// entry, with commas between entries.
pub open spec fn spec_obj_body(entries: Seq<(Seq<char>, JsonModel)>, ind: nat) -> Seq<char>
    decreases entries,
{
    if entries.len() == 0 {
        Seq::empty()
    } else {
        spec_obj_body(entries.drop_last(), ind) + (if entries.len() == 1 {
            seq!['\n']
        } else {
            seq![',', '\n']
        }) + spec_indent(ind) + seq!['"'] + spec_escape(entries.last().0) + seq!['"', ':', ' ']
            + spec_pretty(entries.last().1, ind)
    }
}

fn write_indent(out: &mut String, n: usize)
    ensures
        final(out)@ == old(out)@ + spec_indent(n as nat),
{
    let mut i: usize = 0;
    while i < n
        invariant
            i <= n,
            out@ =~= old(out)@ + spec_indent(i as nat),
        decreases n - i,
    {
        push_char(out, ' ');
        push_char(out, ' ');
        proof {
            assert(out@ =~= old(out)@ + spec_indent((i + 1) as nat));
        }
        i = i + 1;
    }
}

/// Writes the pretty-printed text of a JSON value at the given indentation
/// level onto the end of a string.
pub fn write_pretty(j: &Json, ind: usize, out: &mut String)
    ensures
        final(out)@ == old(out)@ + spec_pretty(model(*j), ind as nat),
    decreases *j,
{
    match j {
        Json::Null => {
            out.append("null");
        },
        Json::Bool(b) => {
            if *b {
                out.append("true");
            } else {
                out.append("false");
            }
        },
        Json::Num(t) => {
            out.append(t.as_str());
        },
        Json::Str(s) => {
            write_escaped(out, s.as_str());
            proof {
                assert(out@ =~= old(out)@ + spec_pretty(model(*j), ind as nat));
            }
        },
        Json::Arr(v) => {
            if v.len() == 0 {
                out.append("[]");
            } else {
                let next: usize = if ind < 65535 {
                    ind + 1
                } else {
                    ind
                };
                push_char(out, '[');
                let ghost ms = model_seq(v@);
                proof {
                    lemma_model_seq_index(v@);
                    assert(ms.take(0) =~= Seq::empty());
                    assert(out@ =~= old(out)@ + seq!['['] + spec_items(
                        ms.take(0),
                        next as nat,
                    ));
                }
                let mut i: usize = 0;
                while i < v.len()
                    invariant
                        i <= v.len(),
                        *j == Json::Arr(*v),
                        ms == model_seq(v@),
                        ms.len() == v@.len(),
                        forall|k: int| 0 <= k < v@.len() ==> ms[k] == model(#[trigger] v@[k]),
                        next as nat == spec_next_ind(ind as nat),
                        out@ =~= old(out)@ + seq!['['] + spec_items(ms.take(i as int), next as nat),
                    decreases v.len() - i,
                {
                    if i == 0 {
                        push_char(out, '\n');
                    } else {
                        push_char(out, ',');
                        push_char(out, '\n');
                    }
                    write_indent(out, next);
                    proof {
                        assert(decreases_to!(*j => (*j)->Arr_0));
                        assert((*j)->Arr_0 == *v);
                        assert(decreases_to!(*v => v@));
                        assert(decreases_to!(v@ => v@[i as int]));
                    }
                    write_pretty(&v[i], next, out);
                    proof {
                        assert(ms.take(i as int + 1).drop_last() =~= ms.take(i as int));
                        assert(ms.take(i as int + 1).last() == ms[i as int]);
                        assert(out@ =~= old(out)@ + seq!['['] + spec_items(
                            ms.take(i as int + 1),
                            next as nat,
                        ));
                    }
                    i = i + 1;
                }
                proof {
                    assert(ms.take(ms.len() as int) =~= ms);
                }
                push_char(out, '\n');
                write_indent(out, ind);
                push_char(out, ']');
                proof {
                    assert(out@ =~= old(out)@ + spec_pretty(model(*j), ind as nat));
                }
            }
        },
        Json::Obj(m) => {
            if m.len() == 0 {
                out.append("{}");
            } else {
                let next: usize = if ind < 65535 {
                    ind + 1
                } else {
                    ind
                };
                push_char(out, '{');
                let ghost ms = model_entries(m@);
                proof {
                    lemma_model_entries_index(m@);
                    assert(ms.take(0) =~= Seq::empty());
                    assert(out@ =~= old(out)@ + seq!['{'] + spec_obj_body(
                        ms.take(0),
                        next as nat,
                    ));
                }
                let mut i: usize = 0;
                while i < m.len()
                    invariant
                        i <= m.len(),
                        *j == Json::Obj(*m),
                        ms == model_entries(m@),
                        ms.len() == m@.len(),
                        forall|k: int| 0 <= k < m@.len() ==> ms[k] == (#[trigger] m@[k].0@, model(
                            m@[k].1,
                        )),
                        next as nat == spec_next_ind(ind as nat),
                        out@ =~= old(out)@ + seq!['{'] + spec_obj_body(
                            ms.take(i as int),
                            next as nat,
                        ),
                    decreases m.len() - i,
                {
                    if i == 0 {
                        push_char(out, '\n');
                    } else {
                        push_char(out, ',');
                        push_char(out, '\n');
                    }
                    write_indent(out, next);
                    write_escaped(out, m[i].0.as_str());
                    push_char(out, ':');
                    push_char(out, ' ');
                    proof {
                        assert(decreases_to!(*j => (*j)->Obj_0));
                        assert((*j)->Obj_0 == *m);
                        assert(decreases_to!(*m => m@));
                        assert(decreases_to!(m@ => m@[i as int]));
                        assert(decreases_to!(m@[i as int] => m@[i as int].1));
                    }
                    write_pretty(&m[i].1, next, out);
                    proof {
                        assert(ms.take(i as int + 1).drop_last() =~= ms.take(i as int));
                        assert(ms.take(i as int + 1).last() == ms[i as int]);
                        assert(out@ =~= old(out)@ + seq!['{'] + spec_obj_body(
                            ms.take(i as int + 1),
                            next as nat,
                        ));
                    }
                    i = i + 1;
                }
                proof {
                    assert(ms.take(ms.len() as int) =~= ms);
                }
                push_char(out, '\n');
                write_indent(out, ind);
                push_char(out, '}');
                proof {
                    assert(out@ =~= old(out)@ + spec_pretty(model(*j), ind as nat));
                }
            }
        },
    }
}

/// The pretty-printed text of a JSON value.
pub fn to_pretty(j: &Json) -> (r: String)
    ensures
        r@ == spec_pretty(model(*j), 0),
{
    let mut out = String::new();
    write_pretty(j, 0, &mut out);
    proof {
        assert(out@ =~= spec_pretty(model(*j), 0));
    }
    out
}

/// The compact text of a JSON value: no spaces, no line breaks, as a
/// request body is framed.
pub open spec fn spec_compact(m: JsonModel) -> Seq<char>
    decreases m,
{
    match m {
        JsonModel::Null => "null"@,
        JsonModel::Bool(b) => if b {
            "true"@
        } else {
            "false"@
        },
        JsonModel::Num(t) => t,
        JsonModel::Str(s) => seq!['"'] + spec_escape(s) + seq!['"'],
        JsonModel::Arr(items) => seq!['['] + spec_compact_items(items) + seq![']'],
        JsonModel::Obj(entries) => seq!['{'] + spec_compact_entries(entries) + seq!['}'],
    }
}

/// The elements of a compact array body, comma-separated.
pub open spec fn spec_compact_items(items: Seq<JsonModel>) -> Seq<char>
    decreases items,
{
    if items.len() == 0 {
        Seq::empty()
    } else if items.len() == 1 {
        spec_compact(items[0])
    } else {
        spec_compact_items(items.drop_last()) + seq![','] + spec_compact(items.last())
    }
}

/// The entries of a compact object body: `"key":value`, comma-separated.
pub open spec fn spec_compact_entries(entries: Seq<(Seq<char>, JsonModel)>) -> Seq<char>
    decreases entries,
{
    if entries.len() == 0 {
        Seq::empty()
    } else {
        spec_compact_entries(entries.drop_last()) + (if entries.len() == 1 {
            Seq::empty()
        } else {
            seq![',']
        }) + seq!['"'] + spec_escape(entries.last().0) + seq!['"', ':'] + spec_compact(
            entries.last().1,
        )
    }
}

/// Writes the compact text of a JSON value onto the end of a string.
#[verifier::loop_isolation(false)]
pub fn write_compact(j: &Json, out: &mut String)
    ensures
        final(out)@ == old(out)@ + spec_compact(model(*j)),
    decreases *j,
{
    match j {
        Json::Null => {
            out.append("null");
        },
        Json::Bool(b) => {
            if *b {
                out.append("true");
            } else {
                out.append("false");
            }
        },
        Json::Num(t) => {
            out.append(t.as_str());
        },
        Json::Str(s) => {
            write_escaped(out, s.as_str());
            proof {
                assert(out@ =~= old(out)@ + spec_compact(model(*j)));
            }
        },
        Json::Arr(v) => {
            push_char(out, '[');
            let ghost ms = model_seq(v@);
            proof {
                lemma_model_seq_index(v@);
                assert(ms.take(0) =~= Seq::empty());
            }
            let mut i: usize = 0;
            while i < v.len()
                invariant
                    i <= v.len(),
                    out@ =~= old(out)@ + seq!['['] + spec_compact_items(ms.take(i as int)),
                decreases v.len() - i,
            {
                if i > 0 {
                    push_char(out, ',');
                }
                proof {
                    assert(decreases_to!(*j => (*j)->Arr_0));
                    assert((*j)->Arr_0 == *v);
                    assert(decreases_to!(*v => v@));
                    assert(decreases_to!(v@ => v@[i as int]));
                }
                write_compact(&v[i], out);
                proof {
                    assert(ms.take(i as int + 1).drop_last() =~= ms.take(i as int));
                    assert(ms.take(i as int + 1).last() == ms[i as int]);
                    assert(out@ =~= old(out)@ + seq!['['] + spec_compact_items(
                        ms.take(i as int + 1),
                    ));
                }
                i = i + 1;
            }
            proof {
                assert(ms.take(ms.len() as int) =~= ms);
            }
            push_char(out, ']');
            proof {
                assert(out@ =~= old(out)@ + spec_compact(model(*j)));
            }
        },
        Json::Obj(m) => {
            push_char(out, '{');
            let ghost ms = model_entries(m@);
            proof {
                lemma_model_entries_index(m@);
                assert(ms.take(0) =~= Seq::empty());
            }
            let mut i: usize = 0;
            while i < m.len()
                invariant
                    i <= m.len(),
                    out@ =~= old(out)@ + seq!['{'] + spec_compact_entries(ms.take(i as int)),
                decreases m.len() - i,
            {
                if i > 0 {
                    push_char(out, ',');
                }
                write_escaped(out, m[i].0.as_str());
                push_char(out, ':');
                proof {
                    assert(decreases_to!(*j => (*j)->Obj_0));
                    assert((*j)->Obj_0 == *m);
                    assert(decreases_to!(*m => m@));
                    assert(decreases_to!(m@ => m@[i as int]));
                    assert(decreases_to!(m@[i as int] => m@[i as int].1));
                }
                write_compact(&m[i].1, out);
                proof {
                    assert(ms.take(i as int + 1).drop_last() =~= ms.take(i as int));
                    assert(ms.take(i as int + 1).last() == ms[i as int]);
                    assert(out@ =~= old(out)@ + seq!['{'] + spec_compact_entries(
                        ms.take(i as int + 1),
                    ));
                }
                i = i + 1;
            }
            proof {
                assert(ms.take(ms.len() as int) =~= ms);
            }
            push_char(out, '}');
            proof {
                assert(out@ =~= old(out)@ + spec_compact(model(*j)));
            }
        },
    }
}

/// The compact text of a JSON value.
pub fn to_compact(j: &Json) -> (r: String)
    ensures
        r@ == spec_compact(model(*j)),
{
    let mut out = String::new();
    write_compact(j, &mut out);
    proof {
        assert(out@ =~= spec_compact(model(*j)));
    }
    out
}

} // verus!
