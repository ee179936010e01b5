//! A structured value type for the dynamically shaped payloads that cross
//! the engine wire protocol: provider descriptors, model parameters, message
//! objects and tool arguments.
//!
//! Numbers are carried as their literal text, so any JSON number can pass
//! through unchanged.

use vstd::prelude::*;

verus! {

/// A dynamically shaped value, as the wire protocol carries it.
pub enum JsonValue {
    Null,
    Bool(bool),
    /// A number, kept as its literal text.
    Num(String),
    Str(String),
    Arr(Vec<JsonValue>),
    Obj(Vec<(String, JsonValue)>),
}

/// The mathematical model of a `JsonValue`.
pub enum Json {
    Null,
    Bool(bool),
    Num(Seq<char>),
    Str(Seq<char>),
    Arr(Seq<Json>),
    Obj(Seq<(Seq<char>, Json)>),
}

/// The model of a `JsonValue`.
pub open spec fn json_model(v: JsonValue) -> Json
    decreases v,
{
    match v {
        JsonValue::Null => Json::Null,
        JsonValue::Bool(b) => Json::Bool(b),
        JsonValue::Num(s) => Json::Num(s@),
        JsonValue::Str(s) => Json::Str(s@),
        JsonValue::Arr(items) => Json::Arr(view_json_list(items@)),
        JsonValue::Obj(entries) => Json::Obj(view_json_obj(entries@)),
    }
}

pub open spec fn view_json_list(items: Seq<JsonValue>) -> Seq<Json>
    decreases items,
{
    if items.len() == 0 {
        Seq::empty()
    } else {
        view_json_list(items.drop_last()).push(json_model(items.last()))
    }
}

pub open spec fn view_json_obj(entries: Seq<(String, JsonValue)>) -> Seq<(Seq<char>, Json)>
    decreases entries,
{
    if entries.len() == 0 {
        Seq::empty()
    } else {
        view_json_obj(entries.drop_last()).push(
            (entries.last().0@, json_model(entries.last().1)),
        )
    }
}

impl View for JsonValue {
    type V = Json;

    open spec fn view(&self) -> Json {
        json_model(*self)
    }
}

pub broadcast proof fn lemma_view_json_list_len(items: Seq<JsonValue>)
    ensures
        (#[trigger] view_json_list(items)).len() == items.len(),
    decreases items,
{
    if items.len() > 0 {
        lemma_view_json_list_len(items.drop_last());
    }
}

pub broadcast proof fn lemma_view_json_list_index(items: Seq<JsonValue>, i: int)
    requires
        0 <= i < items.len(),
    ensures
        #[trigger] view_json_list(items)[i] == items[i]@,
    decreases items,
{
    lemma_view_json_list_len(items);
    if i < items.len() - 1 {
        lemma_view_json_list_index(items.drop_last(), i);
    } else {
        lemma_view_json_list_len(items.drop_last());
    }
}

pub broadcast proof fn lemma_view_json_obj_len(entries: Seq<(String, JsonValue)>)
    ensures
        (#[trigger] view_json_obj(entries)).len() == entries.len(),
    decreases entries,
{
    if entries.len() > 0 {
        lemma_view_json_obj_len(entries.drop_last());
    }
}

pub broadcast proof fn lemma_view_json_obj_index(entries: Seq<(String, JsonValue)>, i: int)
    requires
        0 <= i < entries.len(),
    ensures
        #[trigger] view_json_obj(entries)[i] == (entries[i].0@, entries[i].1@),
    decreases entries,
{
    lemma_view_json_obj_len(entries);
    if i < entries.len() - 1 {
        lemma_view_json_obj_index(entries.drop_last(), i);
    } else {
        lemma_view_json_obj_len(entries.drop_last());
    }
}

/// The hexadecimal digit character for `d` (lower case).
pub open spec fn spec_hex_char(d: nat) -> char {
    if d == 0 {
        '0'
    } else if d == 1 {
        '1'
    } else if d == 2 {
        '2'
    } else if d == 3 {
        '3'
    } else if d == 4 {
        '4'
    } else if d == 5 {
        '5'
    } else if d == 6 {
        '6'
    } else if d == 7 {
        '7'
    } else if d == 8 {
        '8'
    } else if d == 9 {
        '9'
    } else if d == 10 {
        'a'
    } else if d == 11 {
        'b'
    } else if d == 12 {
        'c'
    } else if d == 13 {
        'd'
    } else if d == 14 {
        'e'
    } else {
        'f'
    }
}

/// The JSON escape of one string character.
pub open spec fn spec_escape_char(c: char) -> Seq<char> {
    if c == '"' {
        seq!['\\', '"']
    } else if c == '\\' {
        seq!['\\', '\\']
    } else if c == '\n' {
        seq!['\\', 'n']
    } else if c == '\r' {
        seq!['\\', 'r']
    } else if c == '\t' {
        seq!['\\', 't']
    } else if (c as u32) < 0x20 {
        seq![
            '\\',
            'u',
            '0',
            '0',
            spec_hex_char(((c as u32) / 16) as nat),
            spec_hex_char(((c as u32) % 16) as nat),
        ]
    } else {
        seq![c]
    }
}

/// The JSON escape of a whole string body.
pub open spec fn spec_escape(s: Seq<char>) -> Seq<char>
    decreases s.len(),
{
    if s.len() == 0 {
        Seq::empty()
    } else {
        spec_escape(s.drop_last()) + spec_escape_char(s.last())
    }
}

/// The serialized text of a JSON value: a quoted, escaped string.
pub open spec fn spec_json_string(s: Seq<char>) -> Seq<char> {
    seq!['"'] + spec_escape(s) + seq!['"']
}

/// The serialized text of a JSON value.
pub open spec fn spec_json(v: Json) -> Seq<char>
    decreases v,
{
    match v {
        Json::Null => seq!['n', 'u', 'l', 'l'],
        Json::Bool(b) => if b {
            seq!['t', 'r', 'u', 'e']
        } else {
            seq!['f', 'a', 'l', 's', 'e']
        },
        Json::Num(s) => s,
        Json::Str(s) => spec_json_string(s),
        Json::Arr(items) => seq!['['] + spec_json_list(items) + seq![']'],
        Json::Obj(entries) => seq!['{'] + spec_json_obj(entries) + seq!['}'],
    }
}

/// Comma-separated serialization of array elements.
pub open spec fn spec_json_list(items: Seq<Json>) -> Seq<char>
    decreases items,
{
    if items.len() == 0 {
        Seq::empty()
    } else if items.len() == 1 {
        spec_json(items[0])
    } else {
        spec_json_list(items.drop_last()) + seq![','] + spec_json(items.last())
    }
}

/// Comma-separated serialization of object entries.
pub open spec fn spec_json_obj(entries: Seq<(Seq<char>, Json)>) -> Seq<char>
    decreases entries,
{
    if entries.len() == 0 {
        Seq::empty()
    } else if entries.len() == 1 {
        spec_json_string(entries[0].0) + seq![':'] + spec_json(entries[0].1)
    } else {
        spec_json_obj(entries.drop_last()) + seq![','] + spec_json_string(entries.last().0)
            + seq![':'] + spec_json(entries.last().1)
    }
}

fn hex_char(d: u32) -> (c: char)
    requires
        d < 16,
    ensures
        c == spec_hex_char(d as nat),
{
    if d == 0 {
        '0'
    } else if d == 1 {
        '1'
    } else if d == 2 {
        '2'
    } else if d == 3 {
        '3'
    } else if d == 4 {
        '4'
    } else if d == 5 {
        '5'
    } else if d == 6 {
        '6'
    } else if d == 7 {
        '7'
    } else if d == 8 {
        '8'
    } else if d == 9 {
        '9'
    } else if d == 10 {
        'a'
    } else if d == 11 {
        'b'
    } else if d == 12 {
        'c'
    } else if d == 13 {
        'd'
    } else if d == 14 {
        'e'
    } else {
        'f'
    }
}

/// Appends the escaped, quoted serialization of string `s` to `out`.
pub fn write_json_string(s: &str, out: &mut Vec<char>)
    ensures
        final(out)@ == old(out)@ + spec_json_string(s@),
{
    let chars = crate::text::chars_of_str(s);
    out.push('"');
    let ghost base = out@;
    let mut i: usize = 0;
    while i < chars.len()
        invariant
            i <= chars@.len(),
            chars@ == s@,
            out@ == base + spec_escape(chars@.subrange(0, i as int)),
        decreases chars@.len() - i,
    {
        let ghost pre = chars@.subrange(0, i as int);
        let ghost post = chars@.subrange(0, i + 1 as int);
        assert(post.drop_last() =~= pre);
        assert(post.last() == chars@[i as int]);
        let c = chars[i];
        if c == '"' {
            out.push('\\');
            out.push('"');
        } else if c == '\\' {
            out.push('\\');
            out.push('\\');
        } else if c == '\n' {
            out.push('\\');
            out.push('n');
        } else if c == '\r' {
            out.push('\\');
            out.push('r');
        } else if c == '\t' {
            out.push('\\');
            out.push('t');
        } else if (c as u32) < 0x20 {
            out.push('\\');
            out.push('u');
            out.push('0');
            out.push('0');
            out.push(hex_char((c as u32) / 16));
            out.push(hex_char((c as u32) % 16));
        } else {
            out.push(c);
        }
        assert(out@ =~= base + spec_escape(post));
        i = i + 1;
    }
    out.push('"');
    assert(chars@.subrange(0, chars@.len() as int) =~= chars@);
    assert(final(out)@ =~= old(out)@ + spec_json_string(s@));
}

/// Appends the serialization of `v` to `out`.
pub fn write_json(v: &JsonValue, out: &mut Vec<char>)
    ensures
        final(out)@ == old(out)@ + spec_json(v@),
    decreases v,
{
    match v {
        JsonValue::Null => {
            out.push('n');
            out.push('u');
            out.push('l');
            out.push('l');
            assert(final(out)@ =~= old(out)@ + spec_json(v@));
        },
        JsonValue::Bool(b) => {
            if *b {
                out.push('t');
                out.push('r');
                out.push('u');
                out.push('e');
            } else {
                out.push('f');
                out.push('a');
                out.push('l');
                out.push('s');
                out.push('e');
            }
            assert(final(out)@ =~= old(out)@ + spec_json(v@));
        },
        JsonValue::Num(s) => {
            let chars = crate::text::chars_of_str(s.as_str());
            crate::text::push_chars(out, &chars);
        },
        JsonValue::Str(s) => {
            write_json_string(s.as_str(), out);
        },
        JsonValue::Arr(items) => {
            out.push('[');
            let ghost base = out@;
            let mut i: usize = 0;
            while i < items.len()
                invariant
                    i <= items@.len(),
                    *v is Arr,
                    (*v)->Arr_0@ == items@,
                    out@ == base + spec_json_list(view_json_list(items@.subrange(0, i as int))),
                decreases items@.len() - i,
            {
                proof {
                    lemma_view_json_list_len(items@.subrange(0, i as int));
                }
                if i > 0 {
                    out.push(',');
                }
                proof {
                    assert(decreases_to!(*v => (*v)->Arr_0));
                    assert(decreases_to!((*v)->Arr_0 => (*v)->Arr_0@));
                    assert(decreases_to!((*v)->Arr_0@ => (*v)->Arr_0@[i as int]));
                    assert((*v)->Arr_0@[i as int] == items@[i as int]);
                }
                write_json(&items[i], out);
                proof {
                    let pre = items@.subrange(0, i as int);
                    let post = items@.subrange(0, i + 1 as int);
                    assert(post.drop_last() =~= pre);
                    assert(post.last() == items@[i as int]);
                    assert(view_json_list(post).drop_last() =~= view_json_list(pre));
                    lemma_view_json_list_len(post);
                    if i == 0 {
                        assert(out@ =~= base + spec_json_list(view_json_list(post)));
                    } else {
                        lemma_view_json_list_len(pre);
                        assert(out@ =~= base + spec_json_list(view_json_list(post)));
                    }
                }
                i = i + 1;
            }
            out.push(']');
            assert(items@.subrange(0, items@.len() as int) =~= items@);
            assert(final(out)@ =~= old(out)@ + spec_json(v@));
        },
        JsonValue::Obj(entries) => {
            out.push('{');
            let ghost base = out@;
            let mut i: usize = 0;
            while i < entries.len()
                invariant
                    i <= entries@.len(),
                    *v is Obj,
                    (*v)->Obj_0@ == entries@,
                    out@ == base + spec_json_obj(view_json_obj(entries@.subrange(0, i as int))),
                decreases entries@.len() - i,
            {
                proof {
                    lemma_view_json_obj_len(entries@.subrange(0, i as int));
                }
                if i > 0 {
                    out.push(',');
                }
                write_json_string(entries[i].0.as_str(), out);
                out.push(':');
                proof {
                    assert(decreases_to!(*v => (*v)->Obj_0));
                    assert(decreases_to!((*v)->Obj_0 => (*v)->Obj_0@));
                    assert(decreases_to!((*v)->Obj_0@ => (*v)->Obj_0@[i as int]));
                    assert(decreases_to!((*v)->Obj_0@[i as int] => (*v)->Obj_0@[i as int].1));
                    assert((*v)->Obj_0@[i as int].1 == entries@[i as int].1);
                }
                write_json(&entries[i].1, out);
                proof {
                    let pre = entries@.subrange(0, i as int);
                    let post = entries@.subrange(0, i + 1 as int);
                    assert(post.drop_last() =~= pre);
                    assert(post.last() == entries@[i as int]);
                    assert(view_json_obj(post).drop_last() =~= view_json_obj(pre));
                    lemma_view_json_obj_len(post);
                    if i == 0 {
                        assert(out@ =~= base + spec_json_obj(view_json_obj(post)));
                    } else {
                        lemma_view_json_obj_len(pre);
                        assert(out@ =~= base + spec_json_obj(view_json_obj(post)));
                    }
                }
                i = i + 1;
            }
            out.push('}');
            assert(entries@.subrange(0, entries@.len() as int) =~= entries@);
            assert(final(out)@ =~= old(out)@ + spec_json(v@));
        },
    }
}

/// The serialization of `v` as a `String`.
pub fn json_to_string(v: &JsonValue) -> (r: String)
    ensures
        r@ == spec_json(v@),
{
    let mut out: Vec<char> = Vec::new();
    write_json(v, &mut out);
    crate::text::string_of_chars(&out)
}

} // verus!

verus! {

/// Looks a key up among object entries; the first match wins.
pub open spec fn spec_obj_lookup(entries: Seq<(Seq<char>, Json)>, key: Seq<char>) -> Option<
    Json,
>
    decreases entries,
{
    if entries.len() == 0 {
        None
    } else if entries.first().0 == key {
        Some(entries.first().1)
    } else {
        spec_obj_lookup(entries.drop_first(), key)
    }
}

/// The field `key` of `v`, when `v` is an object that has it.
pub open spec fn spec_get(v: Json, key: Seq<char>) -> Option<Json> {
    match v {
        Json::Obj(entries) => spec_obj_lookup(entries, key),
        _ => None,
    }
}

proof fn lemma_obj_lookup_step(entries: Seq<(Seq<char>, Json)>, key: Seq<char>, i: int)
    requires
        0 <= i < entries.len(),
        forall|j: int| 0 <= j < i ==> entries[j].0 != key,
    ensures
        spec_obj_lookup(entries, key) == if entries[i].0 == key {
            Some(entries[i].1)
        } else {
            spec_obj_lookup(entries.skip(i + 1), key)
        },
    decreases i,
{
    if i == 0 {
        assert(entries.drop_first() =~= entries.skip(1));
    } else {
        assert(entries.drop_first() =~= entries.skip(1));
        lemma_obj_lookup_step(entries.drop_first(), key, i - 1);
        assert(entries.drop_first()[i - 1] == entries[i]);
        assert(entries.drop_first().skip(i) =~= entries.skip(i + 1));
    }
}

proof fn lemma_obj_lookup_none(entries: Seq<(Seq<char>, Json)>, key: Seq<char>)
    requires
        forall|j: int| 0 <= j < entries.len() ==> entries[j].0 != key,
    ensures
        spec_obj_lookup(entries, key) is None,
    decreases entries,
{
    if entries.len() > 0 {
        lemma_obj_lookup_none(entries.drop_first(), key);
    }
}

impl JsonValue {
    /// The field `key` of this value, when it is an object that has it; the
    /// first entry with that key wins.
    pub fn get<'a>(&'a self, key: &str) -> (r: Option<&'a JsonValue>)
        ensures
            match r {
                Some(x) => spec_get(self@, key@) == Some(x@),
                None => spec_get(self@, key@) is None,
            },
    {
        match self {
            JsonValue::Obj(entries) => {
                let ghost m = view_json_obj(entries@);
                proof {
                    lemma_view_json_obj_len(entries@);
                }
                let mut i: usize = 0;
                while i < entries.len()
                    invariant
                        i <= entries@.len(),
                        *self is Obj,
                        (*self)->Obj_0@ == entries@,
                        m == view_json_obj(entries@),
                        m.len() == entries@.len(),
                        forall|j: int| 0 <= j < i ==> #[trigger] m[j].0 != key@,
                    decreases entries@.len() - i,
                {
                    proof {
                        lemma_view_json_obj_index(entries@, i as int);
                    }
                    if str_eq_str(entries[i].0.as_str(), key) {
                        proof {
                            lemma_obj_lookup_step(m, key@, i as int);
                        }
                        return Some(&entries[i].1);
                    }
                    i = i + 1;
                }
                proof {
                    lemma_obj_lookup_none(m, key@);
                }
                None
            },
            _ => None,
        }
    }

    /// The string content of this value, when it is a string.
    pub fn as_str<'a>(&'a self) -> (r: Option<&'a String>)
        ensures
            match r {
                Some(s) => self@ == Json::Str(s@),
                None => !(self@ is Str),
            },
    {
        match self {
            JsonValue::Str(s) => Some(s),
            _ => None,
        }
    }

    /// The entries of this value, when it is an array.
    pub fn as_arr<'a>(&'a self) -> (r: Option<&'a Vec<JsonValue>>)
        ensures
            match r {
                Some(items) => self@ == Json::Arr(view_json_list(items@)),
                None => !(self@ is Arr),
            },
    {
        match self {
            JsonValue::Arr(items) => Some(items),
            _ => None,
        }
    }
}

use crate::text::str_eq_str;
use crate::text::spec_all_digits;
use crate::text::spec_digits_value;
use crate::text::chars_of_str;
use crate::text::all_digits;
use crate::text::parse_u32_digits;

/// The numeric value of `v` as a `u32`: `v` must be a number written as bare
/// decimal digits whose value fits.
pub open spec fn spec_as_u32(v: Json) -> Option<u32> {
    match v {
        Json::Num(s) => if s.len() > 0 && spec_all_digits(s) && spec_digits_value(s)
            <= u32::MAX {
            Some(spec_digits_value(s) as u32)
        } else {
            None
        },
        _ => None,
    }
}

/// Reads `v` as a `u32` when it is a plain decimal number in range.
pub fn json_as_u32(v: &JsonValue) -> (r: Option<u32>)
    ensures
        r == spec_as_u32(v@),
{
    match v {
        JsonValue::Num(s) => {
            let chars = chars_of_str(s.as_str());
            if chars.len() == 0 {
                return None;
            }
            if !all_digits(&chars) {
                return None;
            }
            parse_u32_digits(&chars)
        },
        _ => None,
    }
}

/// The numeric value of `v` as an `i64`: a plain decimal number with an
/// optional leading minus sign, whose value fits.
pub open spec fn spec_as_i64(v: Json) -> Option<i64> {
    match v {
        Json::Num(s) => if s.len() > 0 && spec_all_digits(s) && spec_digits_value(s)
            <= i64::MAX {
            Some(spec_digits_value(s) as i64)
        } else if s.len() > 1 && s.first() == '-' && spec_all_digits(s.drop_first())
            && spec_digits_value(s.drop_first()) <= i64::MAX as nat + 1 {
            Some((0 - spec_digits_value(s.drop_first())) as i64)
        } else {
            None
        },
        _ => None,
    }
}

/// Reads `v` as an `i64` when it is a plain decimal integer in range.
pub fn json_as_i64(v: &JsonValue) -> (r: Option<i64>)
    ensures
        r == spec_as_i64(v@),
{
    match v {
        JsonValue::Num(s) => {
            let chars = chars_of_str(s.as_str());
            if chars.len() == 0 {
                return None;
            }
            if chars[0] == '-' {
                if chars.len() == 1 {
                    return None;
                }
                let digits = crate::text::subrange_chars(&chars, 1, chars.len());
                assert(digits@ =~= chars@.drop_first());
                if !all_digits(&digits) {
                    assert(!(spec_all_digits(chars@))) by {
                        assert(chars@[0] == '-');
                    }
                    return None;
                }
                assert(!(spec_all_digits(chars@))) by {
                    assert(chars@[0] == '-');
                }
                match crate::text::parse_u64_digits(&digits) {
                    Some(mag) => {
                        if mag <= i64::MAX as u64 {
                            Some(-(mag as i64))
                        } else if mag == i64::MAX as u64 + 1 {
                            Some(i64::MIN)
                        } else {
                            None
                        }
                    },
                    None => None,
                }
            } else {
                if !all_digits(&chars) {
                    return None;
                }
                assert(chars@.first() != '-');
                match crate::text::parse_u64_digits(&chars) {
                    Some(mag) => {
                        if mag <= i64::MAX as u64 {
                            Some(mag as i64)
                        } else {
                            None
                        }
                    },
                    None => None,
                }
            }
        },
        _ => None,
    }
}

} // verus!

verus! {

/// A deep copy with the same model.
pub fn clone_json(v: &JsonValue) -> (r: JsonValue)
    ensures
        r@ == v@,
    decreases v,
{
    match v {
        JsonValue::Null => JsonValue::Null,
        JsonValue::Bool(b) => JsonValue::Bool(*b),
        JsonValue::Num(s) => JsonValue::Num(s.clone()),
        JsonValue::Str(s) => JsonValue::Str(s.clone()),
        JsonValue::Arr(items) => {
            let mut out: Vec<JsonValue> = Vec::new();
            let mut i: usize = 0;
            while i < items.len()
                invariant
                    i <= items@.len(),
                    *v is Arr,
                    (*v)->Arr_0@ == items@,
                    view_json_list(out@) == view_json_list(items@.subrange(0, i as int)),
                    out@.len() == i,
                decreases items@.len() - i,
            {
                proof {
                    assert(decreases_to!(*v => (*v)->Arr_0));
                    assert(decreases_to!((*v)->Arr_0 => (*v)->Arr_0@));
                    assert(decreases_to!((*v)->Arr_0@ => (*v)->Arr_0@[i as int]));
                    assert((*v)->Arr_0@[i as int] == items@[i as int]);
                }
                let ghost before = out@;
                let c = clone_json(&items[i]);
                out.push(c);
                proof {
                    let pre = items@.subrange(0, i as int);
                    let post = items@.subrange(0, i + 1 as int);
                    assert(post.drop_last() =~= pre);
                    assert(post.last() == items@[i as int]);
                    assert(out@.drop_last() =~= before);
                    assert(view_json_list(out@) == view_json_list(post));
                }
                i = i + 1;
            }
            assert(items@.subrange(0, items@.len() as int) =~= items@);
            JsonValue::Arr(out)
        },
        JsonValue::Obj(entries) => {
            let mut out: Vec<(String, JsonValue)> = Vec::new();
            let mut i: usize = 0;
            while i < entries.len()
                invariant
                    i <= entries@.len(),
                    *v is Obj,
                    (*v)->Obj_0@ == entries@,
                    view_json_obj(out@) == view_json_obj(entries@.subrange(0, i as int)),
                    out@.len() == i,
                decreases entries@.len() - i,
            {
                proof {
                    assert(decreases_to!(*v => (*v)->Obj_0));
                    assert(decreases_to!((*v)->Obj_0 => (*v)->Obj_0@));
                    assert(decreases_to!((*v)->Obj_0@ => (*v)->Obj_0@[i as int]));
                    assert(decreases_to!((*v)->Obj_0@[i as int] => (*v)->Obj_0@[i as int].1));
                    assert((*v)->Obj_0@[i as int].1 == entries@[i as int].1);
                }
                let ghost before = out@;
                let key = entries[i].0.clone();
                let val = clone_json(&entries[i].1);
                out.push((key, val));
                proof {
                    let pre = entries@.subrange(0, i as int);
                    let post = entries@.subrange(0, i + 1 as int);
                    assert(post.drop_last() =~= pre);
                    assert(post.last() == entries@[i as int]);
                    assert(out@.drop_last() =~= before);
                    assert(out@.last().0@ == entries@[i as int].0@);
                    assert(out@.last().1@ == entries@[i as int].1@);
                    assert(view_json_obj(out@) == view_json_obj(post));
                }
                i = i + 1;
            }
            assert(entries@.subrange(0, entries@.len() as int) =~= entries@);
            JsonValue::Obj(out)
        },
    }
}

} // verus!

verus! {

/// A deep copy of a value list with the same model.
pub fn clone_json_vec(v: &Vec<JsonValue>) -> (r: Vec<JsonValue>)
    ensures
        view_json_list(r@) == view_json_list(v@),
        r@.len() == v@.len(),
{
    let mut out: Vec<JsonValue> = Vec::new();
    let mut i: usize = 0;
    while i < v.len()
        invariant
            i <= v@.len(),
            out@.len() == i,
            view_json_list(out@) == view_json_list(v@.subrange(0, i as int)),
        decreases v@.len() - i,
    {
        let ghost before = out@;
        let c = clone_json(&v[i]);
        out.push(c);
        proof {
            let pre = v@.subrange(0, i as int);
            let post = v@.subrange(0, i + 1 as int);
            assert(post.drop_last() =~= pre);
            assert(post.last() == v@[i as int]);
            assert(out@.drop_last() =~= before);
            assert(view_json_list(out@) == view_json_list(post));
        }
        i = i + 1;
    }
    assert(v@.subrange(0, v@.len() as int) =~= v@);
    out
}

} // verus!

verus! {

/// A JSON number for an unsigned value: its plain decimal text.
pub fn json_num_u64(n: u64) -> (r: JsonValue)
    ensures
        r@ == Json::Num(crate::text::spec_decimal(n as nat)),
{
    let digits = crate::text::decimal_chars(n);
    JsonValue::Num(crate::text::string_of_chars(&digits))
}

} // verus!
