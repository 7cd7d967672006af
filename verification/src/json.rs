//! A JSON value held as plain data, its compact text, and key lookup.

use vstd::prelude::*;
use vstd::string::*;

verus! {

/// A JSON document. A number is held as the text that JSON writes for it;
/// an object holds its entries in order.
#[derive(Debug)]
pub enum JsonValue {
    Null,
    Bool(bool),
    Number(String),
    Str(String),
    Array(Vec<JsonValue>),
    Object(Vec<(String, JsonValue)>),
}

/// A lower-case hexadecimal digit.
pub open spec fn hex_digit(d: int) -> char {
    seq!['0', '1', '2', '3', '4', '5', '6', '7', '8', '9', 'a', 'b', 'c', 'd', 'e', 'f'][d]
}

/// How one character is written inside a JSON string literal.
pub open spec fn escape_char(c: char) -> Seq<char> {
    if c == '"' {
        seq!['\\', '"']
    } else if c == '\\' {
        seq!['\\', '\\']
    } else if c == '\u{8}' {
        seq!['\\', 'b']
    } else if c == '\t' {
        seq!['\\', 't']
    } else if c == '\n' {
        seq!['\\', 'n']
    } else if c == '\u{c}' {
        seq!['\\', 'f']
    } else if c == '\r' {
        seq!['\\', 'r']
    } else if (c as u32) < 0x20 {
        seq!['\\', 'u', '0', '0', hex_digit((c as int) / 16), hex_digit((c as int) % 16)]
    } else {
        seq![c]
    }
}

/// The characters of `s`, each escaped.
pub open spec fn escape_str(s: Seq<char>) -> Seq<char>
    decreases s.len(),
{
    if s.len() == 0 {
        Seq::empty()
    } else {
        escape_str(s.drop_last()) + escape_char(s.last())
    }
}

/// `s` as a JSON string literal.
pub open spec fn json_quote(s: Seq<char>) -> Seq<char> {
    seq!['"'] + escape_str(s) + seq!['"']
}

/// The compact JSON text of `v`: no whitespace, entries in their order.
pub open spec fn json_text(v: JsonValue) -> Seq<char>
    decreases v,
{
    match v {
        JsonValue::Null => "null"@,
        JsonValue::Bool(b) => if b {
            "true"@
        } else {
            "false"@
        },
        JsonValue::Number(t) => t@,
        JsonValue::Str(s) => json_quote(s@),
        JsonValue::Array(items) => "["@ + json_items_text(items@) + "]"@,
        JsonValue::Object(entries) => "{"@ + json_entries_text(entries@) + "}"@,
    }
}

/// The texts of `items`, separated by commas.
pub open spec fn json_items_text(items: Seq<JsonValue>) -> Seq<char>
    decreases items,
{
    if items.len() == 0 {
        Seq::empty()
    } else if items.len() == 1 {
        json_text(items[0])
    } else {
        json_items_text(items.drop_last()) + ","@ + json_text(items.last())
    }
}

/// The text of one object entry: the quoted key, a colon, the value.
pub open spec fn json_entry_text(entry: (String, JsonValue)) -> Seq<char>
    decreases entry,
{
    json_quote(entry.0@) + ":"@ + json_text(entry.1)
}

/// The texts of `entries`, separated by commas.
pub open spec fn json_entries_text(entries: Seq<(String, JsonValue)>) -> Seq<char>
    decreases entries,
{
    if entries.len() == 0 {
        Seq::empty()
    } else if entries.len() == 1 {
        json_entry_text(entries[0])
    } else {
        json_entries_text(entries.drop_last()) + ","@ + json_entry_text(entries.last())
    }
}

/// `a` and `b` are the same JSON value: the same kind, the same text for
/// numbers and strings, the same items or entries in the same order.
pub open spec fn same_json(a: JsonValue, b: JsonValue) -> bool
    decreases a,
{
    match (a, b) {
        (JsonValue::Null, JsonValue::Null) => true,
        (JsonValue::Bool(x), JsonValue::Bool(y)) => x == y,
        (JsonValue::Number(x), JsonValue::Number(y)) => x@ == y@,
        (JsonValue::Str(x), JsonValue::Str(y)) => x@ == y@,
        (JsonValue::Array(x), JsonValue::Array(y)) => same_items(x@, y@),
        (JsonValue::Object(x), JsonValue::Object(y)) => same_entries(x@, y@),
        _ => false,
    }
}

/// `a` and `b` hold the same values in the same order.
pub open spec fn same_items(a: Seq<JsonValue>, b: Seq<JsonValue>) -> bool
    decreases a,
{
    a.len() == b.len() && (a.len() == 0 || (same_items(a.drop_last(), b.drop_last()) && same_json(
        a.last(),
        b.last(),
    )))
}

/// `a` and `b` hold the same entries in the same order.
pub open spec fn same_entries(a: Seq<(String, JsonValue)>, b: Seq<(String, JsonValue)>) -> bool
    decreases a,
{
    a.len() == b.len() && (a.len() == 0 || (same_entries(a.drop_last(), b.drop_last())
        && a.last().0@ == b.last().0@ && same_json(a.last().1, b.last().1)))
}

/// A copy of `v`.
#[verifier::loop_isolation(false)]
pub fn clone_json(v: &JsonValue) -> (res: JsonValue)
    ensures
        same_json(res, *v),
    decreases v,
{
    match v {
        JsonValue::Null => JsonValue::Null,
        JsonValue::Bool(b) => JsonValue::Bool(*b),
        JsonValue::Number(t) => JsonValue::Number(t.clone()),
        JsonValue::Str(t) => JsonValue::Str(t.clone()),
        JsonValue::Array(items) => {
            let mut out: Vec<JsonValue> = Vec::new();
            let mut i: usize = 0;
            assert(items@.take(0) =~= Seq::<JsonValue>::empty());
            while i < items.len()
                invariant
                    i <= items@.len(),
                    same_items(out@, items@.take(i as int)),
                decreases items@.len() - i,
            {
                proof {
                    let ghost vv = *v;
                    assert(decreases_to!(vv => vv->Array_0));
                    assert(decreases_to!(*items => items@));
                    assert(decreases_to!(items@ => items@[i as int]));
                }
                let c = clone_json(&items[i]);
                let ghost before = out@;
                out.push(c);
                assert(out@.drop_last() =~= before);
                assert(items@.take(i + 1).drop_last() =~= items@.take(i as int));
                i = i + 1;
            }
            assert(items@.take(items@.len() as int) =~= items@);
            JsonValue::Array(out)
        },
        JsonValue::Object(entries) => {
            let mut out: Vec<(String, JsonValue)> = Vec::new();
            let mut i: usize = 0;
            assert(entries@.take(0) =~= Seq::<(String, JsonValue)>::empty());
            while i < entries.len()
                invariant
                    i <= entries@.len(),
                    same_entries(out@, entries@.take(i as int)),
                decreases entries@.len() - i,
            {
                proof {
                    let ghost vv = *v;
                    assert(decreases_to!(vv => vv->Object_0));
                    assert(decreases_to!(*entries => entries@));
                    assert(decreases_to!(entries@ => entries@[i as int]));
                    assert(decreases_to!(entries@[i as int] => entries@[i as int].1));
                }
                let c = clone_json(&entries[i].1);
                let k = entries[i].0.clone();
                let ghost before = out@;
                out.push((k, c));
                assert(out@.drop_last() =~= before);
                assert(entries@.take(i + 1).drop_last() =~= entries@.take(i as int));
                i = i + 1;
            }
            assert(entries@.take(entries@.len() as int) =~= entries@);
            JsonValue::Object(out)
        },
    }
}

impl Clone for JsonValue {
    /// A copy of `self`.
    fn clone(&self) -> (res: Self)
        ensures
            same_json(res, *self),
    {
        clone_json(self)
    }
}

/// The value of the first entry of `entries` whose key is `key`.
pub open spec fn entries_get(entries: Seq<(String, JsonValue)>, key: Seq<char>) -> Option<JsonValue>
    decreases entries.len(),
{
    if entries.len() == 0 {
        None
    } else if entries[0].0@ == key {
        Some(entries[0].1)
    } else {
        entries_get(entries.drop_first(), key)
    }
}

impl JsonValue {
    /// The value stored under `key` when `self` is an object.
    pub open spec fn spec_get(self, key: Seq<char>) -> Option<JsonValue> {
        match self {
            JsonValue::Object(entries) => entries_get(entries@, key),
            _ => None,
        }
    }

    /// The value stored under `key` when `self` is an object holding it.
    #[verifier::loop_isolation(false)]
    pub fn get(&self, key: &str) -> (res: Option<&JsonValue>)
        ensures
            match res {
                Some(r) => self.spec_get(key@) == Some(*r),
                None => self.spec_get(key@) is None,
            },
    {
        match self {
            JsonValue::Object(entries) => {
                let wanted = key.to_owned();
                let mut i: usize = 0;
                assert(entries@.skip(0) =~= entries@);
                while i < entries.len()
                    invariant
                        i <= entries@.len(),
                        wanted@ == key@,
                        entries_get(entries@, key@) == entries_get(entries@.skip(i as int), key@),
                    decreases entries@.len() - i,
                {
                    if entries[i].0 == wanted {
                        assert(entries@.skip(i as int)[0] == entries@[i as int]);
                        return Some(&entries[i].1);
                    }
                    assert(entries@.skip(i as int).drop_first() =~= entries@.skip(i + 1));
                    i = i + 1;
                }
                None
            },
            _ => None,
        }
    }

    /// The string held by `self`, when it is a string.
    pub fn as_str(&self) -> (res: Option<&str>)
        ensures
            match res {
                Some(s) => *self matches JsonValue::Str(t) && t@ == s@,
                None => !(*self is Str),
            },
    {
        match self {
            JsonValue::Str(s) => Some(s.as_str()),
            _ => None,
        }
    }
}

/// `serde_json::to_string` on a string slice: the slice as a JSON string
/// literal. serde_json escapes `"`, `\` and the characters below U+0020 (the
/// short forms `\b \t \n \f \r` where they exist, `\u00xx` with lower-case hex
/// digits for the others) and copies every other character. Its serializer
/// writes into a `Vec<u8>` and cannot fail on a string.
#[verifier::external_body]
fn quote_json_string(s: &str) -> (res: String)
    ensures
        res@ == json_quote(s@),
{
    match serde_json::to_string(s) {
        Ok(t) => t,
        Err(_) => String::new(),
    }
}

/// The compact JSON text of `v`: what `serde_json` writes for a value with
/// the same items, and the same entries in the same order.
#[verifier::loop_isolation(false)]
pub fn json_to_text(v: &JsonValue) -> (res: String)
    ensures
        res@ == json_text(*v),
    decreases v,
{
    match v {
        JsonValue::Null => "null".to_owned(),
        JsonValue::Bool(b) => if *b {
            "true".to_owned()
        } else {
            "false".to_owned()
        },
        JsonValue::Number(t) => t.clone(),
        JsonValue::Str(s) => quote_json_string(s.as_str()),
        JsonValue::Array(items) => {
            let mut out = String::new();
            let mut i: usize = 0;
            assert(items@.take(0) =~= Seq::<JsonValue>::empty());
            while i < items.len()
                invariant
                    i <= items@.len(),
                    out@ == json_items_text(items@.take(i as int)),
                decreases items@.len() - i,
            {
                proof {
                    let ghost vv = *v;
                    assert(decreases_to!(vv => vv->Array_0));
                    assert(decreases_to!(*items => items@));
                    assert(decreases_to!(items@ => items@[i as int]));
                }
                let t = json_to_text(&items[i]);
                if i > 0 {
                    out.append(",");
                }
                out.append(t.as_str());
                assert(items@.take(i + 1).drop_last() =~= items@.take(i as int));
                i = i + 1;
            }
            assert(items@.take(items@.len() as int) =~= items@);
            let mut res = "[".to_owned();
            res.append(out.as_str());
            res.append("]");
            res
        },
        JsonValue::Object(entries) => {
            let mut out = String::new();
            let mut i: usize = 0;
            assert(entries@.take(0) =~= Seq::<(String, JsonValue)>::empty());
            while i < entries.len()
                invariant
                    i <= entries@.len(),
                    out@ == json_entries_text(entries@.take(i as int)),
                decreases entries@.len() - i,
            {
                proof {
                    let ghost vv = *v;
                    assert(decreases_to!(vv => vv->Object_0));
                    assert(decreases_to!(*entries => entries@));
                    assert(decreases_to!(entries@ => entries@[i as int]));
                    assert(decreases_to!(entries@[i as int] => entries@[i as int].1));
                }
                let mut e = quote_json_string(entries[i].0.as_str());
                let t = json_to_text(&entries[i].1);
                e.append(":");
                e.append(t.as_str());
                assert(e@ == json_entry_text(entries@[i as int]));
                assert(entries@.take(i + 1)[i as int] == entries@[i as int]);
                if i > 0 {
                    out.append(",");
                }
                out.append(e.as_str());
                assert(entries@.take(i + 1).drop_last() =~= entries@.take(i as int));
                i = i + 1;
            }
            assert(entries@.take(entries@.len() as int) =~= entries@);
            let mut res = "{".to_owned();
            res.append(out.as_str());
            res.append("}");
            res
        },
    }
}

} // verus!
