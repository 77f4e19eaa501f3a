use vstd::prelude::*;

use crate::text::same_text;

verus! {

/// A JSON value as the identity service sends it.
pub enum Json {
    Null,
    Bool(bool),
    /// A number, kept as the text that denotes it.
    Number(String),
    Str(String),
    Array(Vec<Json>),
    /// The members of an object, in the order in which they are written.
    Object(Vec<(String, Json)>),
}

/// The compact JSON text of `v`.
pub open spec fn json_text(v: Json) -> Seq<char>
    decreases v,
{
    match v {
        Json::Null => "null"@,
        Json::Bool(b) => if b { "true"@ } else { "false"@ },
        Json::Number(t) => t@,
        Json::Str(s) => quoted(s@),
        Json::Array(items) => "["@ + elements_text(items@) + "]"@,
        Json::Object(members) => "{"@ + members_text(members@) + "}"@,
    }
}

/// The texts of `items`, separated by commas.
pub open spec fn elements_text(items: Seq<Json>) -> Seq<char>
    decreases items,
{
    if items.len() == 0 {
        Seq::empty()
    } else if items.len() == 1 {
        json_text(items[0])
    } else {
        elements_text(items.subrange(0, items.len() - 1)) + ","@ + json_text(items[items.len() - 1])
    }
}

/// The texts of `members`, each as `"key":value`, separated by commas.
pub open spec fn members_text(members: Seq<(String, Json)>) -> Seq<char>
    decreases members,
{
    if members.len() == 0 {
        Seq::empty()
    } else if members.len() == 1 {
        quoted(members[0].0@) + ":"@ + json_text(members[0].1)
    } else {
        members_text(members.subrange(0, members.len() - 1)) + ","@
            + quoted(members[members.len() - 1].0@) + ":"@
            + json_text(members[members.len() - 1].1)
    }
}

/// The lower-case hexadecimal digit for `n` below 16.
pub open spec fn hex_digit(n: u32) -> char {
    if n < 10 {
        ('0' as u32 + n) as char
    } else {
        ('a' as u32 + n - 10) as char
    }
}

/// How one character of a string is written between the quotes.
pub open spec fn escaped_char(c: char) -> Seq<char> {
    if c == '"' {
        seq!['\\', '"']
    } else if c == '\\' {
        seq!['\\', '\\']
    } else if c == '\u{8}' {
        seq!['\\', 'b']
    } else if c == '\t' {
        seq!['\\', 't']
    } else if c == '\n' {
        seq!['\\', 'n']
    } else if c == '\u{c}' {
        seq!['\\', 'f']
    } else if c == '\r' {
        seq!['\\', 'r']
    } else if (c as u32) < 0x20 {
        seq!['\\', 'u', '0', '0', hex_digit((c as u32) / 16), hex_digit((c as u32) % 16)]
    } else {
        seq![c]
    }
}

/// The characters of `s`, each written as `escaped_char` says.
pub open spec fn escaped(s: Seq<char>) -> Seq<char>
    decreases s.len(),
{
    if s.len() == 0 {
        Seq::empty()
    } else {
        escaped(s.drop_last()) + escaped_char(s.last())
    }
}

/// `s` as a JSON string: between double quotes, escaped.
pub open spec fn quoted(s: Seq<char>) -> Seq<char> {
    seq!['"'] + escaped(s) + seq!['"']
}

/// Writes `s` as a JSON string, with serde_json's escaper.
///
/// Trusted: `serde_json`'s `Display` of `Value::String`, which puts the text between
/// double quotes and escapes `"`, `\`, and the control characters below U+0020
/// (`\b \t \n \f \r` by name, the others as `\u00xx` with lower-case hex digits),
/// leaving every other character as it is.
#[verifier::external_body]
fn quote(s: &str) -> (r: String)
    ensures
        r@ == quoted(s@),
{
    serde_json::Value::String(s.to_owned()).to_string()
}

/// The value type of serde_json, which the parser hands out.
#[verifier::external_type_specification]
#[verifier::external_body]
pub struct ExJsonValue(serde_json::Value);

/// The JSON value that `text` denotes, as serde_json reads it; `None` where `text` is no
/// JSON text.
pub uninterp spec fn parsed_json(text: Seq<char>) -> Option<Json>;

/// The library's form of a value of serde_json: a number keeps the text that serde_json
/// writes for it, and an object its members in the order that serde_json keeps them.
#[verifier::external_body]
fn json_of_value(v: serde_json::Value) -> Json {
    match v {
        serde_json::Value::Null => Json::Null,
        serde_json::Value::Bool(b) => Json::Bool(b),
        serde_json::Value::Number(n) => Json::Number(n.to_string()),
        serde_json::Value::String(s) => Json::Str(s),
        serde_json::Value::Array(a) => Json::Array(a.into_iter().map(json_of_value).collect()),
        serde_json::Value::Object(m) => Json::Object(m.into_iter().map(|(k, v)| (k, json_of_value(v))).collect()),
    }
}

/// Reads `text` as one JSON value.
///
/// Trusted: `serde_json::from_str` into a `serde_json::Value`. Its result depends on the
/// text alone; it is named, not described: the contract says only that the same text
/// always reads as the same value.
#[verifier::external_body]
pub(crate) fn parse_json(text: &str) -> (r: Option<Json>)
    ensures
        r == parsed_json(text@),
{
    match serde_json::from_str::<serde_json::Value>(text) {
        Ok(v) => Some(json_of_value(v)),
        Err(_) => None,
    }
}

impl Json {
    /// Appends the compact JSON text of `self` to `out`.
    pub fn write_text(&self, out: &mut String)
        ensures
            final(out)@ == old(out)@ + json_text(*self),
        decreases self,
    {
        match self {
            Json::Null => out.append("null"),
            Json::Bool(b) => {
                if *b {
                    out.append("true")
                } else {
                    out.append("false")
                }
            },
            Json::Number(t) => out.append(t.as_str()),
            Json::Str(s) => {
                let q = quote(s.as_str());
                out.append(q.as_str());
            },
            Json::Array(items) => {
                let ghost start = out@;
                out.append("[");
                let mut i: usize = 0;
                while i < items.len()
                    invariant
                        i <= items.len(),
                        out@ == start + "["@ + elements_text(items@.subrange(0, i as int)),
                        *self == Json::Array(*items),
                    decreases items.len() - i,
                {
                    if i > 0 {
                        out.append(",");
                    }
                    proof {
                        assert(decreases_to!(*self => (*self)->Array_0));
                        assert(decreases_to!(*items => items@));
                        assert(decreases_to!(items@ => items@[i as int]));
                    }
                    items[i].write_text(out);
                    proof {
                        let s = items@.subrange(0, i + 1);
                        assert(s.subrange(0, s.len() - 1) =~= items@.subrange(0, i as int));
                    }
                    i = i + 1;
                }
                assert(items@.subrange(0, items.len() as int) =~= items@);
                out.append("]");
            },
            Json::Object(members) => {
                let ghost start = out@;
                out.append("{");
                let mut i: usize = 0;
                while i < members.len()
                    invariant
                        i <= members.len(),
                        out@ == start + "{"@ + members_text(members@.subrange(0, i as int)),
                        *self == Json::Object(*members),
                    decreases members.len() - i,
                {
                    if i > 0 {
                        out.append(",");
                    }
                    let q = quote(members[i].0.as_str());
                    out.append(q.as_str());
                    out.append(":");
                    proof {
                        assert(decreases_to!(*self => (*self)->Object_0));
                        assert(decreases_to!(*members => members@));
                        assert(decreases_to!(members@ => members@[i as int]));
                        assert(decreases_to!(members@[i as int] => members@[i as int].1));
                    }
                    members[i].1.write_text(out);
                    proof {
                        let s = members@.subrange(0, i + 1);
                        assert(s.subrange(0, s.len() - 1) =~= members@.subrange(0, i as int));
                    }
                    i = i + 1;
                }
                assert(members@.subrange(0, members.len() as int) =~= members@);
                out.append("}");
            },
        }
    }
}

/// Whether `i` is the first position of a member named `key`.
pub open spec fn first_with_key(members: Seq<(String, Json)>, key: Seq<char>, i: int) -> bool {
    &&& 0 <= i < members.len()
    &&& members[i].0@ == key
    &&& forall|j: int| 0 <= j < i ==> #[trigger] members[j].0@ != key
}

/// The value of the member `key` of `v`: the first one of that name, where `v` is an
/// object that has one.
pub open spec fn field(v: Json, key: Seq<char>) -> Option<Json> {
    match v {
        Json::Object(members) => {
            if exists|i: int| first_with_key(members@, key, i) {
                Some(members@[choose|i: int| first_with_key(members@, key, i)].1)
            } else {
                None
            }
        },
        _ => None,
    }
}

/// The text of `v` where it is a string.
pub open spec fn string_of(v: Option<Json>) -> Option<Seq<char>> {
    match v {
        Some(Json::Str(s)) => Some(s@),
        _ => None,
    }
}

/// The position of the first member named `key`, if there is one.
fn position_of(members: &Vec<(String, Json)>, key: &str) -> (r: Option<usize>)
    ensures
        match r {
            Some(i) => first_with_key(members@, key@, i as int),
            None => forall|i: int| 0 <= i < members.len() ==> #[trigger] members@[i].0@ != key@,
        },
{
    let mut i: usize = 0;
    while i < members.len()
        invariant
            i <= members.len(),
            forall|j: int| 0 <= j < i ==> #[trigger] members@[j].0@ != key@,
        decreases members.len() - i,
    {
        if same_text(members[i].0.as_str(), key) {
            return Some(i);
        }
        i = i + 1;
    }
    None
}

proof fn lemma_first_unique(members: Seq<(String, Json)>, key: Seq<char>, i: int)
    requires
        first_with_key(members, key, i),
    ensures
        (choose|k: int| first_with_key(members, key, k)) == i,
{
    let k = choose|k: int| first_with_key(members, key, k);
    assert(first_with_key(members, key, k));
    if k < i {
        assert(members[k].0@ != key);
    } else if k > i {
        assert(members[i].0@ != key);
    }
}

impl Json {
    /// The compact JSON text of `self`.
    pub fn to_text(&self) -> (r: String)
        ensures
            r@ == json_text(*self),
    {
        let mut out = String::new();
        self.write_text(&mut out);
        proof {
            assert(Seq::<char>::empty() + json_text(*self) =~= json_text(*self));
        }
        out
    }

    /// The value of the member `key`, where `self` is an object that has one.
    pub fn get(&self, key: &str) -> (r: Option<&Json>)
        ensures
            match r {
                Some(v) => field(*self, key@) == Some(*v),
                None => field(*self, key@) is None,
            },
    {
        match self {
            Json::Object(members) => {
                match position_of(members, key) {
                    Some(i) => {
                        proof {
                            lemma_first_unique(members@, key@, i as int);
                        }
                        Some(&members[i].1)
                    },
                    None => None,
                }
            },
            _ => None,
        }
    }

    /// Takes out the value of the member `key`, where `self` is an object that has one.
    pub fn take_field(self, key: &str) -> (r: Option<Json>)
        ensures
            r == field(self, key@),
    {
        match self {
            Json::Object(members) => {
                let mut members = members;
                match position_of(&members, key) {
                    Some(i) => {
                        proof {
                            lemma_first_unique(members@, key@, i as int);
                        }
                        let (_, v) = members.remove(i);
                        Some(v)
                    },
                    None => None,
                }
            },
            _ => None,
        }
    }

    /// The text of `self` where it is a string.
    pub fn as_str(&self) -> (r: Option<&str>)
        ensures
            match r {
                Some(t) => string_of(Some(*self)) == Some(t@),
                None => string_of(Some(*self)) is None,
            },
    {
        match self {
            Json::Str(s) => Some(s.as_str()),
            _ => None,
        }
    }
}

} // verus!
