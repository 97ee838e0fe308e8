//! JSON documents made of plain values: the questions and records that go out to the mesh.
use vstd::prelude::*;

verus! {

broadcast use vstd::string::group_string_axioms;

/// A value in a JSON object.
pub enum Member<'a> {
    Flag(bool),
    Number(u64),
    Text(&'a str),
    /// An object of strings.
    Table(&'a Vec<(String, String)>),
}

/// The small hexadecimal digit of a number below sixteen.
pub open spec fn hex_digit(n: int) -> char {
    if n < 10 {
        ('0' as int + n) as char
    } else {
        ('a' as int + n - 10) as char
    }
}

/// A character inside a JSON string. Quotes, backslashes and control characters are escaped, any
/// other character stands for itself.
pub open spec fn json_char(c: char) -> Seq<char> {
    if c == '"' {
        seq!['\\', '"']
    } else if c == '\\' {
        seq!['\\', '\\']
    } else if c == '\u{8}' {
        seq!['\\', 'b']
    } else if c == '\t' {
        seq!['\\', 't']
    } else if c == '\n' {
        seq!['\\', 'n']
    } else if c == '\u{c}' {
        seq!['\\', 'f']
    } else if c == '\r' {
        seq!['\\', 'r']
    } else if '\u{0}' <= c <= '\u{1f}' {
        seq!['\\', 'u', '0', '0', hex_digit(c as int / 16), hex_digit(c as int % 16)]
    } else {
        seq![c]
    }
}

/// The characters of `s` inside a JSON string.
pub open spec fn json_chars(s: Seq<char>) -> Seq<char>
    decreases s.len(),
{
    if s.len() == 0 {
        Seq::empty()
    } else {
        json_chars(s.drop_last()) + json_char(s.last())
    }
}

/// `s` as a JSON string.
pub open spec fn json_string(s: Seq<char>) -> Seq<char> {
    seq!['"'] + json_chars(s) + seq!['"']
}

/// The decimal digits of a number.
pub open spec fn decimal(n: nat) -> Seq<char>
    decreases n,
{
    if n < 10 {
        seq![('0' as int + n) as char]
    } else {
        decimal(n / 10).push(('0' as int + n % 10) as char)
    }
}

/// Keys and the JSON of their values, with colons and commas.
pub open spec fn json_members(members: Seq<(Seq<char>, Seq<char>)>) -> Seq<char>
    decreases members.len(),
{
    if members.len() == 0 {
        Seq::empty()
    } else {
        let last = json_string(members.last().0) + seq![':'] + members.last().1;
        if members.len() == 1 {
            last
        } else {
            json_members(members.drop_last()) + seq![','] + last
        }
    }
}

/// Keys and the JSON of their values, as a JSON object without white space.
pub open spec fn json_object(members: Seq<(Seq<char>, Seq<char>)>) -> Seq<char> {
    seq!['{'] + json_members(members) + seq!['}']
}

/// Keys and strings, as a JSON object.
pub open spec fn json_table(rows: Seq<(Seq<char>, Seq<char>)>) -> Seq<char> {
    json_object(Seq::new(rows.len(), |i: int| (rows[i].0, json_string(rows[i].1))))
}

/// `true` or `false`.
pub open spec fn json_flag(b: bool) -> Seq<char> {
    if b {
        "true"@
    } else {
        "false"@
    }
}

impl<'a> Member<'a> {
    /// The JSON of the value.
    pub open spec fn json(self) -> Seq<char> {
        match self {
            Member::Flag(b) => json_flag(b),
            Member::Number(n) => decimal(n as nat),
            Member::Text(t) => json_string(t@),
            Member::Table(rows) => json_table(crate::table::row_texts(rows@)),
        }
    }

    /// A table's keys are in order, and none is there twice.
    pub open spec fn in_order(self) -> bool {
        self matches Member::Table(rows) ==> crate::table::ordered(
            crate::table::row_texts(rows@),
        )
    }
}

/// The members of an object, as keys and the JSON of their values.
pub open spec fn member_texts(members: Seq<(&str, Member)>) -> Seq<(Seq<char>, Seq<char>)> {
    Seq::new(members.len(), |i: int| (members[i].0@, members[i].1.json()))
}

/// `serde_json::Value::to_string` on the object of these members: the members in the order of
/// their keys, compact, strings escaped as `json_char` says. With the keys in order here, that is
/// the order in which they stand.
#[verifier::external_body]
pub(crate) fn to_json(members: &Vec<(&str, Member)>) -> (r: String)
    requires
        crate::table::ordered(member_texts(members@)),
        forall|i: int| 0 <= i < members@.len() ==> (#[trigger] members@[i]).1.in_order(),
    ensures
        r@ == json_object(member_texts(members@)),
{
    let mut object = serde_json::Map::new();
    for (key, member) in members {
        let value = match member {
            Member::Flag(b) => serde_json::Value::from(*b),
            Member::Number(n) => serde_json::Value::from(*n),
            Member::Text(t) => serde_json::Value::from(*t),
            Member::Table(rows) => rows.iter().map(|(k, v)| (k.as_str(), v.as_str())).collect(),
        };
        object.insert(key.to_string(), value);
    }
    serde_json::Value::Object(object).to_string()
}

/// The question that asks the hub for the bundle of a host.
pub open spec fn host_question(host: Seq<char>) -> Seq<char> {
    json_object(seq![("host"@, json_string(host))])
}

/// The question that asks the hub for the bundle of a host.
pub fn ask_for_host(host: &str) -> (r: Vec<u8>)
    ensures
        r@ == vstd::utf8::encode_utf8(host_question(host@)),
{
    let mut members: Vec<(&str, Member)> = Vec::new();
    members.push(("host", Member::Text(host)));
    assert(member_texts(members@) =~= seq![("host"@, json_string(host@))]);
    vstd::slice::slice_to_vec(to_json(&members).as_str().as_bytes())
}

} // verus!
