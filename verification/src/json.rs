//! JSON values as the library carries them: the compact JSON text of the
//! value, as `serde_json` writes it. Job inputs and outputs, execution
//! payloads and result data are maps to such values.
use vstd::prelude::*;
use crate::strmap::{Duplicate, StrMap};
use crate::text::push_i64_decimal;
use crate::views::{join_strings, join_with, str_vec_view};

verus! {

/// What `serde_json` reads from the JSON text `text` when that text is a
/// JSON string: the string's characters, escapes resolved; `None` when the
/// text is not valid JSON or is another kind of value.
pub uninterp spec fn json_string_content(text: Seq<char>) -> Option<Seq<char>>;

/// The lowercase hexadecimal digit of `d`, for `0 <= d < 16`.
pub open spec fn hex_digit(d: int) -> char {
    if d < 10 {
        (d + 48) as char
    } else {
        (d + 87) as char
    }
}

/// How `serde_json` writes the character `c` inside a JSON string: a quote
/// and a backslash behind a backslash; backspace, tab, line feed, form feed
/// and carriage return as `\b`, `\t`, `\n`, `\f`, `\r`; any other
/// character below U+0020 as `\u00` and two lowercase hexadecimal digits;
/// every other character as itself.
pub open spec fn json_char_escape(c: char) -> Seq<char> {
    if c == '"' {
        seq!['\\', '"']
    } else if c == '\\' {
        seq!['\\', '\\']
    } else if c == '\u{8}' {
        seq!['\\', 'b']
    } else if c == '\t' {
        seq!['\\', 't']
    } else if c == '\n' {
        seq!['\\', 'n']
    } else if c == '\u{c}' {
        seq!['\\', 'f']
    } else if c == '\r' {
        seq!['\\', 'r']
    } else if (c as int) < 32 {
        seq!['\\', 'u', '0', '0', hex_digit((c as int) / 16), hex_digit((c as int) % 16)]
    } else {
        seq![c]
    }
}

/// The characters of `s`, each escaped as `json_char_escape` says.
pub open spec fn json_escaped(s: Seq<char>) -> Seq<char>
    decreases s.len(),
{
    if s.len() == 0 {
        Seq::empty()
    } else {
        json_escaped(s.drop_last()) + json_char_escape(s.last())
    }
}

/// The compact JSON text that `serde_json` writes for the string `s`: its
/// escaped characters between double quotes.
pub open spec fn json_string_literal(s: Seq<char>) -> Seq<char> {
    seq!['"'] + json_escaped(s) + seq!['"']
}

/// Parses `text` with `serde_json::from_str` and gives the characters of the
/// string it holds. The result is named by `json_string_content`.
#[verifier::external_body]
fn decode_json_string(text: &str) -> (r: Option<String>)
    ensures
        match r {
            Some(s) => json_string_content(text@) == Some(s@),
            None => json_string_content(text@) is None,
        },
{
    match serde_json::from_str::<serde_json::Value>(text) {
        Ok(serde_json::Value::String(s)) => Some(s),
        _ => None,
    }
}

/// Writes the string `s` as a JSON value with `serde_json` (its `Display`
/// of `Value::String`, which escapes through `format_escaped_str` and its
/// `ESCAPE` table): the text `json_string_literal` states.
#[verifier::external_body]
fn encode_json_string(s: &str) -> (r: String)
    ensures
        r@ == json_string_literal(s@),
{
    serde_json::Value::String(s.to_string()).to_string()
}

/// A JSON value, held as its compact JSON text.
#[derive(Debug, Clone, PartialEq, Eq)]
pub struct JsonValue {
    pub text: String,
}

/// Inputs handed to a job, by input name.
pub type JobInputs = StrMap<JsonValue>;

/// Outputs that a job reported, by output name.
pub type JobOutputs = StrMap<JsonValue>;

/// The text that a JSON value stands for as an environment variable: a JSON
/// string gives its characters; any other value gives its JSON text.
pub open spec fn spec_env_text(text: Seq<char>) -> Seq<char> {
    match json_string_content(text) {
        Some(s) => s,
        None => text,
    }
}

impl View for JsonValue {
    type V = Seq<char>;

    open spec fn view(&self) -> Seq<char> {
        self.text@
    }
}

impl Duplicate for JsonValue {
    fn duplicate(&self) -> (r: JsonValue) {
        JsonValue { text: self.text.clone() }
    }
}

impl JsonValue {
    /// The JSON string whose characters are `s`.
    pub fn from_string(s: &str) -> (v: JsonValue)
        ensures
            v@ == json_string_literal(s@),
    {
        JsonValue { text: encode_json_string(s) }
    }

    /// The JSON number `n`.
    pub fn from_i64(n: i64) -> (v: JsonValue)
        ensures
            v@ == crate::text::int_decimal(n as int),
    {
        let mut text = String::new();
        push_i64_decimal(&mut text, n);
        assert(text@ =~= crate::text::int_decimal(n as int));
        JsonValue { text }
    }

    /// The value as an environment variable's text: the characters of a
    /// JSON string, or else the JSON text itself.
    pub fn env_text(&self) -> (s: String)
        ensures
            s@ == spec_env_text(self@),
    {
        match decode_json_string(self.text.as_str()) {
            Some(s) => s,
            None => self.text.clone(),
        }
    }

    /// The JSON object `{"logs": <logs>}` that failed jobs record as their
    /// result data.
    pub fn logs_object(logs: &str) -> (v: JsonValue)
        ensures
            v@ == "{\"logs\":"@ + json_string_literal(logs@) + "}"@,
    {
        let quoted = encode_json_string(logs);
        let mut text = String::from_str("{\"logs\":");
        text.append(quoted.as_str());
        text.append("}");
        JsonValue { text }
    }
}

/// The texts of the values of a map of JSON values.
pub open spec fn json_values(m: Map<Seq<char>, JsonValue>) -> Map<Seq<char>, Seq<char>> {
    m.map_values(|v: JsonValue| v@)
}

/// The members of a JSON object with the entries of `m`, in key order:
/// each key as a JSON string, a colon, and the value's text.
pub open spec fn object_members(m: StrMap<JsonValue>) -> Seq<Seq<char>> {
    m.key_seq().map_values(|k: Seq<char>| json_string_literal(k) + ":"@ + m@[k]@)
}

/// The compact JSON text of the object with the entries of `m`, in key
/// order, as `serde_json` writes a map of strings to values.
pub open spec fn object_text(m: StrMap<JsonValue>) -> Seq<char> {
    "{"@ + join_with(","@, object_members(m)) + "}"@
}

/// The JSON object with the entries of `m`, as compact JSON text.
pub fn object_json(m: &StrMap<JsonValue>) -> (s: String)
    ensures
        s@ == object_text(*m),
{
    let n = m.len();
    let mut members: Vec<String> = Vec::new();
    let mut i: usize = 0;
    while i < n
        invariant
            n == m.key_seq().len(),
            i <= n,
            str_vec_view(members) == object_members(*m).take(i as int),
        decreases n - i,
    {
        let k = m.key_at(i);
        let v = m.value_at(i);
        let mut member = encode_json_string(k.as_str());
        member.append(":");
        member.append(v.text.as_str());
        let ghost before = str_vec_view(members);
        members.push(member);
        assert(str_vec_view(members) =~= before.push(member@));
        assert(object_members(*m).take(i + 1) =~= object_members(*m).take(i as int).push(member@));
        i = i + 1;
    }
    assert(object_members(*m).take(n as int) =~= object_members(*m));
    let mut s = String::from_str("{");
    let body = join_strings(&members, ",");
    s.append(body.as_str());
    s.append("}");
    s
}

/// The compact JSON text of the object whose members are the string
/// entries of `m`, in key order.
pub open spec fn string_object_text(m: StrMap<String>) -> Seq<char> {
    "{"@ + join_with(
        ","@,
        m.key_seq().map_values(|k: Seq<char>| json_string_literal(k) + ":"@ + json_string_literal(m@[k]@)),
    ) + "}"@
}

/// The JSON object with the string entries of `m`, as compact JSON text.
pub fn string_object_json(m: &StrMap<String>) -> (s: String)
    ensures
        s@ == string_object_text(*m),
{
    let n = m.len();
    let ghost members_spec = m.key_seq().map_values(
        |k: Seq<char>| json_string_literal(k) + ":"@ + json_string_literal(m@[k]@),
    );
    let mut members: Vec<String> = Vec::new();
    let mut i: usize = 0;
    while i < n
        invariant
            n == m.key_seq().len(),
            i <= n,
            members_spec == m.key_seq().map_values(
                |k: Seq<char>| json_string_literal(k) + ":"@ + json_string_literal(m@[k]@),
            ),
            str_vec_view(members) == members_spec.take(i as int),
        decreases n - i,
    {
        let k = m.key_at(i);
        let v = m.value_at(i);
        let mut member = encode_json_string(k.as_str());
        member.append(":");
        let value = encode_json_string(v.as_str());
        member.append(value.as_str());
        let ghost before = str_vec_view(members);
        members.push(member);
        assert(str_vec_view(members) =~= before.push(member@));
        assert(members_spec.take(i + 1) =~= members_spec.take(i as int).push(member@));
        i = i + 1;
    }
    assert(members_spec.take(n as int) =~= members_spec);
    let mut s = String::from_str("{");
    let body = join_strings(&members, ",");
    s.append(body.as_str());
    s.append("}");
    s
}

/// The JSON text of an optional string: the string, or `null`.
pub open spec fn opt_string_text(o: Option<String>) -> Seq<char> {
    match o {
        Some(s) => json_string_literal(s@),
        None => "null"@,
    }
}

/// The JSON text of an optional string: the string, or `null`.
pub fn opt_string_json(o: &Option<String>) -> (s: String)
    ensures
        s@ == opt_string_text(*o),
{
    match o {
        Some(v) => encode_json_string(v.as_str()),
        None => String::from_str("null"),
    }
}

} // verus!
