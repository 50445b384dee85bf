//! The JSON operations that the server takes from `serde_json`.

use vstd::prelude::*;

verus! {

/// Whether `serde_json::from_str::<serde_json::Value>` accepts `text`.
pub uninterp spec fn json_valid(text: Seq<char>) -> bool;

/// The lowercase hex digit of `d < 16`.
pub open spec fn hex_digit(d: int) -> char {
    if d < 10 {
        (48 + d) as char
    } else {
        (87 + d) as char
    }
}

/// How `serde_json` writes one char inside a JSON string: `"` and `\\` and
/// the controls with a short form get a backslash escape, other chars below
/// U+0020 become `\u00xx` in lowercase hex, every other char stays itself.
pub open spec fn json_escape_char(c: char) -> Seq<char> {
    let n = c as u32;
    if c == '"' {
        seq!['\\', '"']
    } else if c == '\\' {
        seq!['\\', '\\']
    } else if n == 0x08 {
        seq!['\\', 'b']
    } else if n == 0x09 {
        seq!['\\', 't']
    } else if n == 0x0a {
        seq!['\\', 'n']
    } else if n == 0x0c {
        seq!['\\', 'f']
    } else if n == 0x0d {
        seq!['\\', 'r']
    } else if n < 0x20 {
        seq!['\\', 'u', '0', '0', hex_digit((n / 16) as int), hex_digit((n % 16) as int)]
    } else {
        seq![c]
    }
}

/// The escaped contents of a JSON string for `s`.
pub open spec fn json_escape(s: Seq<char>) -> Seq<char>
    decreases s.len(),
{
    if s.len() == 0 {
        seq![]
    } else {
        json_escape(s.drop_last()) + json_escape_char(s.last())
    }
}

/// The JSON string literal that `serde_json::to_string` writes for `s`.
pub open spec fn json_string_text(s: Seq<char>) -> Seq<char> {
    seq!['"'] + json_escape(s) + seq!['"']
}

/// The compact text that `serde_json` writes for the object built from
/// `entries` (key, JSON text of the value).
pub uninterp spec fn json_object_text(entries: Seq<(Seq<char>, Seq<char>)>) -> Seq<char>;

/// Parses `text` with `serde_json::from_str::<serde_json::Value>` and reports
/// whether it succeeded. Claimed: the answer is the named, deterministic
/// `json_valid` of the text; nothing is stated about which texts are valid.
#[verifier::external_body]
pub(crate) fn is_valid_json(text: &str) -> (b: bool)
    ensures
        b == json_valid(text@),
{
    serde_json::from_str::<serde_json::Value>(text).is_ok()
}

/// `serde_json::to_string` on a string slice: the quoted and escaped JSON
/// string (`format_escaped_str` with its `ESCAPE` table; serialising a `str`
/// cannot fail). Claimed: the result is `json_string_text` of `s`.
#[verifier::external_body]
pub(crate) fn json_string(s: &str) -> (r: String)
    ensures
        r@ == json_string_text(s@),
{
    serde_json::to_string(s).unwrap_or_default()
}

/// Builds a `serde_json::Map` from `entries` with `Map::insert` (a later entry
/// replaces an earlier one with the same key), each value parsed from its
/// JSON text with `serde_json::from_str` (a text that does not parse becomes
/// `null`), and writes the object with `Value`'s compact `Display`.
/// Claimed: the result is the named `json_object_text` of the entries' views.
/// Not stated: key order and escaping, which `serde_json` decides.
#[verifier::external_body]
pub(crate) fn json_object(entries: &Vec<(String, String)>) -> (r: String)
    ensures
        r@ == json_object_text(entries@.map_values(|e: (String, String)| (e.0@, e.1@))),
{
    let mut map = serde_json::Map::new();
    for e in entries.iter() {
        map.insert(e.0.clone(), serde_json::from_str(&e.1).unwrap_or(serde_json::Value::Null));
    }
    serde_json::Value::Object(map).to_string()
}

} // verus!

verus! {

/// The payload `{"type": <kind>, "data": <data>}`, where `data_json` is
/// the JSON text of the data value.
pub open spec fn typed_payload_text(kind: Seq<char>, data_json: Seq<char>) -> Seq<char> {
    json_object_text(seq![("type"@, json_string_text(kind)), ("data"@, data_json)])
}

/// Builds the JSON payload with a `type` string and a `data` value.
pub fn typed_payload(kind: &str, data_json: &str) -> (r: String)
    ensures
        r@ == typed_payload_text(kind@, data_json@),
{
    let type_json = json_string(kind);
    let mut entries: Vec<(String, String)> = Vec::new();
    entries.push((String::from_str("type"), type_json));
    entries.push((String::from_str("data"), String::from_str(data_json)));
    assert(entries@.map_values(|e: (String, String)| (e.0@, e.1@)) =~= seq![
        ("type"@, json_string_text(kind@)),
        ("data"@, data_json@),
    ]);
    json_object(&entries)
}

/// The heartbeat payload `{"type": "heartbeat", "data": <data>}` with a string
/// as its data.
pub open spec fn heartbeat_text(data: Seq<char>) -> Seq<char> {
    typed_payload_text("heartbeat"@, json_string_text(data))
}

/// Builds the heartbeat payload whose data is the string `data`.
pub fn heartbeat_payload(data: &str) -> (r: String)
    ensures
        r@ == heartbeat_text(data@),
{
    let data_json = json_string(data);
    typed_payload("heartbeat", data_json.as_str())
}

} // verus!
