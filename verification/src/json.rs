//! Texts in JSON.
use vstd::prelude::*;

use crate::guid::{guid_text, hex_digit, hyphenated_text, Guid};
use crate::number_text::{decimal, int_text};

verus! {

/// A character as it stands in a JSON string: quotation marks, backslashes and
/// control characters below the space are escaped.
pub open spec fn escaped(c: char) -> Seq<char> {
    if c == '"' || c == '\\' {
        seq!['\\', c]
    } else if c as int == 8 {
        seq!['\\', 'b']
    } else if c as int == 9 {
        seq!['\\', 't']
    } else if c as int == 10 {
        seq!['\\', 'n']
    } else if c as int == 12 {
        seq!['\\', 'f']
    } else if c as int == 13 {
        seq!['\\', 'r']
    } else if (c as int) < 32 {
        seq!['\\', 'u', '0', '0', hex_digit(c as int / 16), hex_digit(c as int % 16)]
    } else {
        seq![c]
    }
}

/// The characters as they stand in a JSON string, one after the other.
pub open spec fn escaped_text(s: Seq<char>) -> Seq<char>
    decreases s.len(),
{
    if s.len() == 0 {
        Seq::empty()
    } else {
        escaped_text(s.drop_last()) + escaped(s.last())
    }
}

/// The JSON string that stands for the given characters.
pub open spec fn json_string(s: Seq<char>) -> Seq<char> {
    seq!['"'] + escaped_text(s) + seq!['"']
}

/// The document that `serde_json` reads out of the given characters, written
/// again without spaces; none where they are no JSON document.
pub uninterp spec fn json_document(s: Seq<char>) -> Option<Seq<char>>;

/// Whether JSON writes the characters as they are: none is a quotation mark, a
/// backslash or a control character below the space.
pub open spec fn is_plain(s: Seq<char>) -> bool {
    forall|i: int| 0 <= i < s.len() ==> (#[trigger] s[i]) != '"' && s[i] != '\\' && s[i] >= ' '
}

/// A text without anything to escape stands in JSON as it is, between quotation
/// marks.
pub proof fn law_plain_text_is_only_quoted(s: Seq<char>)
    requires
        is_plain(s),
    ensures
        json_string(s) == seq!['"'] + s + seq!['"'],
{
    lemma_plain_is_not_escaped(s);
}

proof fn lemma_plain_is_not_escaped(s: Seq<char>)
    requires
        is_plain(s),
    ensures
        escaped_text(s) == s,
    decreases s.len(),
{
    if s.len() > 0 {
        lemma_plain_is_not_escaped(s.drop_last());
        assert(s.last() == s[s.len() - 1]);
        assert(s.last() >= ' ');
        assert(escaped(s.last()) == seq![s.last()]);
        assert(s.drop_last() + seq![s.last()] =~= s);
    } else {
        assert(escaped_text(s) =~= s);
    }
}

/// The `Display` of a `serde_json::Value::String`: the characters between quotation
/// marks, those that JSON does not take as they are escaped. A control character
/// without a letter of its own is escaped by its number, in lower-case hexadecimal.
#[verifier::external_body]
pub(crate) fn quote_json(s: &str) -> (r: String)
    ensures
        r@ == json_string(s@),
{
    serde_json::Value::String(s.to_owned()).to_string()
}

/// `serde_json::from_str` into a `serde_json::Value`, and the value's `Display`.
#[verifier::external_body]
pub(crate) fn compact_json(s: &str) -> (r: Option<String>)
    ensures
        match r {
            Some(t) => json_document(s@) == Some(t@),
            None => json_document(s@) is None,
        },
{
    serde_json::from_str::<serde_json::Value>(s).ok().map(|v| v.to_string())
}

/// A message's payload as JSON: the payload itself where it is a JSON document,
/// else a string that holds it.
pub open spec fn payload_json(data: Seq<char>) -> Seq<char> {
    if data.len() == 0 {
        json_string(data)
    } else {
        match json_document(data) {
            Some(t) => t,
            None => json_string(data),
        }
    }
}

/// A message to a client: its type, its id and its payload.
pub open spec fn envelope(
    message_type: Seq<char>,
    message_id: Seq<char>,
    data: Seq<char>,
) -> Seq<char> {
    r#"{"MessageType":"#@ + json_string(message_type) + r#","MessageId":"#@ + json_string(
        message_id,
    ) + r#","Data":"#@ + payload_json(data) + "}"@
}

fn payload_text(data: &str) -> (r: String)
    ensures
        r@ == payload_json(data@),
{
    if data.unicode_len() == 0 {
        return quote_json(data);
    }
    match compact_json(data) {
        Some(t) => t,
        None => quote_json(data),
    }
}

/// A message to a client: its type, its id and its payload.
pub fn envelope_text(message_type: &str, message_id: &str, data: &str) -> (r: String)
    ensures
        r@ == envelope(message_type@, message_id@, data@),
{
    let mut t: String = r#"{"MessageType":"#.to_owned();
    t.push_str(quote_json(message_type).as_str());
    t.push_str(r#","MessageId":"#);
    t.push_str(quote_json(message_id).as_str());
    t.push_str(r#","Data":"#);
    t.push_str(payload_text(data).as_str());
    t.push_str("}");
    t
}

/// The same message as an object whose members are in the order of their names.
pub open spec fn sorted_envelope(
    message_type: Seq<char>,
    message_id: Seq<char>,
    data: Seq<char>,
) -> Seq<char> {
    r#"{"Data":"#@ + payload_json(data) + r#","MessageId":"#@ + json_string(message_id)
        + r#","MessageType":"#@ + json_string(message_type) + "}"@
}

/// The same message as an object whose members are in the order of their names.
pub fn sorted_envelope_text(message_type: &str, message_id: &str, data: &str) -> (r: String)
    ensures
        r@ == sorted_envelope(message_type@, message_id@, data@),
{
    let mut t: String = r#"{"Data":"#.to_owned();
    t.push_str(payload_text(data).as_str());
    t.push_str(r#","MessageId":"#);
    t.push_str(quote_json(message_id).as_str());
    t.push_str(r#","MessageType":"#);
    t.push_str(quote_json(message_type).as_str());
    t.push_str("}");
    t
}

/// An optional number in JSON.
pub open spec fn json_number(n: Option<i64>) -> Seq<char> {
    match n {
        Some(v) => decimal(v as int),
        None => "null"@,
    }
}

/// An optional number in JSON.
pub fn number_json(n: Option<i64>) -> (r: String)
    ensures
        r@ == json_number(n),
{
    match n {
        Some(v) => int_text(v),
        None => "null".to_owned(),
    }
}

/// An identifier in JSON.
pub open spec fn json_guid(id: Guid) -> Seq<char> {
    json_string(hyphenated_text(id.value))
}

/// An identifier in JSON.
pub fn guid_json(id: Guid) -> (r: String)
    ensures
        r@ == json_guid(id),
{
    quote_json(guid_text(id).as_str())
}

} // verus!
