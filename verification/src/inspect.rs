//! Inspect IPC bridge: the request and response of the one line-JSON
//! exchange with a sidecar's inspect socket.
//!
//! Wire format (one line per direction):
//!   request:  `{"event":"...","payload":<json>}\n`
//!   response: `{"ok":true,"data":<json>}\n` or `{"ok":false,"error":"..."}\n`
//!
//! JSON values are `serde_json::Value`s. What the logic reads from them is
//! stated through names for what `serde_json` gives: the parsed document
//! (`json_from_str`), a member (`json_get`), a boolean (`json_bool`) and a
//! string (`json_str`).
use vstd::prelude::*;

use crate::text::{cat3, copy_str, trim, trim_str};

verus! {

#[verifier::external_type_specification]
#[verifier::external_body]
pub struct ExJsonValue(serde_json::Value);

/// One inspect request: an event name and its JSON payload.
#[derive(Debug)]
pub struct InspectRequest {
    pub event: String,
    pub payload: serde_json::Value,
}

/// The answer of an inspect endpoint: its data, or its error message.
#[derive(Debug)]
pub enum InspectResponse {
    Data(serde_json::Value),
    Error(String),
}

/// What `serde_json::from_str::<Value>` gives for `text`: the document it
/// holds, or the message (the `Display` of `serde_json::Error`) with which it
/// is refused. It depends on the text alone.
pub uninterp spec fn json_from_str(text: Seq<char>) -> Result<serde_json::Value, Seq<char>>;

/// What `Value::get` gives for the member `key`: the member of an object,
/// `None` for a missing member or a value that is no object.
pub uninterp spec fn json_get(value: serde_json::Value, key: Seq<char>) -> Option<serde_json::Value>;

/// What `Value::as_bool` gives: the boolean a value holds, if it is one.
pub uninterp spec fn json_bool(value: serde_json::Value) -> Option<bool>;

/// What `Value::as_str` gives: the string a value holds, if it is one.
pub uninterp spec fn json_str(value: serde_json::Value) -> Option<Seq<char>>;

/// The JSON `null`: the document that the text `null` holds.
pub open spec fn json_null_value() -> serde_json::Value {
    json_from_str("null"@)->Ok_0
}

/// The refusal of `text` as JSON, if any.
pub open spec fn json_parse_error(text: Seq<char>) -> Option<Seq<char>> {
    match json_from_str(text) {
        Ok(_) => None,
        Err(m) => Some(m),
    }
}

/// `serde_json::from_str::<Value>`: the document `text` holds, or the
/// refusal message (the `Display` of `serde_json::Error`), as `json_from_str`
/// names them.
#[verifier::external_body]
fn json_parse(text: &str) -> (res: Result<serde_json::Value, String>)
    ensures
        match res {
            Ok(v) => json_from_str(text@) == Ok::<serde_json::Value, Seq<char>>(v),
            Err(m) => json_from_str(text@) == Err::<serde_json::Value, Seq<char>>(m@),
        },
{
    match serde_json::from_str::<serde_json::Value>(text) {
        Ok(v) => Ok(v),
        Err(e) => Err(e.to_string()),
    }
}

/// `serde_json::Value::Null`, which is what `serde_json::from_str` gives for
/// the text `null`.
#[verifier::external_body]
fn json_null() -> (v: serde_json::Value)
    ensures
        v == json_null_value(),
{
    serde_json::Value::Null
}

/// `Value::get(key)`, cloned: the member `key` of an object.
#[verifier::external_body]
fn json_member(value: &serde_json::Value, key: &str) -> (r: Option<serde_json::Value>)
    ensures
        r == json_get(*value, key@),
{
    value.get(key).cloned()
}

/// `Value::as_bool`: the boolean a value holds, if it is one.
#[verifier::external_body]
fn json_as_bool(value: &serde_json::Value) -> (r: Option<bool>)
    ensures
        r == json_bool(*value),
{
    value.as_bool()
}

/// `Value::as_str`, copied: the string a value holds, if it is one.
#[verifier::external_body]
fn json_as_str(value: &serde_json::Value) -> (r: Option<String>)
    ensures
        match r {
            Some(s) => json_str(*value) == Some(s@),
            None => json_str(*value) is None,
        },
{
    value.as_str().map(String::from)
}

pub const EMPTY_RESPONSE_MESSAGE: &'static str = "inspect endpoint returned empty response";

pub const NOT_OK_MESSAGE: &'static str = "inspect endpoint returned ok=false";

/// The refusal of a payload argument: none for an absent or empty payload;
/// otherwise the JSON parser's refusal, framed.
pub open spec fn payload_error(payload: Option<Seq<char>>) -> Option<Seq<char>> {
    match payload {
        Some(text) if text.len() > 0 => match json_parse_error(text) {
            Some(e) => Some(
                "payload is not valid JSON: "@ + e + "; quote the payload as a single argument"@,
            ),
            None => None,
        },
        _ => None,
    }
}

/// The payload value of an accepted payload argument: the document the text
/// holds, or null for an absent or empty payload.
pub open spec fn payload_value(payload: Option<Seq<char>>) -> serde_json::Value {
    match payload {
        Some(text) if text.len() > 0 => json_from_str(text)->Ok_0,
        _ => json_null_value(),
    }
}

/// The JSON payload of `inspect <sidecar> <event> [<json-payload>]`: null
/// when absent or empty, else the document the text holds.
pub fn parse_payload(payload: Option<&str>) -> (res: Result<serde_json::Value, String>)
    ensures
        match res {
            Ok(v) => payload_error(
                match payload {
                    Some(p) => Some(p@),
                    None => None,
                },
            ) is None && v == payload_value(
                match payload {
                    Some(p) => Some(p@),
                    None => None,
                },
            ),
            Err(m) => payload_error(
                match payload {
                    Some(p) => Some(p@),
                    None => None,
                },
            ) == Some(m@),
        },
{
    match payload {
        Some(text) if !text.is_empty() => match json_parse(text) {
            Ok(v) => Ok(v),
            Err(e) => Err(
                cat3(
                    "payload is not valid JSON: ",
                    e.as_str(),
                    "; quote the payload as a single argument",
                ),
            ),
        },
        _ => Ok(json_null()),
    }
}

/// The response that the members of an answer make: with `ok` true, its
/// data (null when absent); otherwise its `error` text, or a stock message.
pub fn response_from(
    ok: Option<bool>,
    data: Option<serde_json::Value>,
    error: Option<String>,
) -> (r: InspectResponse)
    ensures
        ok == Some(true) ==> r is Data && r->Data_0 == match data {
            Some(v) => v,
            None => json_null_value(),
        },
        ok != Some(true) ==> r is Error && r->Error_0@ == match error {
            Some(e) => e@,
            None => NOT_OK_MESSAGE@,
        },
{
    match ok {
        Some(true) => match data {
            Some(v) => InspectResponse::Data(v),
            None => InspectResponse::Data(json_null()),
        },
        _ => match error {
            Some(e) => InspectResponse::Error(e),
            None => InspectResponse::Error(copy_str(NOT_OK_MESSAGE)),
        },
    }
}

/// The refusal of an answer line: empty once trimmed, or not JSON.
pub open spec fn response_error(text: Seq<char>) -> Option<Seq<char>> {
    if trim(text).len() == 0 {
        Some(EMPTY_RESPONSE_MESSAGE@)
    } else {
        json_parse_error(trim(text))
    }
}

/// The `ok` member of an answer document is `true`.
pub open spec fn answer_ok(doc: serde_json::Value) -> bool {
    match json_get(doc, "ok"@) {
        Some(flag) => json_bool(flag) == Some(true),
        None => false,
    }
}

/// The data of an answer document: its `data` member, or null.
pub open spec fn answer_data(doc: serde_json::Value) -> serde_json::Value {
    match json_get(doc, "data"@) {
        Some(d) => d,
        None => json_null_value(),
    }
}

/// The error text of an answer document: its `error` member when that is a
/// string, else the stock message.
pub open spec fn answer_error(doc: serde_json::Value) -> Seq<char> {
    match json_get(doc, "error"@) {
        Some(e) => match json_str(e) {
            Some(m) => m,
            None => NOT_OK_MESSAGE@,
        },
        None => NOT_OK_MESSAGE@,
    }
}

/// The document an answer line holds, once trimmed.
pub open spec fn answer_document(text: Seq<char>) -> serde_json::Value {
    json_from_str(trim(text))->Ok_0
}

/// Reads the answer line of an inspect endpoint: the `data` member (null
/// when absent) when the `ok` member is `true`, else the `error` text or a
/// stock message.
pub fn parse_response(text: &str) -> (res: Result<InspectResponse, String>)
    ensures
        match res {
            Ok(r) => response_error(text@) is None && match r {
                InspectResponse::Data(v) => answer_ok(answer_document(text@)) && v == answer_data(
                    answer_document(text@),
                ),
                InspectResponse::Error(m) => !answer_ok(answer_document(text@)) && m@
                    == answer_error(answer_document(text@)),
            },
            Err(m) => response_error(text@) == Some(m@),
        },
{
    let trimmed = trim_str(text);
    if trimmed.as_str().is_empty() {
        return Err(copy_str(EMPTY_RESPONSE_MESSAGE));
    }
    let value = match json_parse(trimmed.as_str()) {
        Ok(v) => v,
        Err(e) => {
            return Err(e);
        },
    };
    let ok = match json_member(&value, "ok") {
        Some(flag) => json_as_bool(&flag),
        None => None,
    };
    let data = json_member(&value, "data");
    let error = match json_member(&value, "error") {
        Some(message) => json_as_str(&message),
        None => None,
    };
    Ok(response_from(ok, data, error))
}

} // verus!
