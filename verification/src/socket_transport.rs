//! Application events as they travel inside the messages of an authenticated connection.

use crate::json::{
    copy_value, has_fraction, is_json, json_member, json_object, json_parse, json_quoted, json_string, member,
    nesting, null_value, parse_bytes, print, readable_members, reads_back, string_value,
    value_text, ObjectWriter,
};
use vstd::prelude::*;
use vstd::string::*;
use vstd::utf8::*;

verus! {

broadcast use vstd::string::group_string_axioms;

/// The members of an event: its data, as JSON text, and its name.
pub open spec fn event_members(name: Seq<char>, data: Seq<char>) -> Seq<(Seq<char>, Seq<char>)> {
    seq![("data"@, data), ("eventName"@, json_quoted(name))]
}

/// The event that bytes stand for, its name and its data as JSON text: none, when the bytes are no
/// JSON or there is no name. An event without data has null for them.
pub open spec fn event_of(payload: Seq<u8>) -> Option<(Seq<char>, Seq<char>)> {
    if !valid_utf8(payload) {
        None
    } else {
        match json_parse(decode_utf8(payload)) {
            Err(_) => None,
            Ok(v) => match json_member(v, "eventName"@) {
                None => None,
                Some(m) => match json_string(m) {
                    None => None,
                    Some(name) => Some(
                        (
                            name,
                            match json_member(v, "data"@) {
                                Some(d) => d,
                                None => "null"@,
                            },
                        ),
                    ),
                },
            },
        }
    }
}

/// Whether data with this text is read back from inside an event: it nests no deeper than the
/// reader allows there, and all its numbers are integers or are read back from the text alone.
pub open spec fn survives(data: Seq<char>) -> bool {
    nesting(data) <= 126 && (!has_fraction(data) || is_json(data))
}

/// The bytes of an event. The event is read back from them whenever its data survive.
pub fn encode_ws_event(event_name: &str, data: &serde_json::Value) -> (r: Vec<u8>)
    ensures
        r@ == encode_utf8(json_object(event_members(event_name@, value_text(*data)))),
        survives(value_text(*data)) ==> event_of(r@) == Some((event_name@, value_text(*data))),
{
    let text = print(data);
    let mut w = ObjectWriter::new();
    w.value("data", text.as_str());
    w.string("eventName", event_name);
    let ghost ms = event_members(event_name@, value_text(*data));
    assert(w.members() =~= ms);
    let body = w.finish();
    proof {
        encode_utf8_valid_utf8(body@);
        encode_utf8_decode_utf8(body@);
        reveal_strlit("data");
        reveal_strlit("eventName");
        assert("data"@.len() != "eventName"@.len());
        if survives(value_text(*data)) {
            assert(crate::json::is_string_text(ms[1].1));
            assert(readable_members(ms));
            assert(ms[1].1 == json_quoted(event_name@));
            assert(reads_back(ms));
            assert(json_member(json_parse(body@)->Ok_0, ms[0].0) == Some(ms[0].1));
            assert(json_member(json_parse(body@)->Ok_0, ms[1].0) == Some(ms[1].1));
        }
    }
    body.as_str().as_bytes_vec()
}

/// The event that bytes stand for.
pub fn decode_ws_event(payload: &[u8]) -> (r: Option<(String, serde_json::Value)>)
    ensures
        match r {
            Some((name, data)) => event_of(payload@) == Some((name@, value_text(data))),
            None => event_of(payload@) is None,
        },
{
    let v = match parse_bytes(payload) {
        None => {
            return None;
        },
        Some(v) => v,
    };
    let name = match member(&v, "eventName") {
        None => {
            return None;
        },
        Some(m) => match string_value(m) {
            None => {
                return None;
            },
            Some(s) => s.to_owned(),
        },
    };
    let data = match member(&v, "data") {
        Some(d) => copy_value(d),
        None => null_value(),
    };
    Some((name, data))
}

/// An event says its name, quoted, and its data as they are, each under its own name, and nothing
/// else. Bytes are read as an event exactly when they are JSON with a name that is a text; the data
/// are those under their name, or null.
pub proof fn events_say_their_name_and_data(name: Seq<char>, data: Seq<char>, payload: Seq<u8>)
    ensures
        event_members(name, data).len() == 2,
        event_members(name, data).contains(("eventName"@, json_quoted(name))),
        event_members(name, data).contains(("data"@, data)),
        event_of(payload) is Some <==> valid_utf8(payload) && (json_parse(decode_utf8(payload))
            matches Ok(v) && json_member(v, "eventName"@) is Some && json_string(
            json_member(v, "eventName"@)->0,
        ) is Some),
        event_of(payload) matches Some((n, d)) ==> {
            let v = json_parse(decode_utf8(payload))->Ok_0;
            &&& json_string(json_member(v, "eventName"@)->0) == Some(n)
            &&& json_member(v, "data"@) is Some ==> d == json_member(v, "data"@)->0
            &&& json_member(v, "data"@) is None ==> d == "null"@
        },
{
    let ms = event_members(name, data);
    assert(ms[0] == ("data"@, data));
    assert(ms[1] == ("eventName"@, json_quoted(name)));
}

} // verus!
