//! The JSON envelopes sent to remote operators.
//!
//! Every outgoing text frame is `{"message":<payload>,"target":"<target>"}`,
//! with the fields in that order and no whitespace.

use vstd::prelude::*;
use vstd::string::*;
use crate::tokens::Role;

verus! {

/// The JSON string literal that encodes `s`.
pub uninterp spec fn json_string_of(s: Seq<char>) -> Seq<char>;

/// Relies on serde_json::to_string: a `str` serializes to a JSON string
/// literal whose text depends on the characters alone; writing into a
/// `String` cannot fail.
#[verifier::external_body]
fn json_string(s: &str) -> (r: String)
    ensures
        r@ == json_string_of(s@),
{
    serde_json::to_string(s).unwrap_or_default()
}

/// The JSON string literal that encodes `s`.
pub fn json_text(s: &str) -> (r: String)
    ensures
        r@ == json_string_of(s@),
{
    json_string(s)
}

/// The envelope around a payload's JSON text, given the JSON text of the target.
pub open spec fn envelope_of(message_json: Seq<char>, target_json: Seq<char>) -> Seq<char> {
    "{\"message\":"@ + message_json + ",\"target\":"@ + target_json + "}"@
}

/// The envelope of a string payload sent to `target`.
pub open spec fn text_envelope_of(target: Seq<char>, text: Seq<char>) -> Seq<char> {
    envelope_of(json_string_of(text), json_string_of(target))
}

/// The welcome payload, with the peer address, the role and the name.
pub open spec fn welcome_json_of(addr: Seq<char>, role: Role, name: Seq<char>) -> Seq<char> {
    "{\"addr\":"@ + json_string_of(addr) + ",\"role\":"@ + json_string_of(role.name_of())
        + ",\"name\":"@ + json_string_of(name) + "}"@
}

/// The debug-write payload.
pub open spec fn visualizer_json_of(scope: Seq<char>, content: Seq<char>) -> Seq<char> {
    "{\"scope\":"@ + json_string_of(scope) + ",\"content\":"@ + json_string_of(content) + "}"@
}

/// The JSON array of the given JSON texts.
pub open spec fn json_list_of(items: Seq<Seq<char>>) -> Seq<char>
    decreases items.len(),
{
    if items.len() == 0 {
        seq![]
    } else if items.len() == 1 {
        items[0]
    } else {
        json_list_of(items.drop_last()) + ","@ + items.last()
    }
}

/// The string-table payload.
pub open spec fn string_table_json_of(name: Seq<char>, values: Seq<Seq<char>>) -> Seq<char> {
    "{\"name\":"@ + json_string_of(name) + ",\"values\":["@ + json_list_of(
        values.map_values(|v: Seq<char>| json_string_of(v)),
    ) + "]}"@
}

/// Frames a payload's JSON text and a target's JSON text as an envelope.
pub fn envelope(message_json: &str, target_json: &str) -> (r: String)
    ensures
        r@ == envelope_of(message_json@, target_json@),
{
    let mut r = String::from_str("{\"message\":");
    r.append(message_json);
    r.append(",\"target\":");
    r.append(target_json);
    r.append("}");
    r
}

/// The envelope of a string payload sent to `target`.
pub fn text_envelope(target: &str, text: &str) -> (r: String)
    ensures
        r@ == text_envelope_of(target@, text@),
{
    let m = json_string(text);
    let t = json_string(target);
    envelope(m.as_str(), t.as_str())
}

/// A message for the remote side: a payload, as JSON text, and the target
/// it is routed to.
pub struct Message {
    pub message: String,
    pub target: String,
}

impl Message {
    /// The message as it goes on the wire.
    pub fn to_json(&self) -> (r: String)
        ensures
            r@ == envelope_of(self.message@, json_string_of(self.target@)),
    {
        let t = json_string(self.target.as_str());
        envelope(self.message.as_str(), t.as_str())
    }
}

/// Welcome message: the user's address, role and name.
pub struct Welcome {
    pub addr: String,
    pub role: Role,
    pub name: String,
}

impl Welcome {
    pub fn to_json(&self) -> (r: String)
        ensures
            r@ == welcome_json_of(self.addr@, self.role, self.name@),
    {
        let mut r = String::from_str("{\"addr\":");
        r.append(json_string(self.addr.as_str()).as_str());
        r.append(",\"role\":");
        r.append(json_string(self.role.as_str()).as_str());
        r.append(",\"name\":");
        r.append(json_string(self.name.as_str()).as_str());
        r.append("}");
        r
    }
}

/// Content written to a debug scope.
pub struct Visualizer {
    pub scope: String,
    pub content: String,
}

impl Visualizer {
    pub fn to_json(&self) -> (r: String)
        ensures
            r@ == visualizer_json_of(self.scope@, self.content@),
    {
        let mut r = String::from_str("{\"scope\":");
        r.append(json_string(self.scope.as_str()).as_str());
        r.append(",\"content\":");
        r.append(json_string(self.content.as_str()).as_str());
        r.append("}");
        r
    }
}

/// A named list of strings.
pub struct StringTable {
    pub name: String,
    pub values: Vec<String>,
}

impl StringTable {
    pub fn to_json(&self) -> (r: String)
        ensures
            r@ == string_table_json_of(self.name@, self.values@.map_values(|v: String| v@)),
    {
        let ghost items = self.values@.map_values(|v: String| json_string_of(v@));
        let mut r = String::from_str("{\"name\":");
        r.append(json_string(self.name.as_str()).as_str());
        r.append(",\"values\":[");
        let ghost head = r@;
        let mut i: usize = 0;
        while i < self.values.len()
            invariant
                i <= self.values.len(),
                items == self.values@.map_values(|v: String| json_string_of(v@)),
                r@ == head + json_list_of(items.subrange(0, i as int)),
            decreases self.values.len() - i,
        {
            if i > 0 {
                r.append(",");
            }
            r.append(json_string(self.values[i].as_str()).as_str());
            proof {
                let sub = items.subrange(0, i + 1);
                assert(sub.drop_last() =~= items.subrange(0, i as int));
                if i == 0 {
                    assert(json_list_of(items.subrange(0, 0)) =~= seq![]);
                }
            }
            i = i + 1;
        }
        r.append("]}");
        proof {
            assert(items.subrange(0, i as int) =~= items);
            assert(items =~= self.values@.map_values(|v: String| v@).map_values(
                |v: Seq<char>| json_string_of(v),
            ));
        }
        r
    }
}

} // verus!
