//! Event ids derived from the reference hash of an event (room version 6).
//!
//! A PDU's text is first brought to its canonical JSON form, and the id is
//! computed from that form, so texts that differ only in layout (member
//! order, whitespace, escapes) get the same id.

use vstd::prelude::*;
use vstd::string::*;
use crate::destination::opt_view;

verus! {

/// The canonical JSON serialization of the object that a PDU's text holds,
/// or `None` where the text holds no JSON object.
pub uninterp spec fn canonical_json_text(pdu_json: Seq<char>) -> Option<Seq<char>>;

/// Relies on `serde_json::from_str` into a `ruma::CanonicalJsonObject` and
/// on `Display` of `ruma::CanonicalJsonValue`, which writes the canonical
/// serialization: a function of the text alone; `None` where the text is
/// no JSON object.
#[verifier::external_body]
fn canonical_form(pdu_json: &str) -> (r: Option<String>)
    ensures
        opt_view(r) == canonical_json_text(pdu_json@),
{
    let object: ruma::CanonicalJsonObject = serde_json::from_str(pdu_json).ok()?;
    Some(ruma::CanonicalJsonValue::Object(object).to_string())
}

/// The reference hash (room version 6 rules) of the JSON object that a
/// canonical text holds, or `None` where it cannot be computed.
pub uninterp spec fn reference_hash_v6(canonical_json: Seq<char>) -> Option<Seq<char>>;

/// Relies on `ruma::signatures::reference_hash` under the room version 6
/// rules, on the object that `serde_json` reads from the text: the hash
/// depends on the text alone; `None` where the text is no JSON object or
/// the hash fails.
#[verifier::external_body]
fn reference_hash(canonical_json: &str) -> (r: Option<String>)
    ensures
        opt_view(r) == reference_hash_v6(canonical_json@),
{
    let object: ruma::CanonicalJsonObject = serde_json::from_str(canonical_json).ok()?;
    let rules = ruma::room_version_rules::RoomVersionRules::V6;
    ruma::signatures::reference_hash(&object, &rules).ok()
}

/// The event id of a PDU: `$` and the reference hash of its canonical form.
pub open spec fn event_id_of(pdu_json: Seq<char>) -> Option<Seq<char>> {
    match canonical_json_text(pdu_json) {
        Some(c) => match reference_hash_v6(c) {
            Some(h) => Some("$"@ + h),
            None => None,
        },
        None => None,
    }
}

/// The event id that a reference hash stands for: `$` and the hash.
pub fn event_id_from_hash(hash: &str) -> (r: String)
    ensures
        r@ == "$"@ + hash@,
{
    String::from_str("$").concat(hash)
}

/// The event id of the PDU whose JSON text is `pdu_json`, or `None` where
/// the text holds no JSON object or its reference hash cannot be computed.
pub fn derive_event_id(pdu_json: &str) -> (r: Option<String>)
    ensures
        opt_view(r) == event_id_of(pdu_json@),
{
    match canonical_form(pdu_json) {
        Some(c) => match reference_hash(c.as_str()) {
            Some(h) => Some(event_id_from_hash(h.as_str())),
            None => None,
        },
        None => None,
    }
}

/// Two PDU texts with the same canonical form get the same event id, and
/// that id is `$` followed by the reference hash of the canonical form.
pub proof fn lemma_event_id_canonical(pdu_json1: Seq<char>, pdu_json2: Seq<char>)
    requires
        canonical_json_text(pdu_json1) == canonical_json_text(pdu_json2),
    ensures
        event_id_of(pdu_json1) == event_id_of(pdu_json2),
        event_id_of(pdu_json1) matches Some(id) ==> (canonical_json_text(pdu_json1) matches Some(
            c,
        ) && reference_hash_v6(c) == Some(id.subrange(1, id.len() as int)) && id[0] == '$'),
{
    reveal_strlit("$");
    if let Some(c) = canonical_json_text(pdu_json1) {
        if let Some(h) = reference_hash_v6(c) {
            assert(("$"@ + h).subrange(1, ("$"@ + h).len() as int) =~= h);
        }
    }
}

} // verus!
