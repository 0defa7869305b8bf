//! The boundary to `serde_json`: parsing and serializing structured
//! payloads.  A structured metric stores the canonical serialization of
//! its payload, so everything downstream works on plain text.

use vstd::prelude::*;

verus! {

#[verifier::external_type_specification]
#[verifier::external_body]
pub struct ExJsonValue(serde_json::Value);

/// Whether `s` parses as a JSON document: what
/// `serde_json::from_str::<serde_json::Value>` accepts.
pub uninterp spec fn json_valid(s: Seq<char>) -> bool;

/// The canonical serialization of the JSON document `s`: what
/// `serde_json::to_string` produces for the parsed form of `s`.
pub uninterp spec fn json_canon(s: Seq<char>) -> Seq<char>;

/// Relies on `serde_json::from_str::<serde_json::Value>` followed by
/// `serde_json::to_string`: parsing succeeds exactly for valid JSON text,
/// both are deterministic functions of the text, and serializing a `Value`
/// cannot fail (its maps are keyed by strings and its `Serialize`
/// implementation is infallible).  The canonical form re-parses to the
/// same `Value`, so canonicalizing it again returns it unchanged: floats
/// are printed as their shortest round-tripping decimal, and this crate
/// enables serde_json's `float_roundtrip` feature so that parsing such a
/// decimal is correctly rounding and recovers the identical float (the
/// default fast-path parser can land on a neighbouring value).
#[verifier::external_body]
pub(crate) fn canonicalize_json(s: &str) -> (r: Option<String>)
    ensures
        r is Some <==> json_valid(s@),
        r matches Option::Some(t) ==> t@ == json_canon(s@) && json_valid(t@) && json_canon(t@)
            == t@,
{
    match serde_json::from_str::<serde_json::Value>(s) {
        Ok(v) => serde_json::to_string(&v).ok(),
        Err(_) => None,
    }
}

/// The serialization of a parsed `Value`: what `serde_json::to_string`
/// produces for it, a deterministic function of the value alone.
pub uninterp spec fn value_text_of(v: serde_json::Value) -> Seq<char>;

/// Relies on `serde_json::to_string` on an already-parsed `Value`,
/// re-checked with `serde_json::from_str`: serialization is deterministic
/// and infallible for a `Value` (string-keyed maps, finite numbers), but
/// the serializer has no depth limit while the parser refuses nesting
/// deeper than it accepts — so the produced text is returned only when it
/// parses back.  An accepted text then re-parses to the same `Value` and
/// is its own canonical form: shortest round-tripping float printing,
/// with the `float_roundtrip` feature making the parse of such decimals
/// correctly rounding.  The serializer recurses on nesting, so a
/// pathologically deep `Value` (buildable only iteratively) may exhaust
/// the stack before this returns; that resource bound is outside the
/// contract.
#[verifier::external_body]
pub(crate) fn value_to_text(v: &serde_json::Value) -> (r: Option<String>)
    ensures
        r is Some <==> json_valid(value_text_of(*v)),
        r matches Option::Some(t) ==> t@ == value_text_of(*v) && json_valid(t@) && json_canon(t@)
            == t@,
{
    match serde_json::to_string(v) {
        Ok(t) => match serde_json::from_str::<serde_json::Value>(&t) {
            Ok(_) => Some(t),
            Err(_) => None,
        },
        Err(_) => None,
    }
}

} // verus!
