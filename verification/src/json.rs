//! JSON values of `serde_json`, carried through the library unopened, and the
//! few readings of them that the library's logic needs.

use vstd::prelude::*;

verus! {

/// `serde_json::Value`, opaque to the verifier.
#[verifier::external_type_specification]
#[verifier::external_body]
pub struct ExJsonValue(serde_json::Value);

/// The integer that `serde_json::Value::as_i64` reads from a value: `Some` for
/// a JSON number that is an integer within the range of `i64`, `None` for
/// every other value.
pub uninterp spec fn json_int(v: serde_json::Value) -> Option<i64>;

/// The compact JSON text that `to_string` writes for a value.
pub uninterp spec fn json_text(v: serde_json::Value) -> Seq<char>;

/// Whether `serde_json` holds two values equal under `==`.
pub uninterp spec fn json_same(a: serde_json::Value, b: serde_json::Value) -> bool;

/// `serde_json::Value::as_i64`: the result is a function of the value alone,
/// named `json_int`.
pub assume_specification[ serde_json::Value::as_i64 ](v: &serde_json::Value) -> (r: Option<i64>)
    ensures
        r == json_int(*v),
;

/// `Clone` for `serde_json::Value`: the copy is the same value.
pub assume_specification[ <serde_json::Value as Clone>::clone ](v: &serde_json::Value) -> (r:
    serde_json::Value)
    ensures
        r == *v,
;

/// `PartialEq` for `serde_json::Value`: the result is a function of the two
/// values, named `json_same`.
pub assume_specification[ <serde_json::Value as PartialEq>::eq ](
    a: &serde_json::Value,
    b: &serde_json::Value,
) -> (r: bool)
    ensures
        r == json_same(*a, *b),
;

/// `to_string` of `serde_json::Value`, which writes the value as compact JSON:
/// the text is a function of the value alone, named `json_text`.
#[verifier::external_body]
pub(crate) fn value_text(v: &serde_json::Value) -> (r: String)
    ensures
        r@ == json_text(*v),
{
    v.to_string()
}

} // verus!
