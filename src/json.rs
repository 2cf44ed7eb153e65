use vstd::prelude::*;

verus! {

#[verifier::external_type_specification]
#[verifier::external_body]
pub struct ExValue(serde_json::Value);

/// Whether `s` is one JSON document.
pub uninterp spec fn json_accepts(s: Seq<char>) -> bool;

/// The `grid` and `keys` string arrays of the JSON object in `s`, or
/// nothing where `s` is not such an object.
pub uninterp spec fn grid_payload_of(s: Seq<char>) -> Option<(Seq<Seq<char>>, Seq<Seq<char>>)>;

/// Relies on serde_json::from_str: the JSON value that `text` holds.
#[verifier::external_body]
pub(crate) fn parse_json(text: &str) -> (r: Option<serde_json::Value>)
    ensures
        r is Some <==> json_accepts(text@),
{
    serde_json::from_str::<serde_json::Value>(text).ok()
}

/// Relies on serde_json::from_str and serde_json::from_value: the arrays of
/// strings under `grid` and `keys` in the JSON object that `text` holds.
#[verifier::external_body]
pub(crate) fn parse_grid_payload(text: &str) -> (r: Option<(Vec<String>, Vec<String>)>)
    ensures
        match r {
            Some((g, k)) => grid_payload_of(text@) == Some((g.deep_view(), k.deep_view())),
            None => grid_payload_of(text@) is None,
        },
{
    let mut fields: std::collections::HashMap<String, serde_json::Value> =
        serde_json::from_str(text).ok()?;
    let grid: Vec<String> = serde_json::from_value(fields.remove("grid")?).ok()?;
    let keys: Vec<String> = serde_json::from_value(fields.remove("keys")?).ok()?;
    Some((grid, keys))
}

} // verus!
