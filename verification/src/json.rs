//! Trusted declarations for reading JSON term-bank documents.
//!
//! A JSON value is opaque to the verifier: nothing is claimed of what these
//! accessors return, and the extraction built on them is deterministic in
//! the document, which is what the loader's `records_of` name rests on. The
//! record shape itself is pinned down by the exact contract of
//! `build_entry` in the loader, which takes the extracted plain values.

use vstd::prelude::*;

verus! {

#[verifier::external_type_specification]
#[verifier::external_body]
pub struct ExValue(serde_json::Value);

/// Relies on serde_json::Value::as_array: the array's elements when the
/// value is an array.
pub assume_specification[ serde_json::Value::as_array ](v: &serde_json::Value) -> Option<
    &Vec<serde_json::Value>,
>;

/// Relies on serde_json::Value::as_str: the text when the value is a string.
pub assume_specification[ serde_json::Value::as_str ](v: &serde_json::Value) -> Option<&str>;

/// Relies on serde_json::Value::as_i64: the number when the value is an
/// integer that fits.
pub assume_specification[ serde_json::Value::as_i64 ](v: &serde_json::Value) -> Option<i64>;

/// Relies on serde_json::Value::is_null: whether the value is JSON null.
pub assume_specification[ serde_json::Value::is_null ](v: &serde_json::Value) -> bool;

/// Relies on serde_json::Value::get: the member under a key or index.
pub assume_specification<I: serde_json::value::Index>[ serde_json::Value::get::<I> ](
    v: &serde_json::Value,
    index: I,
) -> Option<&serde_json::Value>;

} // verus!
