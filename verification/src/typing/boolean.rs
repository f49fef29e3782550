//! The boolean type descriptor: no restrictable facets.

use vstd::prelude::*;
use crate::errors::{num_errors, num_warnings, ErrorContext};
use crate::parser::model;
use crate::typing::warn_unused;

verus! {

/// Whether the model carries any child statement, none of which applies to
/// a boolean type.
pub open spec fn spec_bool_unused(model: &model::Type) -> bool {
    model.base is Some || model.bit@.len() > 0 || model.enum_@.len() > 0
        || model.fraction_digits is Some || model.length is Some || model.range is Some
        || model.path is Some || model.pattern@.len() > 0 || model.require_instance is Some
        || model.type_@.len() > 0
}

#[derive(Debug, Clone)]
pub struct BoolType {}

impl BoolType {
    pub fn get_rust_type(&self) -> (r: &str)
        ensures
            r@ == "bool"@,
    {
        "bool"
    }

    /// A boolean type has no restrictable facets: it always derives to
    /// itself, and any populated child draws exactly one warning.
    pub fn derive(&self, model: &model::Type, ctx: &mut ErrorContext) -> (r: Result<BoolType, ()>)
        ensures
            r is Ok,
            num_errors(final(ctx)@) == num_errors(old(ctx)@),
            num_warnings(final(ctx)@) == num_warnings(old(ctx)@) + if spec_bool_unused(model) {
                1int
            } else {
                0int
            },
    {
        let mut unused: Vec<String> = Vec::new();
        if model.base.is_some() {
            unused.push(String::from_str("base"));
        }
        if model.bit.len() > 0 {
            unused.push(String::from_str("bit"));
        }
        if model.enum_.len() > 0 {
            unused.push(String::from_str("enum"));
        }
        if model.fraction_digits.is_some() {
            unused.push(String::from_str("fraction-digits"));
        }
        if model.length.is_some() {
            unused.push(String::from_str("length"));
        }
        if model.range.is_some() {
            unused.push(String::from_str("range"));
        }
        if model.path.is_some() {
            unused.push(String::from_str("path"));
        }
        if model.pattern.len() > 0 {
            unused.push(String::from_str("pattern"));
        }
        if model.require_instance.is_some() {
            unused.push(String::from_str("require-instance"));
        }
        if model.type_.len() > 0 {
            unused.push(String::from_str("type"));
        }
        warn_unused(unused, ctx);
        Ok(BoolType {  })
    }
}

} // verus!
