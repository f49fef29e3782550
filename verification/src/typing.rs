//! The registry of built-in base types, and derivation of restricted type
//! descriptors against them.

pub mod boolean;
pub mod enumeration;
pub mod number;
pub mod range;
pub mod string;

use vstd::prelude::*;
use vstd::string::StringExecFns;
use crate::Span;
use crate::errors::{num_errors, num_warnings, ErrorContext};
use crate::parser::model;
use crate::text::str_eq;
use crate::typing::boolean::BoolType;
use crate::typing::enumeration::{
    distinct_names, enum_inputs, item_in_base, item_views, spec_assign, subtype_items_ok,
    EnumerationType,
};
use crate::typing::number::{
    decimal_range_outcome, decimal_success, spec_resolve_parts, DecimalType, IntType,
};
use crate::typing::range::{range_wf, spec_derive, NumericKind, RangePart};
use crate::typing::string::{
    pattern_texts, spec_patterns, spec_resolve_length_parts, regex_compiles, StringType,
};

verus! {

broadcast use vstd::string::group_string_axioms;

/// Records one warning naming the populated fields that the resolved type
/// category does not consume; no warning when the list is empty.
pub(crate) fn warn_unused(names: Vec<String>, ctx: &mut ErrorContext)
    ensures
        num_errors(final(ctx)@) == num_errors(old(ctx)@),
        num_warnings(final(ctx)@) == num_warnings(old(ctx)@) + if names@.len() > 0 {
            1int
        } else {
            0int
        },
{
    if names.len() == 0 {
        return ;
    }
    let mut msg = String::from_str("Unused fields: ");
    let mut i: usize = 0;
    while i < names.len()
        invariant
            0 <= i <= names@.len(),
        decreases names@.len() - i,
    {
        if i > 0 {
            msg.append(", ");
        }
        msg.append(names[i].as_str());
        i = i + 1;
    }
    ctx.add_warning(Span { start: 0, end: 0 }, msg);
}

/// A resolved type descriptor: one of the five base categories, each
/// carrying its own restriction state.
#[derive(Debug, Clone)]
pub enum Type {
    Int(IntType),
    Decimal(DecimalType),
    Str(StringType),
    Bool(BoolType),
    Enumeration(EnumerationType),
}

/// A descriptor is abstract while it still lacks a concrete facet a
/// restriction must eventually supply.
pub open spec fn spec_is_abstract(t: &Type) -> bool {
    match t {
        Type::Decimal(d) => d.range is None || d.fraction_digits is None,
        Type::Enumeration(e) => e.items is None,
        _ => false,
    }
}

impl Type {
    /// Well-formedness of the category-specific state.
    pub open spec fn wf(&self) -> bool {
        match self {
            Type::Int(t) => t.range@.len() > 0 && range_wf(t.range@),
            Type::Str(t) => t.length@.len() > 0 && range_wf(t.length@),
            Type::Decimal(d) => d.wf(),
            Type::Bool(_b) => true,
            Type::Enumeration(_e) => true,
        }
    }

    /// Derives the narrowed descriptor for the `type` statement `model`
    /// against this base descriptor; the category never changes.
    pub fn derive(&self, model: &model::Type, ctx: &mut ErrorContext) -> (r: Result<Type, ()>)
        requires
            self.wf(),
        ensures
            num_errors(final(ctx)@) >= num_errors(old(ctx)@),
            num_warnings(final(ctx)@) >= num_warnings(old(ctx)@),
            r is Err ==> num_errors(final(ctx)@) > num_errors(old(ctx)@),
            r is Ok ==> num_errors(final(ctx)@) == num_errors(old(ctx)@),
            r is Ok ==> (self is Int <==> r->Ok_0 is Int) && (self is Decimal <==> r->Ok_0
                is Decimal) && (self is Str <==> r->Ok_0 is Str) && (self is Bool <==> r->Ok_0
                is Bool) && (self is Enumeration <==> r->Ok_0 is Enumeration),
            self matches Type::Bool(_b) ==> r is Ok,
            self matches Type::Int(t) ==> (match model.range {
                None => r matches Ok(o) && o matches Type::Int(o2) && o2.range@ == t.range@,
                Some(rg) => match spec_resolve_parts(rg.range_expression.0@, NumericKind::Int) {
                    None => r is Err,
                    Some(parts) => match spec_derive(t.range@, parts) {
                        None => r is Err,
                        Some(rng) => r matches Ok(o) && o matches Type::Int(o2) && o2.range@
                            == rng,
                    },
                },
            }),
            self matches Type::Str(st) ==> ({
                let length_ok = match model.length {
                    None => true,
                    Some(lg) => spec_derive(
                        st.length@,
                        spec_resolve_length_parts(lg.length_expression.0@),
                    ) is Some,
                };
                let patterns_ok = model.pattern@.len() == 0 || regex_compiles(
                    spec_patterns(st.pattern) + pattern_texts(model.pattern@),
                );
                &&& (length_ok && patterns_ok <==> r is Ok)
                &&& r matches Ok(o) ==> o matches Type::Str(s2) && spec_patterns(s2.pattern)
                    == spec_patterns(st.pattern) + pattern_texts(model.pattern@) && (
                match model.length {
                    None => s2.length@ == st.length@,
                    Some(lg) => spec_derive(
                        st.length@,
                        spec_resolve_length_parts(lg.length_expression.0@),
                    ) == Some(s2.length@),
                })
            }),
            self matches Type::Decimal(d) ==> (decimal_success(*d, *model) ==> r is Ok) && (
            r matches Ok(o) ==> o matches Type::Decimal(d2) && decimal_range_outcome(
                *d,
                *model,
                d2,
            )),
            self matches Type::Enumeration(e) ==> (!distinct_names(enum_inputs(model.enum_@))
                ==> r is Err) && (e.items is None ==> match spec_assign(enum_inputs(model.enum_@)) {
                Some(assigned) => distinct_names(enum_inputs(model.enum_@)) ==> (r matches Ok(o)
                    && (o matches Type::Enumeration(e2) && item_views(e2.items->Some_0@)
                    == assigned)),
                None => r is Err,
            }) && (e.items is Some ==> (r matches Ok(o) ==> o matches Type::Enumeration(e2)
                && subtype_items_ok(model.enum_@, e.items->Some_0@, e2.items->Some_0@))) && ((
            e.items matches Some(b) && distinct_names(enum_inputs(model.enum_@)) && (forall|i: int|
                0 <= i < model.enum_@.len() ==> item_in_base(#[trigger] model.enum_@[i], b@)))
                ==> r is Ok),
    {
        match self {
            Type::Int(t) => match t.derive(model, ctx) {
                Ok(v) => Ok(Type::Int(v)),
                Err(()) => Err(()),
            },
            Type::Decimal(d) => match d.derive(model, ctx) {
                Ok(v) => Ok(Type::Decimal(v)),
                Err(()) => Err(()),
            },
            Type::Str(s) => match s.derive(model, ctx) {
                Ok(v) => Ok(Type::Str(v)),
                Err(()) => Err(()),
            },
            Type::Bool(b) => match b.derive(model, ctx) {
                Ok(v) => Ok(Type::Bool(v)),
                Err(()) => Err(()),
            },
            Type::Enumeration(e) => match e.derive(model, ctx) {
                Ok(v) => Ok(Type::Enumeration(v)),
                Err(()) => Err(()),
            },
        }
    }

    /// Whether the descriptor may not yet be used as a leaf's final type.
    pub fn is_abstract_type(&self) -> (r: bool)
        ensures
            r == spec_is_abstract(self),
    {
        match self {
            Type::Decimal(d) => d.is_abstract_type(),
            Type::Enumeration(e) => e.is_abstract_type(),
            _ => false,
        }
    }

    /// The name of the target-language type this descriptor maps to.
    pub fn get_rust_type(&self) -> (r: &str) {
        match self {
            Type::Int(t) => t.get_rust_type(),
            Type::Decimal(d) => d.get_rust_type(),
            Type::Str(s) => s.get_rust_type(),
            Type::Bool(b) => b.get_rust_type(),
            Type::Enumeration(e) => e.get_rust_type(),
        }
    }
}

/// The registry shape of an integer base type: one interval and a machine
/// type name.
pub open spec fn int_reg(r: Option<Type>, lo: i128, hi: i128, name: Seq<char>) -> bool {
    match r {
        Some(t) => match t {
            Type::Int(it) => it.range@ == seq![(RangePart { min_value: lo, max_value: hi })]
                && it.rust_type@ == name,
            _ => false,
        },
        None => false,
    }
}

fn make_int(lo: i128, hi: i128, name: &str) -> (r: Type)
    requires
        lo <= hi,
    ensures
        int_reg(Some(r), lo, hi, name@),
        r.wf(),
{
    let mut v: Vec<RangePart> = Vec::new();
    v.push(RangePart { min_value: lo, max_value: hi });
    proof {
        assert(v@ =~= seq![(RangePart { min_value: lo, max_value: hi })]);
    }
    Type::Int(IntType { range: v, rust_type: String::from_str(name) })
}

/// Looks up a built-in base type by name: the eight integer widths with the
/// ranges their bit width and signedness imply, the abstract `decimal64`,
/// `string` with an unrestricted length and no pattern, `boolean`, and the
/// abstract `enumeration`.
pub fn built_in_type(name: &str) -> (r: Option<Type>)
    ensures
        name@ == "uint8"@ ==> int_reg(r, 0, 255, "u8"@),
        name@ == "uint16"@ ==> int_reg(r, 0, 65535, "u16"@),
        name@ == "uint32"@ ==> int_reg(r, 0, 4294967295, "u32"@),
        name@ == "uint64"@ ==> int_reg(r, 0, 18446744073709551615, "u64"@),
        name@ == "int8"@ ==> int_reg(r, -128i128, 127, "i8"@),
        name@ == "int16"@ ==> int_reg(r, -32768i128, 32767, "i16"@),
        name@ == "int32"@ ==> int_reg(r, -2147483648i128, 2147483647, "i32"@),
        name@ == "int64"@ ==> int_reg(r, -9223372036854775808i128, 9223372036854775807, "i64"@),
        name@ == "decimal64"@ ==> (r matches Some(t) && t matches Type::Decimal(d) && d.range
            is None && d.fraction_digits is None),
        name@ == "string"@ ==> (r matches Some(t) && t matches Type::Str(s) && s.length@ == seq![
            (RangePart { min_value: 0, max_value: usize::MAX as i128 }),
        ] && s.pattern is None),
        name@ == "boolean"@ ==> (r matches Some(t) && t matches Type::Bool(_b)),
        name@ == "enumeration"@ ==> (r matches Some(t) && t matches Type::Enumeration(e)
            && e.items is None),
        r matches Some(t) ==> t.wf(),
        !(name@ == "uint8"@ || name@ == "uint16"@ || name@ == "uint32"@ || name@ == "uint64"@
            || name@ == "int8"@ || name@ == "int16"@ || name@ == "int32"@ || name@ == "int64"@
            || name@ == "decimal64"@ || name@ == "string"@ || name@ == "boolean"@ || name@
            == "enumeration"@) ==> r is None,
{
    proof {
        reveal_strlit("uint8");
        reveal_strlit("uint16");
        reveal_strlit("uint32");
        reveal_strlit("uint64");
        reveal_strlit("int8");
        reveal_strlit("int16");
        reveal_strlit("int32");
        reveal_strlit("int64");
        reveal_strlit("decimal64");
        reveal_strlit("string");
        reveal_strlit("boolean");
        reveal_strlit("enumeration");
        assert("uint8"@ =~= seq!['u', 'i', 'n', 't', '8']);
        assert("uint16"@ =~= seq!['u', 'i', 'n', 't', '1', '6']);
        assert("uint32"@ =~= seq!['u', 'i', 'n', 't', '3', '2']);
        assert("uint64"@ =~= seq!['u', 'i', 'n', 't', '6', '4']);
        assert("int8"@ =~= seq!['i', 'n', 't', '8']);
        assert("int16"@ =~= seq!['i', 'n', 't', '1', '6']);
        assert("int32"@ =~= seq!['i', 'n', 't', '3', '2']);
        assert("int64"@ =~= seq!['i', 'n', 't', '6', '4']);
        assert("decimal64"@ =~= seq!['d', 'e', 'c', 'i', 'm', 'a', 'l', '6', '4']);
        assert("string"@ =~= seq!['s', 't', 'r', 'i', 'n', 'g']);
        assert("boolean"@ =~= seq!['b', 'o', 'o', 'l', 'e', 'a', 'n']);
        assert("enumeration"@ =~= seq!['e', 'n', 'u', 'm', 'e', 'r', 'a', 't', 'i', 'o', 'n']);
    }
    if str_eq(name, "uint8") {
        Some(make_int(0, 255, "u8"))
    } else if str_eq(name, "uint16") {
        Some(make_int(0, 65535, "u16"))
    } else if str_eq(name, "uint32") {
        Some(make_int(0, 4294967295, "u32"))
    } else if str_eq(name, "uint64") {
        Some(make_int(0, 18446744073709551615, "u64"))
    } else if str_eq(name, "int8") {
        Some(make_int(-128, 127, "i8"))
    } else if str_eq(name, "int16") {
        Some(make_int(-32768, 32767, "i16"))
    } else if str_eq(name, "int32") {
        Some(make_int(-2147483648, 2147483647, "i32"))
    } else if str_eq(name, "int64") {
        Some(make_int(-9223372036854775808, 9223372036854775807, "i64"))
    } else if str_eq(name, "decimal64") {
        Some(Type::Decimal(DecimalType { range: None, fraction_digits: None }))
    } else if str_eq(name, "string") {
        let mut v: Vec<RangePart> = Vec::new();
        v.push(RangePart { min_value: 0, max_value: usize::MAX as i128 });
        proof {
            assert(v@ =~= seq![(RangePart { min_value: 0, max_value: usize::MAX as i128 })]);
        }
        Some(Type::Str(StringType { length: v, pattern: None }))
    } else if str_eq(name, "boolean") {
        Some(Type::Bool(BoolType {  }))
    } else if str_eq(name, "enumeration") {
        Some(Type::Enumeration(EnumerationType { items: None }))
    } else {
        None
    }
}

} // verus!
