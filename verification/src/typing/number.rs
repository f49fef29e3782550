//! Integer and decimal type descriptors and their derivation.

use vstd::prelude::*;
use crate::Span;
use crate::errors::{num_errors, num_warnings, ErrorContext};
use crate::parser::model;
use crate::parser::model::{LengthRangePattern, LengthRangePatternPart, RangeBoundary};
use crate::typing::range::{
    contained_in, copy_range, derive_range, interval_in_base, lemma_derive_range_containment,
    lemma_derive_range_ordering, range_wf, spec_derive, Bound, NumericKind, RangePart,
};
use crate::typing::warn_unused;

verus! {

/// Ranges contain themselves interval by interval.
pub proof fn lemma_contained_in_self(r: Seq<RangePart>)
    ensures
        contained_in(r, r),
{
    assert forall|i: int| 0 <= i < r.len() implies interval_in_base(
        r,
        (#[trigger] r[i]).min_value as int,
        r[i].max_value as int,
    ) by {
        assert(0 <= i < r.len() && r[i].min_value <= r[i].min_value as int && r[i].max_value as int
            <= r[i].max_value);
    }
}

/// The value a parsed range boundary resolves to in the given numeric
/// kind, or nothing where it has none there.
pub open spec fn spec_resolve_boundary(b: RangeBoundary, kind: NumericKind) -> Option<Bound> {
    match b {
        RangeBoundary::Min => Some(Bound::Min),
        RangeBoundary::Max => Some(Bound::Max),
        RangeBoundary::Integer(v) => match kind {
            NumericKind::Int => Some(Bound::Lit(v)),
            NumericKind::Dec => if -170141183460469 <= v <= 170141183460469 {
                Some(Bound::Lit((v * 1000000000000000000) as i128))
            } else {
                None
            },
        },
        RangeBoundary::Decimal(d) => match kind {
            NumericKind::Int => None,
            NumericKind::Dec => Some(Bound::Lit(d)),
        },
    }
}

/// The resolved boundary pairs of a whole range expression, or nothing when
/// some boundary has no value in the given kind.
pub open spec fn spec_resolve_parts(
    ps: Seq<LengthRangePatternPart<RangeBoundary>>,
    kind: NumericKind,
) -> Option<Seq<(Bound, Option<Bound>)>>
    decreases ps.len(),
{
    if ps.len() == 0 {
        Some(Seq::empty())
    } else {
        let rest = spec_resolve_parts(ps.drop_last(), kind);
        let lb = spec_resolve_boundary(ps.last().lower_boundary, kind);
        let ub = match ps.last().upper_boundary {
            Some(u) => match spec_resolve_boundary(u, kind) {
                Some(b) => Some(Some(b)),
                None => None,
            },
            None => Some(None::<Bound>),
        };
        match (rest, lb, ub) {
            (Some(rs), Some(l), Some(u2)) => Some(rs.push((l, u2))),
            _ => None,
        }
    }
}

/// A part whose boundary fails to resolve fails the whole expression.
proof fn lemma_resolve_parts_failure(
    ps: Seq<LengthRangePatternPart<RangeBoundary>>,
    kind: NumericKind,
    i: int,
)
    requires
        0 <= i < ps.len(),
        spec_resolve_boundary(ps[i].lower_boundary, kind) is None || (match ps[i].upper_boundary {
            Some(u) => spec_resolve_boundary(u, kind) is None,
            None => false,
        }),
    ensures
        spec_resolve_parts(ps, kind) is None,
    decreases ps.len(),
{
    if i < ps.len() - 1 {
        assert(ps.drop_last()[i] == ps[i]);
        lemma_resolve_parts_failure(ps.drop_last(), kind, i);
    }
}

/// Resolves the parsed boundaries of a range expression into the shared
/// domain, in the given numeric kind. A boundary that has no value in that
/// kind (a decimal in an integer type, or a literal too large to scale) is
/// an error.
pub(crate) fn resolve_range_parts(
    p: &LengthRangePattern<RangeBoundary>,
    kind: NumericKind,
    ctx: &mut ErrorContext,
) -> (r: Result<Vec<(Bound, Option<Bound>)>, ()>)
    ensures
        num_errors(final(ctx)@) >= num_errors(old(ctx)@),
        num_warnings(final(ctx)@) == num_warnings(old(ctx)@),
        match spec_resolve_parts(p.0@, kind) {
            Some(parts) => r matches Ok(v) && v@ == parts && num_errors(final(ctx)@)
                == num_errors(old(ctx)@),
            None => r is Err && num_errors(final(ctx)@) > num_errors(old(ctx)@),
        },
{
    let zero_span = Span { start: 0, end: 0 };
    let mut out: Vec<(Bound, Option<Bound>)> = Vec::new();
    let mut i: usize = 0;
    while i < p.0.len()
        invariant
            out@.len() == i <= p.0@.len(),
            spec_resolve_parts(p.0@.take(i as int), kind) == Some(out@),
            ctx@ == old(ctx)@,
        decreases p.0@.len() - i,
    {
        let part = p.0[i];
        proof {
            assert(p.0@.take(i + 1).drop_last() =~= p.0@.take(i as int));
            assert(p.0@.take(i + 1).last() == p.0@[i as int]);
        }
        let lb = match part.lower_boundary.resolve(kind) {
            Ok(b) => b,
            Err(e) => {
                ctx.add_error(zero_span, e);
                proof {
                    lemma_resolve_parts_failure(p.0@, kind, i as int);
                }
                return Err(());
            },
        };
        let ub = match part.upper_boundary {
            Some(u) => match u.resolve(kind) {
                Ok(b) => Some(b),
                Err(e) => {
                    ctx.add_error(zero_span, e);
                    proof {
                        lemma_resolve_parts_failure(p.0@, kind, i as int);
                    }
                    return Err(());
                },
            },
            None => None,
        };
        out.push((lb, ub));
        i = i + 1;
    }
    proof {
        assert(p.0@.take(p.0@.len() as int) =~= p.0@);
    }
    Ok(out)
}

/// Whether the model carries a child that an integer type does not consume.
pub open spec fn spec_int_unused(model: &model::Type) -> bool {
    model.base is Some || model.bit@.len() > 0 || model.enum_@.len() > 0
        || model.fraction_digits is Some || model.length is Some || model.path is Some
        || model.pattern@.len() > 0 || model.require_instance is Some || model.type_@.len() > 0
}

/// An integer type: its admissible value range and the name of the machine
/// type it maps to.
#[derive(Debug, Clone)]
pub struct IntType {
    pub range: Vec<RangePart>,
    pub rust_type: String,
}

impl IntType {
    /// A usable integer descriptor: a non-empty, well-formed range.
    pub open spec fn wf(&self) -> bool {
        self.range@.len() > 0 && range_wf(self.range@)
    }

    pub fn get_rust_type(&self) -> (r: &str)
        ensures
            r@ == self.rust_type@,
    {
        self.rust_type.as_str()
    }

    /// Narrows this type under the restrictions of `model`: a `range` child
    /// restricts the range, which must stay within the base range; every
    /// other populated child is inapplicable here and is only warned about.
    /// Without a `range` child the base range is inherited unchanged.
    pub fn derive(&self, model: &model::Type, ctx: &mut ErrorContext) -> (r: Result<IntType, ()>)
        requires
            self.wf(),
        ensures
            num_errors(final(ctx)@) >= num_errors(old(ctx)@),
            num_warnings(final(ctx)@) == num_warnings(old(ctx)@) + if spec_int_unused(model) {
                1int
            } else {
                0int
            },
            r is Err ==> num_errors(final(ctx)@) > num_errors(old(ctx)@),
            r is Ok ==> num_errors(final(ctx)@) == num_errors(old(ctx)@),
            r is Ok ==> range_wf((r->Ok_0).range@) && contained_in(
                (r->Ok_0).range@,
                self.range@,
            ) && (r->Ok_0).rust_type@ == self.rust_type@,
            match model.range {
                None => r matches Ok(out) && out.range@ == self.range@,
                Some(rg) => match spec_resolve_parts(rg.range_expression.0@, NumericKind::Int) {
                    None => r is Err,
                    Some(parts) => match spec_derive(self.range@, parts) {
                        None => r is Err,
                        Some(o) => r matches Ok(out) && out.range@ == o,
                    },
                },
            },
    {
        let mut unused: Vec<String> = Vec::new();
        if model.base.is_some() {
            unused.push(String::from_str("base"));
        }
        if model.bit.len() > 0 {
            unused.push(String::from_str("bit"));
        }
        if model.enum_.len() > 0 {
            unused.push(String::from_str("enum"));
        }
        if model.fraction_digits.is_some() {
            unused.push(String::from_str("fraction-digits"));
        }
        if model.length.is_some() {
            unused.push(String::from_str("length"));
        }
        if model.path.is_some() {
            unused.push(String::from_str("path"));
        }
        if model.pattern.len() > 0 {
            unused.push(String::from_str("pattern"));
        }
        if model.require_instance.is_some() {
            unused.push(String::from_str("require-instance"));
        }
        if model.type_.len() > 0 {
            unused.push(String::from_str("type"));
        }
        warn_unused(unused, ctx);

        let range = match &model.range {
            Some(rg) => {
                let parts = match resolve_range_parts(&rg.range_expression, NumericKind::Int, ctx) {
                    Ok(p) => p,
                    Err(()) => {
                        return Err(());
                    },
                };
                match derive_range(&self.range, Some(&parts), ctx) {
                    Ok(out) => {
                        proof {
                            lemma_derive_range_ordering(self.range@, parts@, out@);
                            lemma_derive_range_containment(self.range@, parts@, out@);
                        }
                        out
                    },
                    Err(()) => {
                        return Err(());
                    },
                }
            },
            None => {
                proof {
                    lemma_contained_in_self(self.range@);
                }
                copy_range(&self.range)
            },
        };
        Ok(IntType { range, rust_type: self.rust_type.clone() })
    }
}

/// Ten to the power `n`.
pub open spec fn pow10(n: nat) -> int
    decreases n,
{
    if n == 0 {
        1
    } else {
        10 * pow10((n - 1) as nat)
    }
}

proof fn lemma_pow10_mono(a: nat, b: nat)
    requires
        a <= b,
    ensures
        1 <= pow10(a) <= pow10(b),
    decreases b,
{
    if a < b {
        lemma_pow10_mono(a, (b - 1) as nat);
    } else if a == b && b > 0 {
        lemma_pow10_mono((a - 1) as nat, (b - 1) as nat);
    }
}

proof fn lemma_pow10_17()
    ensures
        pow10(17) == 100000000000000000,
{
    assert(pow10(0) == 1);
    assert(pow10(1) == 10);
    assert(pow10(2) == 100);
    assert(pow10(3) == 1000);
    assert(pow10(4) == 10000);
    assert(pow10(5) == 100000);
    assert(pow10(6) == 1000000);
    assert(pow10(7) == 10000000);
    assert(pow10(8) == 100000000);
    assert(pow10(9) == 1000000000);
    assert(pow10(10) == 10000000000);
    assert(pow10(11) == 100000000000);
    assert(pow10(12) == 1000000000000);
    assert(pow10(13) == 10000000000000);
    assert(pow10(14) == 100000000000000);
    assert(pow10(15) == 1000000000000000);
    assert(pow10(16) == 10000000000000000);
    assert(pow10(17) == 100000000000000000);
}

proof fn lemma_pow10_bounds(n: nat)
    requires
        n <= 17,
    ensures
        1 <= pow10(n) <= 100000000000000000,
{
    lemma_pow10_mono(n, 17);
    lemma_pow10_17();
}

/// The default range a decimal type gets from its fraction digits alone:
/// plus and minus (2^63 - 1) scaled by ten to the (18 - digits), in
/// fixed-point units of 10^-18.
fn fraction_default_range(d: u8) -> (r: RangePart)
    requires
        1 <= d <= 18,
    ensures
        r.max_value == 9223372036854775807i128 * pow10((18 - d) as nat),
        r.min_value == -r.max_value,
        r.min_value <= r.max_value,
{
    let mut pow: i128 = 1;
    let mut k: u8 = d;
    proof {
        lemma_pow10_bounds((18 - d) as nat);
    }
    while k < 18
        invariant
            1 <= d <= 18,
            d <= k <= 18,
            pow == pow10((k - d) as nat),
            1 <= pow,
            pow <= 100000000000000000,
        decreases 18 - k,
    {
        proof {
            lemma_pow10_bounds((k + 1 - d) as nat);
        }
        pow = pow * 10;
        k = k + 1;
    }
    let max = 9223372036854775807i128 * pow;
    proof {
        assert(9223372036854775807i128 * pow <= 9223372036854775807i128 * 100000000000000000i128)
            by (nonlinear_arith)
            requires
                1 <= pow <= 100000000000000000i128,
        ;
        assert(9223372036854775807i128 * pow >= 9223372036854775807i128) by (nonlinear_arith)
            requires
                1 <= pow,
        ;
    }
    RangePart { min_value: -max, max_value: max }
}

/// Whether the model carries a child that a decimal type does not consume.
pub open spec fn spec_decimal_unused(model: &model::Type) -> bool {
    model.base is Some || model.bit@.len() > 0 || model.enum_@.len() > 0 || model.length is Some
        || model.path is Some || model.pattern@.len() > 0 || model.require_instance is Some
        || model.type_@.len() > 0
}

/// The default interval a decimal type's fraction digits imply: plus and
/// minus (2^63 - 1) scaled by ten to the (18 - digits), in units of 10^-18.
pub open spec fn fraction_seed(d: u8) -> RangePart {
    let m = 9223372036854775807 * pow10((18 - d) as nat);
    RangePart { min_value: (-m) as i128, max_value: m as i128 }
}

/// The range in force for a decimal derivation before a `range` child is
/// applied: the explicit base range, else the fraction-digit seed, else
/// none.
pub open spec fn decimal_base_range(base: DecimalType, fd: Option<u8>) -> Option<Seq<RangePart>> {
    match base.range {
        Some(rg) => Some(rg@),
        None => match fd {
            Some(d) => Some(seq![fraction_seed(d)]),
            None => None,
        },
    }
}

/// The effective fraction digits of a decimal derivation: the declared
/// ones, else the inherited ones.
pub open spec fn decimal_fd(base: DecimalType, model: model::Type) -> Option<u8> {
    match model.fraction_digits {
        Some(d) => Some(d as u8),
        None => base.fraction_digits,
    }
}

/// The range of a successfully derived decimal type: the range in force,
/// narrowed under the `range` child where one is given; an empty derived
/// range leaves the type abstract again.
pub open spec fn decimal_range_outcome(
    base: DecimalType,
    model: model::Type,
    out: DecimalType,
) -> bool {
    match decimal_base_range(base, decimal_fd(base, model)) {
        None => out.range is None,
        Some(br) => match model.range {
            None => out.range matches Some(rg) && rg@ == br,
            Some(mr) => match spec_resolve_parts(mr.range_expression.0@, NumericKind::Dec) {
                None => false,
                Some(parts) => match spec_derive(br, parts) {
                    None => false,
                    Some(o) => if o.len() == 0 {
                        out.range is None
                    } else {
                        out.range matches Some(rg) && rg@ == o
                    },
                },
            },
        },
    }
}

/// A decimal derivation succeeds exactly when the declared fraction digits
/// (if any) lie in one to eighteen, and the `range` child (if any, against
/// a range in force) resolves and derives.
pub open spec fn decimal_success(base: DecimalType, model: model::Type) -> bool {
    &&& match model.fraction_digits {
        Some(d) => 1 <= d <= 18,
        None => true,
    }
    &&& match decimal_base_range(base, decimal_fd(base, model)) {
        None => true,
        Some(br) => match model.range {
            None => true,
            Some(mr) => match spec_resolve_parts(mr.range_expression.0@, NumericKind::Dec) {
                None => false,
                Some(parts) => spec_derive(br, parts) is Some,
            },
        },
    }
}

/// A decimal type: its range in fixed-point units of 10^-18, and its
/// fraction digits; either may still be missing, leaving the type abstract.
#[derive(Debug, Clone)]
pub struct DecimalType {
    pub range: Option<Vec<RangePart>>,
    pub fraction_digits: Option<u8>,
}

impl DecimalType {
    pub open spec fn wf(&self) -> bool {
        &&& match self.range {
            Some(rg) => rg@.len() > 0 && range_wf(rg@),
            None => true,
        }
        &&& match self.fraction_digits {
            Some(d) => 1 <= d <= 18,
            None => true,
        }
    }

    pub fn get_rust_type(&self) -> (r: &str)
        ensures
            r@ == "f64"@,
    {
        "f64"
    }

    /// Narrows this decimal type: `fraction-digits` must lie in 1 to 18 and
    /// may only be supplied once along the chain; it seeds the default range
    /// when no explicit base range exists; a `range` child then restricts
    /// whatever range is in force.
    pub fn derive(&self, model: &model::Type, ctx: &mut ErrorContext) -> (r: Result<
        DecimalType,
        (),
    >)
        requires
            self.wf(),
        ensures
            num_errors(final(ctx)@) >= num_errors(old(ctx)@),
            num_warnings(final(ctx)@) == num_warnings(old(ctx)@) + if spec_decimal_unused(
                model,
            ) {
                1int
            } else {
                0int
            },
            r is Err ==> num_errors(final(ctx)@) > num_errors(old(ctx)@),
            r is Ok ==> num_errors(final(ctx)@) == num_errors(old(ctx)@),
            r is Ok ==> (r->Ok_0).wf(),
            r is Ok && model.fraction_digits is None ==> (r->Ok_0).fraction_digits
                == self.fraction_digits,
            match model.fraction_digits {
                Some(d) => !(1 <= d <= 18) ==> r is Err,
                None => true,
            },
            r is Ok ==> match model.fraction_digits {
                Some(d) => (r->Ok_0).fraction_digits == Some(d as u8),
                None => true,
            },
            r is Ok ==> decimal_range_outcome(*self, *model, r->Ok_0),
            decimal_success(*self, *model) ==> r is Ok,
    {
        let zero_span = Span { start: 0, end: 0 };
        let mut unused: Vec<String> = Vec::new();
        if model.base.is_some() {
            unused.push(String::from_str("base"));
        }
        if model.bit.len() > 0 {
            unused.push(String::from_str("bit"));
        }
        if model.enum_.len() > 0 {
            unused.push(String::from_str("enum"));
        }
        if model.length.is_some() {
            unused.push(String::from_str("length"));
        }
        if model.path.is_some() {
            unused.push(String::from_str("path"));
        }
        if model.pattern.len() > 0 {
            unused.push(String::from_str("pattern"));
        }
        if model.require_instance.is_some() {
            unused.push(String::from_str("require-instance"));
        }
        if model.type_.len() > 0 {
            unused.push(String::from_str("type"));
        }
        warn_unused(unused, ctx);

        let fraction_digits: Option<u8> = match model.fraction_digits {
            Some(fd) => {
                if fd < 1 || fd > 18 {
                    ctx.add_error(
                        zero_span,
                        String::from_str("Fraction digits must be between 1 and 18"),
                    );
                    return Err(());
                }
                Some(fd as u8)
            },
            None => self.fraction_digits,
        };

        let base_range: Option<Vec<RangePart>> = match &self.range {
            Some(rg) => Some(copy_range(rg)),
            None => match fraction_digits {
                Some(d) => {
                    let seed = fraction_default_range(d);
                    let mut v: Vec<RangePart> = Vec::new();
                    v.push(seed);
                    proof {
                        assert(v@ =~= seq![fraction_seed(d)]);
                    }
                    Some(v)
                },
                None => None,
            },
        };

        let range: Option<Vec<RangePart>> = match base_range {
            Some(br) => {
                let parts: Option<Vec<(Bound, Option<Bound>)>> = match &model.range {
                    Some(rg) => {
                        match resolve_range_parts(&rg.range_expression, NumericKind::Dec, ctx) {
                            Ok(p) => Some(p),
                            Err(()) => {
                                return Err(());
                            },
                        }
                    },
                    None => None,
                };
                let derived = match &parts {
                    Some(p) => derive_range(&br, Some(p), ctx),
                    None => derive_range(&br, None, ctx),
                };
                match derived {
                    Ok(out) => {
                        proof {
                            if parts is Some {
                                lemma_derive_range_ordering(br@, parts->Some_0@, out@);
                            }
                        }
                        if out.len() == 0 {
                            None
                        } else {
                            Some(out)
                        }
                    },
                    Err(()) => {
                        return Err(());
                    },
                }
            },
            None => None,
        };

        Ok(DecimalType { range, fraction_digits })
    }

    /// A decimal type stays abstract until both a range and fraction digits
    /// are in force.
    pub fn is_abstract_type(&self) -> (r: bool)
        ensures
            r == (self.range is None || self.fraction_digits is None),
    {
        self.range.is_none() || self.fraction_digits.is_none()
    }
}

} // verus!
