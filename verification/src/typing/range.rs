//! Restriction algebra over ordered value ranges: the shared derivation of
//! narrowed ranges for integers, decimals and string lengths.

use vstd::prelude::*;
use crate::Span;
use crate::errors::{num_errors, num_warnings, ErrorContext};
use crate::parser::model::{LengthBoundary, RangeBoundary};

verus! {

/// One closed interval `[min_value, max_value]` over the 128-bit value
/// domain shared by integer ranges, decimal ranges (in fixed-point units)
/// and string lengths.
#[derive(Debug, Clone, Copy, PartialEq, Eq, Structural)]
pub struct RangePart {
    pub min_value: i128,
    pub max_value: i128,
}

/// A resolved range boundary: the base range's overall minimum or maximum,
/// or a literal value of the domain.
#[derive(Debug, Clone, Copy, PartialEq, Eq, Structural)]
pub enum Bound {
    Min,
    Max,
    Lit(i128),
}

/// The value domain a range expression is resolved in: plain integers, or
/// decimal values in fixed-point units of 10^-18.
#[derive(Debug, Clone, Copy, PartialEq, Eq, Structural)]
pub enum NumericKind {
    Int,
    Dec,
}

/// A well-formed range: every interval is non-empty, intervals ascend
/// strictly, and contiguous neighbours are coalesced (a gap of at least one
/// value separates them).
pub open spec fn range_wf(r: Seq<RangePart>) -> bool {
    &&& forall|i: int| 0 <= i < r.len() ==> (#[trigger] r[i]).min_value <= r[i].max_value
    &&& forall|i: int|
        0 <= i < r.len() - 1 ==> (#[trigger] r[i]).max_value + 1 < r[i + 1].min_value
}

/// `[lo, hi]` lies within a single interval of `base`.
pub open spec fn interval_in_base(base: Seq<RangePart>, lo: int, hi: int) -> bool {
    exists|j: int|
        0 <= j < base.len() && (#[trigger] base[j]).min_value <= lo && hi <= base[j].max_value
}

/// Every interval of `sub` lies within a single interval of `base`.
pub open spec fn contained_in(sub: Seq<RangePart>, base: Seq<RangePart>) -> bool {
    forall|i: int|
        0 <= i < sub.len() ==> interval_in_base(
            base,
            (#[trigger] sub[i]).min_value as int,
            sub[i].max_value as int,
        )
}

/// The value a resolved boundary denotes against a base range.
pub open spec fn resolve_bound(b: Bound, base: Seq<RangePart>) -> int {
    match b {
        Bound::Min => base[0].min_value as int,
        Bound::Max => base[base.len() - 1].max_value as int,
        Bound::Lit(v) => v as int,
    }
}

/// The `[lower, upper]` values of one part; a missing upper boundary
/// defaults to the lower one.
pub open spec fn part_bounds(p: (Bound, Option<Bound>), base: Seq<RangePart>) -> (int, int) {
    let lo = resolve_bound(p.0, base);
    let hi = match p.1 {
        Some(u) => resolve_bound(u, base),
        None => lo,
    };
    (lo, hi)
}

/// One derivation state: the intervals accepted so far and the bounds of the
/// part last accepted.
///
/// Processing of part `i` rejects, in this order: `min` anywhere but the
/// first part's lower boundary, `max` anywhere but the last part's upper
/// boundary, an inverted part, a part that does not ascend strictly past
/// the previous one, and a part not contained in a single base interval.
/// An accepted part contiguous with the previous one is merged into it.
pub open spec fn spec_derive_loop(
    base: Seq<RangePart>,
    parts: Seq<(Bound, Option<Bound>)>,
    i: int,
    acc: Seq<RangePart>,
    last: Option<(int, int)>,
) -> Option<Seq<RangePart>>
    decreases parts.len() - i,
{
    if i < 0 || i >= parts.len() {
        Some(acc)
    } else {
        let (lo, hi) = part_bounds(parts[i], base);
        let ascends = match last {
            Some(pb) => pb.1 < lo,
            None => true,
        };
        let contiguous = match last {
            Some(pb) => pb.1 + 1 == lo,
            None => false,
        };
        if parts[i].0 is Min && i != 0 {
            None
        } else if parts[i].0 is Max {
            None
        } else if parts[i].1 == Some(Bound::Min) {
            None
        } else if parts[i].1 == Some(Bound::Max) && i != parts.len() - 1 {
            None
        } else if lo > hi {
            None
        } else if !ascends {
            None
        } else if !interval_in_base(base, lo, hi) {
            None
        } else {
            spec_derive_loop(base, parts, i + 1, step_acc(acc, last, lo, hi), Some((lo, hi)))
        }
    }
}

/// The accumulator after accepting a part `[lo, hi]`: appended as a new
/// interval, or folded into the last one when contiguous with it.
pub open spec fn step_acc(acc: Seq<RangePart>, last: Option<(int, int)>, lo: int, hi: int) -> Seq<
    RangePart,
> {
    let contiguous = match last {
        Some(pb) => pb.1 + 1 == lo,
        None => false,
    };
    if contiguous {
        acc.drop_last().push(RangePart { min_value: acc.last().min_value, max_value: hi as i128 })
    } else {
        acc.push(RangePart { min_value: lo as i128, max_value: hi as i128 })
    }
}

/// The derived range for `parts` against `base`, or `None` when the
/// restriction is invalid.
pub open spec fn spec_derive(base: Seq<RangePart>, parts: Seq<(Bound, Option<Bound>)>) -> Option<
    Seq<RangePart>,
> {
    spec_derive_loop(base, parts, 0, Seq::empty(), None)
}

impl RangeBoundary {
    /// Resolves a parsed range boundary into the shared domain: in the
    /// integer domain a decimal literal is rejected; in the decimal domain
    /// an integer literal is scaled to fixed-point units.
    pub fn resolve(self, kind: NumericKind) -> (r: Result<Bound, String>)
        ensures
            match crate::typing::number::spec_resolve_boundary(self, kind) {
                Some(b) => r == Ok::<Bound, String>(b),
                None => r is Err,
            },
    {
        match self {
            RangeBoundary::Min => Ok(Bound::Min),
            RangeBoundary::Max => Ok(Bound::Max),
            RangeBoundary::Integer(v) => match kind {
                NumericKind::Int => Ok(Bound::Lit(v)),
                NumericKind::Dec => {
                    if -170141183460469 <= v && v <= 170141183460469 {
                        Ok(Bound::Lit(v * 1000000000000000000))
                    } else {
                        Err(String::from_str("Invalid range boundary"))
                    }
                },
            },
            RangeBoundary::Decimal(d) => match kind {
                NumericKind::Int => Err(
                    String::from_str("Decimal is not allowed in integer type"),
                ),
                NumericKind::Dec => Ok(Bound::Lit(d)),
            },
        }
    }
}

impl LengthBoundary {
    /// Resolves a parsed length boundary into the shared domain.
    pub fn resolve(self) -> (r: Bound)
        ensures
            r == match self {
                LengthBoundary::Min => Bound::Min,
                LengthBoundary::Max => Bound::Max,
                LengthBoundary::Value(v) => Bound::Lit(v as i128),
            },
    {
        match self {
            LengthBoundary::Min => Bound::Min,
            LengthBoundary::Max => Bound::Max,
            LengthBoundary::Value(v) => Bound::Lit(v as i128),
        }
    }
}

/// Copies a range.
pub fn copy_range(base: &Vec<RangePart>) -> (r: Vec<RangePart>)
    ensures
        r@ == base@,
{
    let mut out: Vec<RangePart> = Vec::new();
    let mut i: usize = 0;
    while i < base.len()
        invariant
            0 <= i <= base@.len(),
            out@ == base@.take(i as int),
        decreases base@.len() - i,
    {
        out.push(base[i]);
        proof {
            assert(out@ =~= base@.take(i + 1));
        }
        i = i + 1;
    }
    proof {
        assert(base@.take(base@.len() as int) =~= base@);
    }
    out
}

/// Derives the narrowed range for the resolved `parts` against `base`, or
/// records why the restriction is invalid. With no `parts` the base range is
/// inherited unchanged. The result is exactly `spec_derive(base@, parts@)`.
pub fn derive_range(
    base: &Vec<RangePart>,
    parts: Option<&Vec<(Bound, Option<Bound>)>>,
    ctx: &mut ErrorContext,
) -> (r: Result<Vec<RangePart>, ()>)
    requires
        base@.len() > 0,
    ensures
        num_warnings(final(ctx)@) == num_warnings(old(ctx)@),
        num_errors(final(ctx)@) >= num_errors(old(ctx)@),
        match parts {
            None => r is Ok && r->Ok_0@ == base@ && num_errors(final(ctx)@) == num_errors(
                old(ctx)@,
            ),
            Some(p) => match spec_derive(base@, p@) {
                Some(out) => r is Ok && r->Ok_0@ == out && num_errors(final(ctx)@)
                    == num_errors(old(ctx)@),
                None => r is Err && num_errors(final(ctx)@) > num_errors(old(ctx)@),
            },
        },
{
    let p = match parts {
        None => {
            return Ok(copy_range(base));
        },
        Some(p) => p,
    };
    proof {
        assert(parts is Some);
        assert(parts->Some_0 == p);
    }
    let zero_span = Span { start: 0, end: 0 };
    let n = p.len();
    let mut new_range: Vec<RangePart> = Vec::new();
    let mut last: Option<(i128, i128)> = None;
    let mut pos: usize = 0;
    while pos < n
        invariant
            base@.len() > 0,
            0 <= pos <= n,
            n == p@.len(),
            parts is Some && parts->Some_0 == p,
            ctx@ == old(ctx)@,
            spec_derive_loop(base@, p@, pos as int, new_range@, lift_last(last)) == spec_derive(
                base@,
                p@,
            ),
            last is Some ==> new_range@.len() > 0,
        decreases n - pos,
    {
        let part = p[pos];
        let lo = resolve_exec(part.0, base);
        let hi = match part.1 {
            Some(u) => resolve_exec(u, base),
            None => lo,
        };
        if matches!(part.0, Bound::Min) && pos != 0 {
            ctx.add_error(zero_span, String::from_str("Min can only be used in first part"));
            return Err(());
        }
        if matches!(part.0, Bound::Max) {
            // `max` stands for the upper end alone, never a lower boundary
            ctx.add_error(zero_span, String::from_str("Max can only be used in last part"));
            return Err(());
        }
        if matches!(part.1, Some(Bound::Min)) {
            ctx.add_error(zero_span, String::from_str("Min can only be used in first part"));
            return Err(());
        }
        if matches!(part.1, Some(Bound::Max)) && pos != n - 1 {
            ctx.add_error(zero_span, String::from_str("Max can only be used in last part"));
            return Err(());
        }
        if lo > hi {
            ctx.add_error(zero_span, String::from_str("Min value is larger than max value"));
            return Err(());
        }
        let collides = match last {
            Some((_lmin, lmax)) => lmax >= lo,
            None => false,
        };
        if collides {
            ctx.add_error(zero_span, String::from_str("Range parts not ascending sorted"));
            return Err(());
        }
        let mut matched = false;
        let mut j: usize = 0;
        while j < base.len()
            invariant
                0 <= j <= base@.len(),
                !matched ==> forall|q: int|
                    0 <= q < j ==> !((#[trigger] base@[q]).min_value <= lo && hi
                        <= base@[q].max_value),
                matched ==> interval_in_base(base@, lo as int, hi as int),
            decreases base@.len() - j,
        {
            if base[j].min_value <= lo && hi <= base[j].max_value {
                matched = true;
                j = base.len();
            } else {
                j = j + 1;
            }
        }
        if !matched {
            ctx.add_error(
                zero_span,
                String::from_str("Range is larger than range of base type"),
            );
            return Err(());
        }
        let merge = match last {
            Some((_lmin, lmax)) => lmax < i128::MAX && lmax + 1 == lo,
            None => false,
        };
        if merge {
            let prev = new_range[new_range.len() - 1];
            new_range.pop();
            new_range.push(RangePart { min_value: prev.min_value, max_value: hi });
        } else {
            new_range.push(RangePart { min_value: lo, max_value: hi });
        }
        last = Some((lo, hi));
        pos = pos + 1;
    }
    Ok(new_range)
}

/// Maps the last accepted part's bounds into the specification domain.
pub open spec fn lift_last(l: Option<(i128, i128)>) -> Option<(int, int)> {
    match l {
        None => None,
        Some((a, b)) => Some((a as int, b as int)),
    }
}

/// The derivation state invariant: the accepted intervals are well-formed,
/// and the last accepted part ends exactly at the last interval's maximum.
pub open spec fn derive_state_inv(acc: Seq<RangePart>, last: Option<(int, int)>) -> bool {
    &&& range_wf(acc)
    &&& match last {
        None => acc.len() == 0,
        Some(pb) => acc.len() > 0 && acc.last().max_value == pb.1 && pb.0 <= pb.1,
    }
}

/// In a well-formed range, interval minima ascend with the index.
proof fn lemma_range_wf_monotone(r: Seq<RangePart>, a: int, b: int)
    requires
        range_wf(r),
        0 <= a <= b < r.len(),
    ensures
        r[a].min_value <= r[b].min_value,
    decreases b - a,
{
    if a < b {
        lemma_range_wf_monotone(r, a + 1, b);
    }
}

/// In a well-formed range, interval maxima ascend with the index.
proof fn lemma_range_wf_max_monotone(r: Seq<RangePart>, a: int, b: int)
    requires
        range_wf(r),
        0 <= a <= b < r.len(),
    ensures
        r[a].max_value <= r[b].max_value,
    decreases b - a,
{
    if a < b {
        lemma_range_wf_max_monotone(r, a + 1, b);
    }
}

/// Accepting one part preserves the derivation state invariant.
proof fn lemma_step_inv(acc: Seq<RangePart>, last: Option<(int, int)>, lo: int, hi: int)
    requires
        derive_state_inv(acc, last),
        i128::MIN <= lo <= hi <= i128::MAX,
        match last {
            Some(pb) => pb.1 < lo,
            None => true,
        },
    ensures
        derive_state_inv(step_acc(acc, last, lo, hi), Some((lo, hi))),
{
    let acc2 = step_acc(acc, last, lo, hi);
    match last {
        Some(pb) => {
            if pb.1 + 1 == lo {
                assert(forall|k: int| 0 <= k < acc.len() - 1 ==> acc2[k] == acc[k]);
                assert(acc2.len() == acc.len());
                assert(acc2.last() == (RangePart {
                    min_value: acc.last().min_value,
                    max_value: hi as i128,
                }));
                assert(acc.last().min_value <= acc.last().max_value == pb.1 < lo <= hi);
            } else {
                assert(forall|k: int| 0 <= k < acc.len() ==> acc2[k] == acc[k]);
                assert(acc2.last() == (RangePart { min_value: lo as i128, max_value: hi as i128 }));
                assert(acc.last().max_value + 1 < lo);
            }
        },
        None => {
            assert(acc2 =~= seq![RangePart { min_value: lo as i128, max_value: hi as i128 }]);
        },
    }
}

/// Accepting one part whose bounds lie in a single interval of a
/// well-formed base keeps every accumulated interval inside the base.
proof fn lemma_step_contained(
    base: Seq<RangePart>,
    acc: Seq<RangePart>,
    last: Option<(int, int)>,
    lo: int,
    hi: int,
)
    requires
        range_wf(base),
        derive_state_inv(acc, last),
        contained_in(acc, base),
        lo <= hi,
        match last {
            Some(pb) => pb.1 < lo,
            None => true,
        },
        interval_in_base(base, lo, hi),
    ensures
        contained_in(step_acc(acc, last, lo, hi), base),
{
    let acc2 = step_acc(acc, last, lo, hi);
    let contiguous = match last {
        Some(pb) => pb.1 + 1 == lo,
        None => false,
    };
    let j2 = choose|j: int|
        0 <= j < base.len() && (#[trigger] base[j]).min_value <= lo && hi <= base[j].max_value;
    if contiguous {
        let a = acc.len() - 1;
        let j1 = choose|j: int|
            0 <= j < base.len() && (#[trigger] base[j]).min_value <= acc[a].min_value as int
                && acc[a].max_value as int <= base[j].max_value;
        // the previous interval and the new part touch, so with a
        // well-formed base they lie in the same base interval
        assert(j1 == j2) by {
            if j1 < j2 {
                assert(base[j1].max_value + 1 < base[j1 + 1].min_value);
                lemma_range_wf_monotone(base, j1 + 1, j2);
                assert(false);
            } else if j2 < j1 {
                assert(base[j2].max_value + 1 < base[j2 + 1].min_value);
                lemma_range_wf_monotone(base, j2 + 1, j1);
                assert(false);
            }
        }
        assert(forall|k: int| 0 <= k < acc.len() - 1 ==> acc2[k] == acc[k]);
        assert(base[j1].min_value <= acc2.last().min_value && acc2.last().max_value
            <= base[j1].max_value);
    } else {
        assert(forall|k: int| 0 <= k < acc.len() ==> acc2[k] == acc[k]);
        assert(base[j2].min_value <= acc2.last().min_value && acc2.last().max_value
            <= base[j2].max_value);
    }
}

/// Processing more parts only appends intervals or extends the last one
/// upward, and keeps the result well-formed.
proof fn lemma_loop_wf(
    base: Seq<RangePart>,
    parts: Seq<(Bound, Option<Bound>)>,
    i: int,
    acc: Seq<RangePart>,
    last: Option<(int, int)>,
    out: Seq<RangePart>,
)
    requires
        spec_derive_loop(base, parts, i, acc, last) == Some(out),
        derive_state_inv(acc, last),
    ensures
        range_wf(out),
        out.len() >= acc.len(),
        forall|k: int| 0 <= k < acc.len() - 1 ==> out[k] == acc[k],
        acc.len() > 0 ==> out[acc.len() - 1].min_value == acc.last().min_value
            && out[acc.len() - 1].max_value >= acc.last().max_value,
    decreases parts.len() - i,
{
    if i < 0 || i >= parts.len() {
    } else {
        let (lo, hi) = part_bounds(parts[i], base);
        let acc2 = step_acc(acc, last, lo, hi);
        lemma_step_inv(acc, last, lo, hi);
        lemma_loop_wf(base, parts, i + 1, acc2, Some((lo, hi)), out);
    }
}

/// Range ordering invariant: every accepted derivation yields a strictly
/// ascending, pairwise disjoint, coalesced interval list.
pub proof fn lemma_derive_range_ordering(
    base: Seq<RangePart>,
    parts: Seq<(Bound, Option<Bound>)>,
    out: Seq<RangePart>,
)
    requires
        spec_derive(base, parts) == Some(out),
    ensures
        range_wf(out),
{
    lemma_loop_wf(base, parts, 0, Seq::empty(), None, out);
}

proof fn lemma_loop_contained(
    base: Seq<RangePart>,
    parts: Seq<(Bound, Option<Bound>)>,
    i: int,
    acc: Seq<RangePart>,
    last: Option<(int, int)>,
    out: Seq<RangePart>,
)
    requires
        range_wf(base),
        spec_derive_loop(base, parts, i, acc, last) == Some(out),
        derive_state_inv(acc, last),
        contained_in(acc, base),
    ensures
        contained_in(out, base),
    decreases parts.len() - i,
{
    if i < 0 || i >= parts.len() {
    } else {
        let (lo, hi) = part_bounds(parts[i], base);
        let acc2 = step_acc(acc, last, lo, hi);
        lemma_step_inv(acc, last, lo, hi);
        lemma_step_contained(base, acc, last, lo, hi);
        lemma_loop_contained(base, parts, i + 1, acc2, Some((lo, hi)), out);
    }
}

/// Containment invariant: every interval of an accepted restriction lies
/// within a single interval of the well-formed base range.
pub proof fn lemma_derive_range_containment(
    base: Seq<RangePart>,
    parts: Seq<(Bound, Option<Bound>)>,
    out: Seq<RangePart>,
)
    requires
        range_wf(base),
        spec_derive(base, parts) == Some(out),
    ensures
        contained_in(out, base),
{
    lemma_loop_contained(base, parts, 0, Seq::empty(), None, out);
}

/// Helper for an accepted part whose lower boundary is `min`: it resolves
/// to the base minimum, which the first interval of the result then starts
/// at.
proof fn lemma_min_resolution(
    base: Seq<RangePart>,
    parts: Seq<(Bound, Option<Bound>)>,
    i: int,
    acc: Seq<RangePart>,
    last: Option<(int, int)>,
    out: Seq<RangePart>,
    lo: int,
    hi: int,
)
    requires
        range_wf(base),
        0 <= i < parts.len(),
        spec_derive_loop(base, parts, i, acc, last) == Some(out),
        derive_state_inv(acc, last),
        contained_in(acc, base),
        part_bounds(parts[i], base) == (lo, hi),
        parts[i].0 is Min,
        lo <= hi,
        match last {
            Some(pb) => pb.1 < lo,
            None => true,
        },
        interval_in_base(base, lo, hi),
    ensures
        out.len() > 0,
        out[0].min_value == base[0].min_value,
{
    let m = base[0].min_value as int;
    // lo is at least the base minimum, because [lo, hi] lies in some interval
    let j = choose|j: int|
        0 <= j < base.len() && (#[trigger] base[j]).min_value <= lo && hi <= base[j].max_value;
    lemma_range_wf_monotone(base, 0, j);
    assert(lo == m);
    // nothing can precede a part that starts at the base minimum
    match last {
        Some(pb) => {
            let a = acc.len() - 1;
            let jp = choose|j: int|
                0 <= j < base.len() && (#[trigger] base[j]).min_value <= acc[a].min_value
                    && acc[a].max_value <= base[j].max_value;
            lemma_range_wf_monotone(base, 0, jp);
            assert(false);
        },
        None => {},
    }
    let acc2 = step_acc(acc, last, lo, hi);
    lemma_step_inv(acc, last, lo, hi);
    lemma_loop_wf(base, parts, i + 1, acc2, Some((lo, hi)), out);
    assert(acc2[0].min_value == lo);
}

/// Once a part reaches the base maximum, no further part can be accepted,
/// so the result ends exactly there.
proof fn lemma_last_part_ends_range(
    base: Seq<RangePart>,
    parts: Seq<(Bound, Option<Bound>)>,
    i: int,
    acc: Seq<RangePart>,
    last: (int, int),
    out: Seq<RangePart>,
)
    requires
        range_wf(base),
        base.len() > 0,
        spec_derive_loop(base, parts, i, acc, Some(last)) == Some(out),
        derive_state_inv(acc, Some(last)),
        last.1 == base[base.len() - 1].max_value as int,
    ensures
        out.len() > 0,
        out[out.len() - 1].max_value == base[base.len() - 1].max_value,
    decreases parts.len() - i,
{
    if i < 0 || i >= parts.len() {
    } else {
        // a further part would have to start above the base maximum and
        // still lie within the base: impossible
        let (lo, hi) = part_bounds(parts[i], base);
        if last.1 < lo && lo <= hi && interval_in_base(base, lo, hi) {
            let j = choose|j: int|
                0 <= j < base.len() && (#[trigger] base[j]).min_value <= lo && hi
                    <= base[j].max_value;
            lemma_range_wf_max_monotone(base, j, base.len() - 1);
            assert(false);
        }
    }
}

/// Helper for an accepted part whose upper boundary is `max`: it resolves
/// to the base maximum, which the result's last interval then ends at.
proof fn lemma_max_resolution(
    base: Seq<RangePart>,
    parts: Seq<(Bound, Option<Bound>)>,
    i: int,
    acc: Seq<RangePart>,
    last: Option<(int, int)>,
    out: Seq<RangePart>,
    lo: int,
    hi: int,
)
    requires
        range_wf(base),
        0 <= i < parts.len(),
        spec_derive_loop(base, parts, i, acc, last) == Some(out),
        derive_state_inv(acc, last),
        part_bounds(parts[i], base) == (lo, hi),
        parts[i].1 == Some(Bound::Max),
        lo <= hi,
        match last {
            Some(pb) => pb.1 < lo,
            None => true,
        },
        interval_in_base(base, lo, hi),
    ensures
        out.len() > 0,
        out[out.len() - 1].max_value == base[base.len() - 1].max_value,
{
    let mx = base[base.len() - 1].max_value as int;
    let j = choose|j: int|
        0 <= j < base.len() && (#[trigger] base[j]).min_value <= lo && hi <= base[j].max_value;
    lemma_range_wf_max_monotone(base, j, base.len() - 1);
    assert(hi == mx);
    let acc2 = step_acc(acc, last, lo, hi);
    lemma_step_inv(acc, last, lo, hi);
    lemma_last_part_ends_range(base, parts, i + 1, acc2, (lo, hi), out);
}

proof fn lemma_loop_idempotent(
    base: Seq<RangePart>,
    parts: Seq<(Bound, Option<Bound>)>,
    i: int,
    acc: Seq<RangePart>,
    last: Option<(int, int)>,
    out: Seq<RangePart>,
)
    requires
        range_wf(base),
        spec_derive_loop(base, parts, i, acc, last) == Some(out),
        derive_state_inv(acc, last),
        contained_in(acc, base),
    ensures
        spec_derive_loop(out, parts, i, acc, last) == Some(out),
    decreases parts.len() - i,
{
    if i < 0 || i >= parts.len() {
    } else {
        let (lo, hi) = part_bounds(parts[i], base);
        let acc2 = step_acc(acc, last, lo, hi);
        lemma_step_inv(acc, last, lo, hi);
        lemma_step_contained(base, acc, last, lo, hi);
        // `out` extends the accumulator after this step
        lemma_loop_wf(base, parts, i + 1, acc2, Some((lo, hi)), out);
        let a2 = acc2.len() - 1;
        // the part lies inside the interval of `out` it was folded into
        assert(out[a2].min_value <= lo && hi <= out[a2].max_value);
        assert(interval_in_base(out, lo, hi));
        // the part resolves to the same values against `out` as against `base`
        let (lo2, hi2) = part_bounds(parts[i], out);
        assert(lo2 == lo && hi2 == hi) by {
            // `min` can only stand as the first part's lower boundary and
            // `max` only as the last part's upper boundary; the other
            // placements were rejected
            match parts[i].0 {
                Bound::Min => {
                    lemma_min_resolution(base, parts, i, acc, last, out, lo, hi);
                },
                Bound::Max => {},
                Bound::Lit(_v) => {},
            }
            match parts[i].1 {
                Some(u) => match u {
                    Bound::Min => {},
                    Bound::Max => {
                        lemma_max_resolution(base, parts, i, acc, last, out, lo, hi);
                    },
                    Bound::Lit(_v) => {},
                },
                None => {},
            }
        }
        lemma_loop_idempotent(base, parts, i + 1, acc2, Some((lo, hi)), out);
    }
}

/// Range derivation idempotence: deriving the same restriction from its own
/// accepted result reproduces that result unchanged.
pub proof fn lemma_derive_range_idempotent(
    base: Seq<RangePart>,
    parts: Seq<(Bound, Option<Bound>)>,
    out: Seq<RangePart>,
)
    requires
        range_wf(base),
        spec_derive(base, parts) == Some(out),
    ensures
        spec_derive(out, parts) == Some(out),
{
    lemma_loop_idempotent(base, parts, 0, Seq::empty(), None, out);
}

/// Resolves a boundary against the base range.
fn resolve_exec(b: Bound, base: &Vec<RangePart>) -> (r: i128)
    requires
        base@.len() > 0,
    ensures
        r as int == resolve_bound(b, base@),
{
    match b {
        Bound::Min => base[0].min_value,
        Bound::Max => base[base.len() - 1].max_value,
        Bound::Lit(v) => v,
    }
}

} // verus!
