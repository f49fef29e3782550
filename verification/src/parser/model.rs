//! Typed AST nodes, one per schema construct, and the shared primitive
//! argument and child mappers. Mapping follows one uniform scheme: check the
//! keyword, map the argument, group the children by attribute, map each
//! group, and fail the node if anything recorded an error.

use vstd::prelude::*;
use crate::Span;
use crate::errors::{num_errors, num_warnings};
use crate::parser::model_mapper::{
    group_children, push_spec, reverse_vec, ArgumentMapper, AttrSpec, Card, ErrorContext, Mapper,
};
use crate::parser::parser::Statement;
use crate::text::{
    parse_decimal_scaled, parse_i128, parse_i32, parse_u32, spec_parse_decimal, spec_split,
    spec_split_dotdot, spec_trim, split_on_char, split_on_dotdot, str_eq, trim_ws,
};

verus! {

/// Lifecycle status of a definition.
#[derive(Debug)]
pub enum Status {
    Current,
    Deprecated,
    Obsolete,
}

impl Mapper for Status {
    fn map(statement: Statement, error_context: &mut ErrorContext) -> (r: Result<Status, ()>)
        ensures
            statement.argument matches Some(a) ==> (if a@ == "current"@ {
                r matches Ok(v) && v is Current
            } else if a@ == "deprecated"@ {
                r matches Ok(v) && v is Deprecated
            } else if a@ == "obsolete"@ {
                r matches Ok(v) && v is Obsolete
            } else {
                r is Err
            }),
            statement.argument is None ==> r is Err,
            r is Ok ==> final(error_context)@ == old(error_context)@,
    {
        let argument = match statement.argument {
            Some(a) => a,
            None => {
                error_context.add_error(
                    statement.argument_span,
                    String::from_str("Expected status"),
                );
                return Err(());
            },
        };
        if str_eq(argument.as_str(), "current") {
            Ok(Status::Current)
        } else if str_eq(argument.as_str(), "deprecated") {
            Ok(Status::Deprecated)
        } else if str_eq(argument.as_str(), "obsolete") {
            Ok(Status::Obsolete)
        } else {
            error_context.add_error(statement.argument_span, String::from_str("Invalid status"));
            Err(())
        }
    }
}

impl Mapper for bool {
    fn map(statement: Statement, error_context: &mut ErrorContext) -> (r: Result<bool, ()>)
        ensures
            statement.argument matches Some(a) ==> (if a@ == "true"@ {
                r == Ok::<bool, ()>(true)
            } else if a@ == "false"@ {
                r == Ok::<bool, ()>(false)
            } else {
                r is Err
            }),
            statement.argument is None ==> r is Err,
            r is Ok ==> final(error_context)@ == old(error_context)@,
    {
        let argument = match statement.argument {
            Some(a) => a,
            None => {
                error_context.add_error(statement.argument_span, String::from_str("Expected bool"));
                return Err(());
            },
        };
        if str_eq(argument.as_str(), "true") {
            Ok(true)
        } else if str_eq(argument.as_str(), "false") {
            Ok(false)
        } else {
            error_context.add_error(statement.argument_span, String::from_str("Invalid boolean"));
            Err(())
        }
    }
}

impl Mapper for u32 {
    fn map(statement: Statement, error_context: &mut ErrorContext) -> (r: Result<u32, ()>)
        ensures
            statement.argument matches Some(a) ==> (match crate::text::spec_parse_unsigned(a@) {
                Some(v) => if v <= u32::MAX {
                    r == Ok::<u32, ()>(v as u32)
                } else {
                    r is Err
                },
                None => r is Err,
            }),
            statement.argument is None ==> r is Err,
            r is Ok ==> final(error_context)@ == old(error_context)@,
    {
        let argument = match statement.argument {
            Some(a) => a,
            None => {
                error_context.add_error(statement.argument_span, String::from_str("Expected u32"));
                return Err(());
            },
        };
        match parse_u32(argument.as_str()) {
            Some(value) => Ok(value),
            None => {
                error_context.add_error(statement.argument_span, String::from_str("Invalid u32"));
                Err(())
            },
        }
    }
}

impl Mapper for i32 {
    fn map(statement: Statement, error_context: &mut ErrorContext) -> (r: Result<i32, ()>)
        ensures
            statement.argument matches Some(a) ==> (match crate::text::spec_parse_int(a@) {
                Some(v) => if i32::MIN <= v <= i32::MAX {
                    r == Ok::<i32, ()>(v as i32)
                } else {
                    r is Err
                },
                None => r is Err,
            }),
            statement.argument is None ==> r is Err,
            r is Ok ==> final(error_context)@ == old(error_context)@,
    {
        let argument = match statement.argument {
            Some(a) => a,
            None => {
                error_context.add_error(statement.argument_span, String::from_str("Expected i32"));
                return Err(());
            },
        };
        match parse_i32(argument.as_str()) {
            Some(value) => Ok(value),
            None => {
                error_context.add_error(statement.argument_span, String::from_str("Invalid i32"));
                Err(())
            },
        }
    }
}

/// A boundary in a length expression: `min`, `max`, or a literal value.
#[derive(Debug, Clone, Copy, PartialEq, Eq, Structural)]
pub enum LengthBoundary {
    Min,
    Max,
    Value(u32),
}

/// The boundary a length-expression token denotes: `min`, `max`, or an
/// unsigned 32-bit value.
pub open spec fn spec_length_boundary(s: Seq<char>) -> Option<LengthBoundary> {
    if s == "min"@ {
        Some(LengthBoundary::Min)
    } else if s == "max"@ {
        Some(LengthBoundary::Max)
    } else {
        match crate::text::spec_parse_unsigned(s) {
            Some(v) => if v <= u32::MAX {
                Some(LengthBoundary::Value(v as u32))
            } else {
                None
            },
            None => None,
        }
    }
}

impl LengthBoundary {
    /// `min`, `max`, or an unsigned 32-bit value.
    pub fn from_str(s: &str) -> (r: Result<LengthBoundary, String>)
        ensures
            match spec_length_boundary(s@) {
                Some(b) => r == Ok::<LengthBoundary, String>(b),
                None => r is Err,
            },
    {
        if str_eq(s, "min") {
            Ok(LengthBoundary::Min)
        } else if str_eq(s, "max") {
            Ok(LengthBoundary::Max)
        } else {
            match parse_u32(s) {
                Some(v) => Ok(LengthBoundary::Value(v)),
                None => Err(String::from_str("Invalid length boundary")),
            }
        }
    }
}

/// A boundary in a range expression: `min`, `max`, an integer literal, or a
/// decimal literal held in fixed-point form, in units of 10^-18.
#[derive(Debug, Clone, Copy, PartialEq, Eq, Structural)]
pub enum RangeBoundary {
    Min,
    Max,
    Integer(i128),
    Decimal(i128),
}

/// The boundary a range-expression token denotes: `min`, `max`, a signed
/// 128-bit integer, or a decimal literal in fixed-point form.
pub open spec fn spec_range_boundary(s: Seq<char>) -> Option<RangeBoundary> {
    if s == "min"@ {
        Some(RangeBoundary::Min)
    } else if s == "max"@ {
        Some(RangeBoundary::Max)
    } else {
        match crate::text::spec_parse_int(s) {
            Some(v) => if i128::MIN <= v <= i128::MAX {
                Some(RangeBoundary::Integer(v as i128))
            } else {
                match spec_parse_decimal(s) {
                    Some(d) => Some(RangeBoundary::Decimal(d as i128)),
                    None => None,
                }
            },
            None => match spec_parse_decimal(s) {
                Some(d) => Some(RangeBoundary::Decimal(d as i128)),
                None => None,
            },
        }
    }
}

impl RangeBoundary {
    /// `min`, `max`, a signed 128-bit integer, or a decimal literal taken
    /// to fixed-point form.
    pub fn from_str(s: &str) -> (r: Result<RangeBoundary, String>)
        ensures
            match spec_range_boundary(s@) {
                Some(b) => r == Ok::<RangeBoundary, String>(b),
                None => r is Err,
            },
    {
        if str_eq(s, "min") {
            Ok(RangeBoundary::Min)
        } else if str_eq(s, "max") {
            Ok(RangeBoundary::Max)
        } else {
            match parse_i128(s) {
                Some(v) => Ok(RangeBoundary::Integer(v)),
                None => match parse_decimal_scaled(s) {
                    Some(d) => Ok(RangeBoundary::Decimal(d)),
                    None => Err(String::from_str("Invalid length boundary")),
                },
            }
        }
    }
}

/// Parsing of the boundary literals of a range or length expression.
pub trait BoundaryParse: Sized {
    /// The boundary a token text denotes, if any.
    spec fn spec_boundary(s: Seq<char>) -> Option<Self>;

    fn parse_boundary(s: &str) -> (r: Result<Self, String>)
        ensures
            match Self::spec_boundary(s@) {
                Some(b) => r == Ok::<Self, String>(b),
                None => r is Err,
            },
    ;
}

impl BoundaryParse for LengthBoundary {
    open spec fn spec_boundary(s: Seq<char>) -> Option<LengthBoundary> {
        spec_length_boundary(s)
    }

    fn parse_boundary(s: &str) -> (r: Result<LengthBoundary, String>) {
        LengthBoundary::from_str(s)
    }
}

impl BoundaryParse for RangeBoundary {
    open spec fn spec_boundary(s: Seq<char>) -> Option<RangeBoundary> {
        spec_range_boundary(s)
    }

    fn parse_boundary(s: &str) -> (r: Result<RangeBoundary, String>) {
        RangeBoundary::from_str(s)
    }
}

/// One `lower..upper` part of a range or length expression; a missing upper
/// boundary stands for the lower one repeated.
#[derive(Debug, Clone, Copy)]
pub struct LengthRangePatternPart<T> {
    pub lower_boundary: T,
    pub upper_boundary: Option<T>,
}

/// An ordered, `|`-separated list of range or length parts.
#[derive(Debug)]
pub struct LengthRangePattern<T>(pub Vec<LengthRangePatternPart<T>>);

/// The parts denoted by a sequence of `|`-segments: each segment is split
/// on `..` into one or two tokens, each trimmed and parsed as a boundary.
pub open spec fn spec_parts<T: BoundaryParse>(segs: Seq<Seq<char>>) -> Option<
    Seq<LengthRangePatternPart<T>>,
>
    decreases segs.len(),
{
    if segs.len() == 0 {
        Some(Seq::empty())
    } else {
        match spec_parts::<T>(segs.drop_last()) {
            None => None,
            Some(rest) => {
                let toks = spec_split_dotdot(segs.last());
                if toks.len() == 1 {
                    match T::spec_boundary(spec_trim(toks[0])) {
                        Some(lb) => Some(
                            rest.push(
                                LengthRangePatternPart {
                                    lower_boundary: lb,
                                    upper_boundary: None,
                                },
                            ),
                        ),
                        None => None,
                    }
                } else if toks.len() == 2 {
                    match (
                        T::spec_boundary(spec_trim(toks[0])),
                        T::spec_boundary(spec_trim(toks[1])),
                    ) {
                        (Some(lb), Some(ub)) => Some(
                            rest.push(
                                LengthRangePatternPart {
                                    lower_boundary: lb,
                                    upper_boundary: Some(ub),
                                },
                            ),
                        ),
                        _ => None,
                    }
                } else {
                    None
                }
            },
        }
    }
}

/// The parts a whole range or length expression denotes.
pub open spec fn spec_range_pattern<T: BoundaryParse>(arg: Seq<char>) -> Option<
    Seq<LengthRangePatternPart<T>>,
> {
    spec_parts::<T>(spec_split(arg, '|'))
}

/// A failing segment fails the whole expression.
proof fn lemma_spec_parts_failure<T: BoundaryParse>(segs: Seq<Seq<char>>, i: int)
    requires
        0 <= i <= segs.len(),
        spec_parts::<T>(segs.take(i)) is None,
    ensures
        spec_parts::<T>(segs) is None,
    decreases segs.len() - i,
{
    if i < segs.len() {
        assert(segs.take(i + 1).drop_last() =~= segs.take(i));
        lemma_spec_parts_failure::<T>(segs, i + 1);
    } else {
        assert(segs.take(i) =~= segs);
    }
}

impl<T: BoundaryParse> ArgumentMapper for LengthRangePattern<T> {
    fn map_argument(argument: String, argument_span: Span, error_context: &mut ErrorContext) -> (r:
        Result<LengthRangePattern<T>, ()>)
        ensures
            match spec_range_pattern::<T>(argument@) {
                Some(ps) => r matches Ok(p) && p.0@ == ps,
                None => r is Err,
            },
            r matches Ok(p) ==> p.0@.len() >= 1,
    {
        let seg = split_on_char(argument.as_str(), '|');
        let ghost segs = seg.deep_view();
        let mut parts: Vec<LengthRangePatternPart<T>> = Vec::new();
        let mut si: usize = 0;
        proof {
            assert(segs.take(0) =~= Seq::<Seq<char>>::empty());
        }
        while si < seg.len()
            invariant
                0 <= si <= seg@.len(),
                segs == seg.deep_view(),
                segs.len() == seg@.len(),
                spec_range_pattern::<T>(argument@) == spec_parts::<T>(segs),
                spec_parts::<T>(segs.take(si as int)) == Some(parts@),
                num_errors(error_context@) == num_errors(old(error_context)@),
                num_warnings(error_context@) == num_warnings(old(error_context)@),
            decreases seg@.len() - si,
        {
            proof {
                assert(segs.take(si + 1).drop_last() =~= segs.take(si as int));
                assert(segs.take(si + 1).last() == seg@[si as int]@);
            }
            let toks = split_on_dotdot(seg[si].as_str());
            if toks.len() != 1 && toks.len() != 2 {
                error_context.add_error(argument_span, String::from_str("Invalid pattern part"));
                proof {
                    lemma_spec_parts_failure::<T>(segs, si + 1);
                }
                return Err(());
            }
            proof {
                assert(toks.deep_view()[0] == spec_split_dotdot(seg@[si as int]@)[0]);
            }
            let t0 = trim_ws(toks[0].as_str());
            let lower_boundary = match T::parse_boundary(t0.as_str()) {
                Ok(b) => b,
                Err(e) => {
                    error_context.add_error(argument_span, e);
                    proof {
                        lemma_spec_parts_failure::<T>(segs, si + 1);
                    }
                    return Err(());
                },
            };
            let upper_boundary = if toks.len() == 2 {
                proof {
                    assert(toks.deep_view()[1] == spec_split_dotdot(seg@[si as int]@)[1]);
                }
                let t1 = trim_ws(toks[1].as_str());
                match T::parse_boundary(t1.as_str()) {
                    Ok(b) => Some(b),
                    Err(e) => {
                        error_context.add_error(argument_span, e);
                        proof {
                            lemma_spec_parts_failure::<T>(segs, si + 1);
                        }
                        return Err(());
                    },
                }
            } else {
                None
            };
            parts.push(LengthRangePatternPart { lower_boundary, upper_boundary });
            proof {
                assert(spec_parts::<T>(segs.take(si + 1)) == Some(parts@)) by {
                    assert(parts@.drop_last() =~= parts@.take(parts@.len() - 1));
                    assert(parts@ =~= parts@.drop_last().push(
                        LengthRangePatternPart { lower_boundary, upper_boundary },
                    ));
                }
            }
            si = si + 1;
        }
        proof {
            assert(segs.take(segs.len() as int) =~= segs);
        }
        if parts.len() == 0 {
            error_context.add_error(argument_span, String::from_str("Invalid length pattern"));
            return Err(());
        }
        Ok(LengthRangePattern(parts))
    }
}

/// The four deviation aspects a `deviate` statement may name.
#[derive(Debug)]
pub enum DeviateAspect {
    NotSupported,
    Add,
    Replace,
    Delete,
}

impl ArgumentMapper for DeviateAspect {
    fn map_argument(argument: String, argument_span: Span, error_context: &mut ErrorContext) -> (r:
        Result<DeviateAspect, ()>)
        ensures
            if argument@ == "not-supported"@ {
                r matches Ok(v) && v is NotSupported
            } else if argument@ == "add"@ {
                r matches Ok(v) && v is Add
            } else if argument@ == "replace"@ {
                r matches Ok(v) && v is Replace
            } else if argument@ == "delete"@ {
                r matches Ok(v) && v is Delete
            } else {
                r is Err
            },
            r is Ok ==> final(error_context)@ == old(error_context)@,
    {
        if str_eq(argument.as_str(), "not-supported") {
            Ok(DeviateAspect::NotSupported)
        } else if str_eq(argument.as_str(), "add") {
            Ok(DeviateAspect::Add)
        } else if str_eq(argument.as_str(), "replace") {
            Ok(DeviateAspect::Replace)
        } else if str_eq(argument.as_str(), "delete") {
            Ok(DeviateAspect::Delete)
        } else {
            error_context.add_error(argument_span, String::from_str("Invalid deviate aspect"));
            Err(())
        }
    }
}

// ---------------------------------------------------------------------------
// Shared cardinality helpers for primitive-valued attributes
// ---------------------------------------------------------------------------

fn map_single_string(g: Vec<Statement>, ctx: &mut ErrorContext) -> (r: (Option<String>, bool))
    ensures
        num_errors(final(ctx)@) >= num_errors(old(ctx)@),
        num_warnings(final(ctx)@) >= num_warnings(old(ctx)@),
        r.1 ==> num_errors(final(ctx)@) > num_errors(old(ctx)@),
        !r.1 ==> num_errors(final(ctx)@) == num_errors(old(ctx)@),
        g@.len() > 0 && !r.1 ==> r.0 is Some,
{
    let mut g = g;
    if g.len() == 0 {
        (None, false)
    } else {
        let s = g.remove(0);
        match <String as Mapper>::map(s, ctx) {
            Ok(v) => (Some(v), false),
            Err(()) => (None, true),
        }
    }
}

fn map_single_bool(g: Vec<Statement>, ctx: &mut ErrorContext) -> (r: (Option<bool>, bool))
    ensures
        num_errors(final(ctx)@) >= num_errors(old(ctx)@),
        num_warnings(final(ctx)@) >= num_warnings(old(ctx)@),
        r.1 ==> num_errors(final(ctx)@) > num_errors(old(ctx)@),
        !r.1 ==> num_errors(final(ctx)@) == num_errors(old(ctx)@),
        g@.len() > 0 && !r.1 ==> r.0 is Some,
{
    let mut g = g;
    if g.len() == 0 {
        (None, false)
    } else {
        let s = g.remove(0);
        match <bool as Mapper>::map(s, ctx) {
            Ok(v) => (Some(v), false),
            Err(()) => (None, true),
        }
    }
}

fn map_single_u32(g: Vec<Statement>, ctx: &mut ErrorContext) -> (r: (Option<u32>, bool))
    ensures
        num_errors(final(ctx)@) >= num_errors(old(ctx)@),
        num_warnings(final(ctx)@) >= num_warnings(old(ctx)@),
        r.1 ==> num_errors(final(ctx)@) > num_errors(old(ctx)@),
        !r.1 ==> num_errors(final(ctx)@) == num_errors(old(ctx)@),
        g@.len() > 0 && !r.1 ==> r.0 is Some,
{
    let mut g = g;
    if g.len() == 0 {
        (None, false)
    } else {
        let s = g.remove(0);
        match <u32 as Mapper>::map(s, ctx) {
            Ok(v) => (Some(v), false),
            Err(()) => (None, true),
        }
    }
}

fn map_single_i32(g: Vec<Statement>, ctx: &mut ErrorContext) -> (r: (Option<i32>, bool))
    ensures
        num_errors(final(ctx)@) >= num_errors(old(ctx)@),
        num_warnings(final(ctx)@) >= num_warnings(old(ctx)@),
        r.1 ==> num_errors(final(ctx)@) > num_errors(old(ctx)@),
        !r.1 ==> num_errors(final(ctx)@) == num_errors(old(ctx)@),
        g@.len() > 0 && !r.1 ==> r.0 is Some,
{
    let mut g = g;
    if g.len() == 0 {
        (None, false)
    } else {
        let s = g.remove(0);
        match <i32 as Mapper>::map(s, ctx) {
            Ok(v) => (Some(v), false),
            Err(()) => (None, true),
        }
    }
}

fn map_single_status(g: Vec<Statement>, ctx: &mut ErrorContext) -> (r: (Option<Status>, bool))
    ensures
        num_errors(final(ctx)@) >= num_errors(old(ctx)@),
        num_warnings(final(ctx)@) >= num_warnings(old(ctx)@),
        r.1 ==> num_errors(final(ctx)@) > num_errors(old(ctx)@),
        !r.1 ==> num_errors(final(ctx)@) == num_errors(old(ctx)@),
        g@.len() > 0 && !r.1 ==> r.0 is Some,
{
    let mut g = g;
    if g.len() == 0 {
        (None, false)
    } else {
        let s = g.remove(0);
        match <Status as Mapper>::map(s, ctx) {
            Ok(v) => (Some(v), false),
            Err(()) => (None, true),
        }
    }
}

fn map_many_string(g: Vec<Statement>, ctx: &mut ErrorContext) -> (r: (Vec<String>, bool))
    ensures
        num_errors(final(ctx)@) >= num_errors(old(ctx)@),
        num_warnings(final(ctx)@) >= num_warnings(old(ctx)@),
        r.1 ==> num_errors(final(ctx)@) > num_errors(old(ctx)@),
        !r.1 ==> num_errors(final(ctx)@) == num_errors(old(ctx)@),
{
    let mut rest = reverse_vec(g);
    let mut out: Vec<String> = Vec::new();
    let mut fail = false;
    while rest.len() > 0
        invariant
            num_errors(ctx@) >= num_errors(old(ctx)@),
            num_warnings(ctx@) >= num_warnings(old(ctx)@),
            fail ==> num_errors(ctx@) > num_errors(old(ctx)@),
            !fail ==> num_errors(ctx@) == num_errors(old(ctx)@),
        decreases rest@.len(),
    {
        let s = rest.pop().unwrap();
        match <String as Mapper>::map(s, ctx) {
            Ok(v) => {
                out.push(v);
            },
            Err(()) => {
                fail = true;
            },
        }
    }
    (out, fail)
}

fn map_many_bool(g: Vec<Statement>, ctx: &mut ErrorContext) -> (r: (Vec<bool>, bool))
    ensures
        num_errors(final(ctx)@) >= num_errors(old(ctx)@),
        num_warnings(final(ctx)@) >= num_warnings(old(ctx)@),
        r.1 ==> num_errors(final(ctx)@) > num_errors(old(ctx)@),
        !r.1 ==> num_errors(final(ctx)@) == num_errors(old(ctx)@),
{
    let mut rest = reverse_vec(g);
    let mut out: Vec<bool> = Vec::new();
    let mut fail = false;
    while rest.len() > 0
        invariant
            num_errors(ctx@) >= num_errors(old(ctx)@),
            num_warnings(ctx@) >= num_warnings(old(ctx)@),
            fail ==> num_errors(ctx@) > num_errors(old(ctx)@),
            !fail ==> num_errors(ctx@) == num_errors(old(ctx)@),
        decreases rest@.len(),
    {
        let s = rest.pop().unwrap();
        match <bool as Mapper>::map(s, ctx) {
            Ok(v) => {
                out.push(v);
            },
            Err(()) => {
                fail = true;
            },
        }
    }
    (out, fail)
}

// ---------------------------------------------------------------------------
// Cardinality helpers for node-valued attributes
// ---------------------------------------------------------------------------

fn map_many_action_or_rpc(g: Vec<Statement>, parent: Ghost<Statement>, ctx: &mut ErrorContext) -> (r: (
    Vec<ActionOrRpc>,
    bool,
))
    requires
        forall|i: int| 0 <= i < g@.len() ==> decreases_to!(parent@ => #[trigger] g@[i]),
    ensures
        num_errors(final(ctx)@) >= num_errors(old(ctx)@),
        num_warnings(final(ctx)@) >= num_warnings(old(ctx)@),
        r.1 ==> num_errors(final(ctx)@) > num_errors(old(ctx)@),
        !r.1 ==> num_errors(final(ctx)@) == num_errors(old(ctx)@),
    decreases parent@, 0int,
{
    let ghost g0 = g@;
    let mut rest = reverse_vec(g);
    proof {
        assert forall|i: int| 0 <= i < rest@.len() implies decreases_to!(
            parent@ => #[trigger] rest@[i]) by {
            assert(rest@[i] == g0[g0.len() - 1 - i]);
        }
    }
    let mut out: Vec<ActionOrRpc> = Vec::new();
    let mut fail = false;
    while rest.len() > 0
        invariant
            forall|i: int| 0 <= i < rest@.len() ==> decreases_to!(parent@ => #[trigger] rest@[i]),
            num_errors(ctx@) >= num_errors(old(ctx)@),
            num_warnings(ctx@) >= num_warnings(old(ctx)@),
            fail ==> num_errors(ctx@) > num_errors(old(ctx)@),
            !fail ==> num_errors(ctx@) == num_errors(old(ctx)@),
        decreases rest@.len(),
    {
        let s = rest.pop().unwrap();
        match ActionOrRpc::map(s, ctx) {
            Ok(v) => {
                out.push(v);
            },
            Err(()) => {
                fail = true;
            },
        }
    }
    (out, fail)
}

fn map_many_any_data_or_xml(g: Vec<Statement>, parent: Ghost<Statement>, ctx: &mut ErrorContext) -> (r: (
    Vec<AnyDataOrXml>,
    bool,
))
    requires
        forall|i: int| 0 <= i < g@.len() ==> decreases_to!(parent@ => #[trigger] g@[i]),
    ensures
        num_errors(final(ctx)@) >= num_errors(old(ctx)@),
        num_warnings(final(ctx)@) >= num_warnings(old(ctx)@),
        r.1 ==> num_errors(final(ctx)@) > num_errors(old(ctx)@),
        !r.1 ==> num_errors(final(ctx)@) == num_errors(old(ctx)@),
    decreases parent@, 0int,
{
    let ghost g0 = g@;
    let mut rest = reverse_vec(g);
    proof {
        assert forall|i: int| 0 <= i < rest@.len() implies decreases_to!(
            parent@ => #[trigger] rest@[i]) by {
            assert(rest@[i] == g0[g0.len() - 1 - i]);
        }
    }
    let mut out: Vec<AnyDataOrXml> = Vec::new();
    let mut fail = false;
    while rest.len() > 0
        invariant
            forall|i: int| 0 <= i < rest@.len() ==> decreases_to!(parent@ => #[trigger] rest@[i]),
            num_errors(ctx@) >= num_errors(old(ctx)@),
            num_warnings(ctx@) >= num_warnings(old(ctx)@),
            fail ==> num_errors(ctx@) > num_errors(old(ctx)@),
            !fail ==> num_errors(ctx@) == num_errors(old(ctx)@),
        decreases rest@.len(),
    {
        let s = rest.pop().unwrap();
        match AnyDataOrXml::map(s, ctx) {
            Ok(v) => {
                out.push(v);
            },
            Err(()) => {
                fail = true;
            },
        }
    }
    (out, fail)
}

fn map_many_augment(g: Vec<Statement>, parent: Ghost<Statement>, ctx: &mut ErrorContext) -> (r: (
    Vec<Augment>,
    bool,
))
    requires
        forall|i: int| 0 <= i < g@.len() ==> decreases_to!(parent@ => #[trigger] g@[i]),
    ensures
        num_errors(final(ctx)@) >= num_errors(old(ctx)@),
        num_warnings(final(ctx)@) >= num_warnings(old(ctx)@),
        r.1 ==> num_errors(final(ctx)@) > num_errors(old(ctx)@),
        !r.1 ==> num_errors(final(ctx)@) == num_errors(old(ctx)@),
    decreases parent@, 0int,
{
    let ghost g0 = g@;
    let mut rest = reverse_vec(g);
    proof {
        assert forall|i: int| 0 <= i < rest@.len() implies decreases_to!(
            parent@ => #[trigger] rest@[i]) by {
            assert(rest@[i] == g0[g0.len() - 1 - i]);
        }
    }
    let mut out: Vec<Augment> = Vec::new();
    let mut fail = false;
    while rest.len() > 0
        invariant
            forall|i: int| 0 <= i < rest@.len() ==> decreases_to!(parent@ => #[trigger] rest@[i]),
            num_errors(ctx@) >= num_errors(old(ctx)@),
            num_warnings(ctx@) >= num_warnings(old(ctx)@),
            fail ==> num_errors(ctx@) > num_errors(old(ctx)@),
            !fail ==> num_errors(ctx@) == num_errors(old(ctx)@),
        decreases rest@.len(),
    {
        let s = rest.pop().unwrap();
        match Augment::map(s, ctx) {
            Ok(v) => {
                out.push(v);
            },
            Err(()) => {
                fail = true;
            },
        }
    }
    (out, fail)
}

fn map_single_belongs_to(g: Vec<Statement>, parent: Ghost<Statement>, ctx: &mut ErrorContext) -> (r: (
    Option<BelongsTo>,
    bool,
))
    requires
        forall|i: int| 0 <= i < g@.len() ==> decreases_to!(parent@ => #[trigger] g@[i]),
    ensures
        num_errors(final(ctx)@) >= num_errors(old(ctx)@),
        num_warnings(final(ctx)@) >= num_warnings(old(ctx)@),
        r.1 ==> num_errors(final(ctx)@) > num_errors(old(ctx)@),
        !r.1 ==> num_errors(final(ctx)@) == num_errors(old(ctx)@),
        g@.len() > 0 && !r.1 ==> r.0 is Some,
    decreases parent@, 0int,
{
    let mut g = g;
    if g.len() == 0 {
        (None, false)
    } else {
        let s = g.remove(0);
        match BelongsTo::map(s, ctx) {
            Ok(v) => (Some(v), false),
            Err(()) => (None, true),
        }
    }
}

fn map_many_bit(g: Vec<Statement>, parent: Ghost<Statement>, ctx: &mut ErrorContext) -> (r: (
    Vec<Bit>,
    bool,
))
    requires
        forall|i: int| 0 <= i < g@.len() ==> decreases_to!(parent@ => #[trigger] g@[i]),
    ensures
        num_errors(final(ctx)@) >= num_errors(old(ctx)@),
        num_warnings(final(ctx)@) >= num_warnings(old(ctx)@),
        r.1 ==> num_errors(final(ctx)@) > num_errors(old(ctx)@),
        !r.1 ==> num_errors(final(ctx)@) == num_errors(old(ctx)@),
    decreases parent@, 0int,
{
    let ghost g0 = g@;
    let mut rest = reverse_vec(g);
    proof {
        assert forall|i: int| 0 <= i < rest@.len() implies decreases_to!(
            parent@ => #[trigger] rest@[i]) by {
            assert(rest@[i] == g0[g0.len() - 1 - i]);
        }
    }
    let mut out: Vec<Bit> = Vec::new();
    let mut fail = false;
    while rest.len() > 0
        invariant
            forall|i: int| 0 <= i < rest@.len() ==> decreases_to!(parent@ => #[trigger] rest@[i]),
            num_errors(ctx@) >= num_errors(old(ctx)@),
            num_warnings(ctx@) >= num_warnings(old(ctx)@),
            fail ==> num_errors(ctx@) > num_errors(old(ctx)@),
            !fail ==> num_errors(ctx@) == num_errors(old(ctx)@),
        decreases rest@.len(),
    {
        let s = rest.pop().unwrap();
        match Bit::map(s, ctx) {
            Ok(v) => {
                out.push(v);
            },
            Err(()) => {
                fail = true;
            },
        }
    }
    (out, fail)
}

fn map_many_case(g: Vec<Statement>, parent: Ghost<Statement>, ctx: &mut ErrorContext) -> (r: (
    Vec<Case>,
    bool,
))
    requires
        forall|i: int| 0 <= i < g@.len() ==> decreases_to!(parent@ => #[trigger] g@[i]),
    ensures
        num_errors(final(ctx)@) >= num_errors(old(ctx)@),
        num_warnings(final(ctx)@) >= num_warnings(old(ctx)@),
        r.1 ==> num_errors(final(ctx)@) > num_errors(old(ctx)@),
        !r.1 ==> num_errors(final(ctx)@) == num_errors(old(ctx)@),
    decreases parent@, 0int,
{
    let ghost g0 = g@;
    let mut rest = reverse_vec(g);
    proof {
        assert forall|i: int| 0 <= i < rest@.len() implies decreases_to!(
            parent@ => #[trigger] rest@[i]) by {
            assert(rest@[i] == g0[g0.len() - 1 - i]);
        }
    }
    let mut out: Vec<Case> = Vec::new();
    let mut fail = false;
    while rest.len() > 0
        invariant
            forall|i: int| 0 <= i < rest@.len() ==> decreases_to!(parent@ => #[trigger] rest@[i]),
            num_errors(ctx@) >= num_errors(old(ctx)@),
            num_warnings(ctx@) >= num_warnings(old(ctx)@),
            fail ==> num_errors(ctx@) > num_errors(old(ctx)@),
            !fail ==> num_errors(ctx@) == num_errors(old(ctx)@),
        decreases rest@.len(),
    {
        let s = rest.pop().unwrap();
        match Case::map(s, ctx) {
            Ok(v) => {
                out.push(v);
            },
            Err(()) => {
                fail = true;
            },
        }
    }
    (out, fail)
}

fn map_many_choice(g: Vec<Statement>, parent: Ghost<Statement>, ctx: &mut ErrorContext) -> (r: (
    Vec<Choice>,
    bool,
))
    requires
        forall|i: int| 0 <= i < g@.len() ==> decreases_to!(parent@ => #[trigger] g@[i]),
    ensures
        num_errors(final(ctx)@) >= num_errors(old(ctx)@),
        num_warnings(final(ctx)@) >= num_warnings(old(ctx)@),
        r.1 ==> num_errors(final(ctx)@) > num_errors(old(ctx)@),
        !r.1 ==> num_errors(final(ctx)@) == num_errors(old(ctx)@),
    decreases parent@, 0int,
{
    let ghost g0 = g@;
    let mut rest = reverse_vec(g);
    proof {
        assert forall|i: int| 0 <= i < rest@.len() implies decreases_to!(
            parent@ => #[trigger] rest@[i]) by {
            assert(rest@[i] == g0[g0.len() - 1 - i]);
        }
    }
    let mut out: Vec<Choice> = Vec::new();
    let mut fail = false;
    while rest.len() > 0
        invariant
            forall|i: int| 0 <= i < rest@.len() ==> decreases_to!(parent@ => #[trigger] rest@[i]),
            num_errors(ctx@) >= num_errors(old(ctx)@),
            num_warnings(ctx@) >= num_warnings(old(ctx)@),
            fail ==> num_errors(ctx@) > num_errors(old(ctx)@),
            !fail ==> num_errors(ctx@) == num_errors(old(ctx)@),
        decreases rest@.len(),
    {
        let s = rest.pop().unwrap();
        match Choice::map(s, ctx) {
            Ok(v) => {
                out.push(v);
            },
            Err(()) => {
                fail = true;
            },
        }
    }
    (out, fail)
}

fn map_many_container(g: Vec<Statement>, parent: Ghost<Statement>, ctx: &mut ErrorContext) -> (r: (
    Vec<Container>,
    bool,
))
    requires
        forall|i: int| 0 <= i < g@.len() ==> decreases_to!(parent@ => #[trigger] g@[i]),
    ensures
        num_errors(final(ctx)@) >= num_errors(old(ctx)@),
        num_warnings(final(ctx)@) >= num_warnings(old(ctx)@),
        r.1 ==> num_errors(final(ctx)@) > num_errors(old(ctx)@),
        !r.1 ==> num_errors(final(ctx)@) == num_errors(old(ctx)@),
    decreases parent@, 0int,
{
    let ghost g0 = g@;
    let mut rest = reverse_vec(g);
    proof {
        assert forall|i: int| 0 <= i < rest@.len() implies decreases_to!(
            parent@ => #[trigger] rest@[i]) by {
            assert(rest@[i] == g0[g0.len() - 1 - i]);
        }
    }
    let mut out: Vec<Container> = Vec::new();
    let mut fail = false;
    while rest.len() > 0
        invariant
            forall|i: int| 0 <= i < rest@.len() ==> decreases_to!(parent@ => #[trigger] rest@[i]),
            num_errors(ctx@) >= num_errors(old(ctx)@),
            num_warnings(ctx@) >= num_warnings(old(ctx)@),
            fail ==> num_errors(ctx@) > num_errors(old(ctx)@),
            !fail ==> num_errors(ctx@) == num_errors(old(ctx)@),
        decreases rest@.len(),
    {
        let s = rest.pop().unwrap();
        match Container::map(s, ctx) {
            Ok(v) => {
                out.push(v);
            },
            Err(()) => {
                fail = true;
            },
        }
    }
    (out, fail)
}

fn map_many_deviate(g: Vec<Statement>, parent: Ghost<Statement>, ctx: &mut ErrorContext) -> (r: (
    Vec<Deviate>,
    bool,
))
    requires
        forall|i: int| 0 <= i < g@.len() ==> decreases_to!(parent@ => #[trigger] g@[i]),
    ensures
        num_errors(final(ctx)@) >= num_errors(old(ctx)@),
        num_warnings(final(ctx)@) >= num_warnings(old(ctx)@),
        r.1 ==> num_errors(final(ctx)@) > num_errors(old(ctx)@),
        !r.1 ==> num_errors(final(ctx)@) == num_errors(old(ctx)@),
    decreases parent@, 0int,
{
    let ghost g0 = g@;
    let mut rest = reverse_vec(g);
    proof {
        assert forall|i: int| 0 <= i < rest@.len() implies decreases_to!(
            parent@ => #[trigger] rest@[i]) by {
            assert(rest@[i] == g0[g0.len() - 1 - i]);
        }
    }
    let mut out: Vec<Deviate> = Vec::new();
    let mut fail = false;
    while rest.len() > 0
        invariant
            forall|i: int| 0 <= i < rest@.len() ==> decreases_to!(parent@ => #[trigger] rest@[i]),
            num_errors(ctx@) >= num_errors(old(ctx)@),
            num_warnings(ctx@) >= num_warnings(old(ctx)@),
            fail ==> num_errors(ctx@) > num_errors(old(ctx)@),
            !fail ==> num_errors(ctx@) == num_errors(old(ctx)@),
        decreases rest@.len(),
    {
        let s = rest.pop().unwrap();
        match Deviate::map(s, ctx) {
            Ok(v) => {
                out.push(v);
            },
            Err(()) => {
                fail = true;
            },
        }
    }
    (out, fail)
}

fn map_many_deviation(g: Vec<Statement>, parent: Ghost<Statement>, ctx: &mut ErrorContext) -> (r: (
    Vec<Deviation>,
    bool,
))
    requires
        forall|i: int| 0 <= i < g@.len() ==> decreases_to!(parent@ => #[trigger] g@[i]),
    ensures
        num_errors(final(ctx)@) >= num_errors(old(ctx)@),
        num_warnings(final(ctx)@) >= num_warnings(old(ctx)@),
        r.1 ==> num_errors(final(ctx)@) > num_errors(old(ctx)@),
        !r.1 ==> num_errors(final(ctx)@) == num_errors(old(ctx)@),
    decreases parent@, 0int,
{
    let ghost g0 = g@;
    let mut rest = reverse_vec(g);
    proof {
        assert forall|i: int| 0 <= i < rest@.len() implies decreases_to!(
            parent@ => #[trigger] rest@[i]) by {
            assert(rest@[i] == g0[g0.len() - 1 - i]);
        }
    }
    let mut out: Vec<Deviation> = Vec::new();
    let mut fail = false;
    while rest.len() > 0
        invariant
            forall|i: int| 0 <= i < rest@.len() ==> decreases_to!(parent@ => #[trigger] rest@[i]),
            num_errors(ctx@) >= num_errors(old(ctx)@),
            num_warnings(ctx@) >= num_warnings(old(ctx)@),
            fail ==> num_errors(ctx@) > num_errors(old(ctx)@),
            !fail ==> num_errors(ctx@) == num_errors(old(ctx)@),
        decreases rest@.len(),
    {
        let s = rest.pop().unwrap();
        match Deviation::map(s, ctx) {
            Ok(v) => {
                out.push(v);
            },
            Err(()) => {
                fail = true;
            },
        }
    }
    (out, fail)
}

fn map_many_enum(g: Vec<Statement>, parent: Ghost<Statement>, ctx: &mut ErrorContext) -> (r: (
    Vec<Enum>,
    bool,
))
    requires
        forall|i: int| 0 <= i < g@.len() ==> decreases_to!(parent@ => #[trigger] g@[i]),
    ensures
        num_errors(final(ctx)@) >= num_errors(old(ctx)@),
        num_warnings(final(ctx)@) >= num_warnings(old(ctx)@),
        r.1 ==> num_errors(final(ctx)@) > num_errors(old(ctx)@),
        !r.1 ==> num_errors(final(ctx)@) == num_errors(old(ctx)@),
    decreases parent@, 0int,
{
    let ghost g0 = g@;
    let mut rest = reverse_vec(g);
    proof {
        assert forall|i: int| 0 <= i < rest@.len() implies decreases_to!(
            parent@ => #[trigger] rest@[i]) by {
            assert(rest@[i] == g0[g0.len() - 1 - i]);
        }
    }
    let mut out: Vec<Enum> = Vec::new();
    let mut fail = false;
    while rest.len() > 0
        invariant
            forall|i: int| 0 <= i < rest@.len() ==> decreases_to!(parent@ => #[trigger] rest@[i]),
            num_errors(ctx@) >= num_errors(old(ctx)@),
            num_warnings(ctx@) >= num_warnings(old(ctx)@),
            fail ==> num_errors(ctx@) > num_errors(old(ctx)@),
            !fail ==> num_errors(ctx@) == num_errors(old(ctx)@),
        decreases rest@.len(),
    {
        let s = rest.pop().unwrap();
        match Enum::map(s, ctx) {
            Ok(v) => {
                out.push(v);
            },
            Err(()) => {
                fail = true;
            },
        }
    }
    (out, fail)
}

fn map_many_grouping(g: Vec<Statement>, parent: Ghost<Statement>, ctx: &mut ErrorContext) -> (r: (
    Vec<Grouping>,
    bool,
))
    requires
        forall|i: int| 0 <= i < g@.len() ==> decreases_to!(parent@ => #[trigger] g@[i]),
    ensures
        num_errors(final(ctx)@) >= num_errors(old(ctx)@),
        num_warnings(final(ctx)@) >= num_warnings(old(ctx)@),
        r.1 ==> num_errors(final(ctx)@) > num_errors(old(ctx)@),
        !r.1 ==> num_errors(final(ctx)@) == num_errors(old(ctx)@),
    decreases parent@, 0int,
{
    let ghost g0 = g@;
    let mut rest = reverse_vec(g);
    proof {
        assert forall|i: int| 0 <= i < rest@.len() implies decreases_to!(
            parent@ => #[trigger] rest@[i]) by {
            assert(rest@[i] == g0[g0.len() - 1 - i]);
        }
    }
    let mut out: Vec<Grouping> = Vec::new();
    let mut fail = false;
    while rest.len() > 0
        invariant
            forall|i: int| 0 <= i < rest@.len() ==> decreases_to!(parent@ => #[trigger] rest@[i]),
            num_errors(ctx@) >= num_errors(old(ctx)@),
            num_warnings(ctx@) >= num_warnings(old(ctx)@),
            fail ==> num_errors(ctx@) > num_errors(old(ctx)@),
            !fail ==> num_errors(ctx@) == num_errors(old(ctx)@),
        decreases rest@.len(),
    {
        let s = rest.pop().unwrap();
        match Grouping::map(s, ctx) {
            Ok(v) => {
                out.push(v);
            },
            Err(()) => {
                fail = true;
            },
        }
    }
    (out, fail)
}

fn map_many_identity(g: Vec<Statement>, parent: Ghost<Statement>, ctx: &mut ErrorContext) -> (r: (
    Vec<Identity>,
    bool,
))
    requires
        forall|i: int| 0 <= i < g@.len() ==> decreases_to!(parent@ => #[trigger] g@[i]),
    ensures
        num_errors(final(ctx)@) >= num_errors(old(ctx)@),
        num_warnings(final(ctx)@) >= num_warnings(old(ctx)@),
        r.1 ==> num_errors(final(ctx)@) > num_errors(old(ctx)@),
        !r.1 ==> num_errors(final(ctx)@) == num_errors(old(ctx)@),
    decreases parent@, 0int,
{
    let ghost g0 = g@;
    let mut rest = reverse_vec(g);
    proof {
        assert forall|i: int| 0 <= i < rest@.len() implies decreases_to!(
            parent@ => #[trigger] rest@[i]) by {
            assert(rest@[i] == g0[g0.len() - 1 - i]);
        }
    }
    let mut out: Vec<Identity> = Vec::new();
    let mut fail = false;
    while rest.len() > 0
        invariant
            forall|i: int| 0 <= i < rest@.len() ==> decreases_to!(parent@ => #[trigger] rest@[i]),
            num_errors(ctx@) >= num_errors(old(ctx)@),
            num_warnings(ctx@) >= num_warnings(old(ctx)@),
            fail ==> num_errors(ctx@) > num_errors(old(ctx)@),
            !fail ==> num_errors(ctx@) == num_errors(old(ctx)@),
        decreases rest@.len(),
    {
        let s = rest.pop().unwrap();
        match Identity::map(s, ctx) {
            Ok(v) => {
                out.push(v);
            },
            Err(()) => {
                fail = true;
            },
        }
    }
    (out, fail)
}

fn map_many_import(g: Vec<Statement>, parent: Ghost<Statement>, ctx: &mut ErrorContext) -> (r: (
    Vec<Import>,
    bool,
))
    requires
        forall|i: int| 0 <= i < g@.len() ==> decreases_to!(parent@ => #[trigger] g@[i]),
    ensures
        num_errors(final(ctx)@) >= num_errors(old(ctx)@),
        num_warnings(final(ctx)@) >= num_warnings(old(ctx)@),
        r.1 ==> num_errors(final(ctx)@) > num_errors(old(ctx)@),
        !r.1 ==> num_errors(final(ctx)@) == num_errors(old(ctx)@),
    decreases parent@, 0int,
{
    let ghost g0 = g@;
    let mut rest = reverse_vec(g);
    proof {
        assert forall|i: int| 0 <= i < rest@.len() implies decreases_to!(
            parent@ => #[trigger] rest@[i]) by {
            assert(rest@[i] == g0[g0.len() - 1 - i]);
        }
    }
    let mut out: Vec<Import> = Vec::new();
    let mut fail = false;
    while rest.len() > 0
        invariant
            forall|i: int| 0 <= i < rest@.len() ==> decreases_to!(parent@ => #[trigger] rest@[i]),
            num_errors(ctx@) >= num_errors(old(ctx)@),
            num_warnings(ctx@) >= num_warnings(old(ctx)@),
            fail ==> num_errors(ctx@) > num_errors(old(ctx)@),
            !fail ==> num_errors(ctx@) == num_errors(old(ctx)@),
        decreases rest@.len(),
    {
        let s = rest.pop().unwrap();
        match Import::map(s, ctx) {
            Ok(v) => {
                out.push(v);
            },
            Err(()) => {
                fail = true;
            },
        }
    }
    (out, fail)
}

fn map_single_in_output(g: Vec<Statement>, parent: Ghost<Statement>, ctx: &mut ErrorContext) -> (r: (
    Option<InOutput>,
    bool,
))
    requires
        forall|i: int| 0 <= i < g@.len() ==> decreases_to!(parent@ => #[trigger] g@[i]),
    ensures
        num_errors(final(ctx)@) >= num_errors(old(ctx)@),
        num_warnings(final(ctx)@) >= num_warnings(old(ctx)@),
        r.1 ==> num_errors(final(ctx)@) > num_errors(old(ctx)@),
        !r.1 ==> num_errors(final(ctx)@) == num_errors(old(ctx)@),
        g@.len() > 0 && !r.1 ==> r.0 is Some,
    decreases parent@, 0int,
{
    let mut g = g;
    if g.len() == 0 {
        (None, false)
    } else {
        let s = g.remove(0);
        match InOutput::map(s, ctx) {
            Ok(v) => (Some(v), false),
            Err(()) => (None, true),
        }
    }
}

fn map_many_include(g: Vec<Statement>, parent: Ghost<Statement>, ctx: &mut ErrorContext) -> (r: (
    Vec<Include>,
    bool,
))
    requires
        forall|i: int| 0 <= i < g@.len() ==> decreases_to!(parent@ => #[trigger] g@[i]),
    ensures
        num_errors(final(ctx)@) >= num_errors(old(ctx)@),
        num_warnings(final(ctx)@) >= num_warnings(old(ctx)@),
        r.1 ==> num_errors(final(ctx)@) > num_errors(old(ctx)@),
        !r.1 ==> num_errors(final(ctx)@) == num_errors(old(ctx)@),
    decreases parent@, 0int,
{
    let ghost g0 = g@;
    let mut rest = reverse_vec(g);
    proof {
        assert forall|i: int| 0 <= i < rest@.len() implies decreases_to!(
            parent@ => #[trigger] rest@[i]) by {
            assert(rest@[i] == g0[g0.len() - 1 - i]);
        }
    }
    let mut out: Vec<Include> = Vec::new();
    let mut fail = false;
    while rest.len() > 0
        invariant
            forall|i: int| 0 <= i < rest@.len() ==> decreases_to!(parent@ => #[trigger] rest@[i]),
            num_errors(ctx@) >= num_errors(old(ctx)@),
            num_warnings(ctx@) >= num_warnings(old(ctx)@),
            fail ==> num_errors(ctx@) > num_errors(old(ctx)@),
            !fail ==> num_errors(ctx@) == num_errors(old(ctx)@),
        decreases rest@.len(),
    {
        let s = rest.pop().unwrap();
        match Include::map(s, ctx) {
            Ok(v) => {
                out.push(v);
            },
            Err(()) => {
                fail = true;
            },
        }
    }
    (out, fail)
}

fn map_many_leaf(g: Vec<Statement>, parent: Ghost<Statement>, ctx: &mut ErrorContext) -> (r: (
    Vec<Leaf>,
    bool,
))
    requires
        forall|i: int| 0 <= i < g@.len() ==> decreases_to!(parent@ => #[trigger] g@[i]),
    ensures
        num_errors(final(ctx)@) >= num_errors(old(ctx)@),
        num_warnings(final(ctx)@) >= num_warnings(old(ctx)@),
        r.1 ==> num_errors(final(ctx)@) > num_errors(old(ctx)@),
        !r.1 ==> num_errors(final(ctx)@) == num_errors(old(ctx)@),
    decreases parent@, 0int,
{
    let ghost g0 = g@;
    let mut rest = reverse_vec(g);
    proof {
        assert forall|i: int| 0 <= i < rest@.len() implies decreases_to!(
            parent@ => #[trigger] rest@[i]) by {
            assert(rest@[i] == g0[g0.len() - 1 - i]);
        }
    }
    let mut out: Vec<Leaf> = Vec::new();
    let mut fail = false;
    while rest.len() > 0
        invariant
            forall|i: int| 0 <= i < rest@.len() ==> decreases_to!(parent@ => #[trigger] rest@[i]),
            num_errors(ctx@) >= num_errors(old(ctx)@),
            num_warnings(ctx@) >= num_warnings(old(ctx)@),
            fail ==> num_errors(ctx@) > num_errors(old(ctx)@),
            !fail ==> num_errors(ctx@) == num_errors(old(ctx)@),
        decreases rest@.len(),
    {
        let s = rest.pop().unwrap();
        match Leaf::map(s, ctx) {
            Ok(v) => {
                out.push(v);
            },
            Err(()) => {
                fail = true;
            },
        }
    }
    (out, fail)
}

fn map_many_leaf_list(g: Vec<Statement>, parent: Ghost<Statement>, ctx: &mut ErrorContext) -> (r: (
    Vec<LeafList>,
    bool,
))
    requires
        forall|i: int| 0 <= i < g@.len() ==> decreases_to!(parent@ => #[trigger] g@[i]),
    ensures
        num_errors(final(ctx)@) >= num_errors(old(ctx)@),
        num_warnings(final(ctx)@) >= num_warnings(old(ctx)@),
        r.1 ==> num_errors(final(ctx)@) > num_errors(old(ctx)@),
        !r.1 ==> num_errors(final(ctx)@) == num_errors(old(ctx)@),
    decreases parent@, 0int,
{
    let ghost g0 = g@;
    let mut rest = reverse_vec(g);
    proof {
        assert forall|i: int| 0 <= i < rest@.len() implies decreases_to!(
            parent@ => #[trigger] rest@[i]) by {
            assert(rest@[i] == g0[g0.len() - 1 - i]);
        }
    }
    let mut out: Vec<LeafList> = Vec::new();
    let mut fail = false;
    while rest.len() > 0
        invariant
            forall|i: int| 0 <= i < rest@.len() ==> decreases_to!(parent@ => #[trigger] rest@[i]),
            num_errors(ctx@) >= num_errors(old(ctx)@),
            num_warnings(ctx@) >= num_warnings(old(ctx)@),
            fail ==> num_errors(ctx@) > num_errors(old(ctx)@),
            !fail ==> num_errors(ctx@) == num_errors(old(ctx)@),
        decreases rest@.len(),
    {
        let s = rest.pop().unwrap();
        match LeafList::map(s, ctx) {
            Ok(v) => {
                out.push(v);
            },
            Err(()) => {
                fail = true;
            },
        }
    }
    (out, fail)
}

fn map_single_length(g: Vec<Statement>, parent: Ghost<Statement>, ctx: &mut ErrorContext) -> (r: (
    Option<Length>,
    bool,
))
    requires
        forall|i: int| 0 <= i < g@.len() ==> decreases_to!(parent@ => #[trigger] g@[i]),
    ensures
        num_errors(final(ctx)@) >= num_errors(old(ctx)@),
        num_warnings(final(ctx)@) >= num_warnings(old(ctx)@),
        r.1 ==> num_errors(final(ctx)@) > num_errors(old(ctx)@),
        !r.1 ==> num_errors(final(ctx)@) == num_errors(old(ctx)@),
        g@.len() > 0 && !r.1 ==> r.0 is Some,
    decreases parent@, 0int,
{
    let mut g = g;
    if g.len() == 0 {
        (None, false)
    } else {
        let s = g.remove(0);
        match Length::map(s, ctx) {
            Ok(v) => (Some(v), false),
            Err(()) => (None, true),
        }
    }
}

fn map_many_list(g: Vec<Statement>, parent: Ghost<Statement>, ctx: &mut ErrorContext) -> (r: (
    Vec<List>,
    bool,
))
    requires
        forall|i: int| 0 <= i < g@.len() ==> decreases_to!(parent@ => #[trigger] g@[i]),
    ensures
        num_errors(final(ctx)@) >= num_errors(old(ctx)@),
        num_warnings(final(ctx)@) >= num_warnings(old(ctx)@),
        r.1 ==> num_errors(final(ctx)@) > num_errors(old(ctx)@),
        !r.1 ==> num_errors(final(ctx)@) == num_errors(old(ctx)@),
    decreases parent@, 0int,
{
    let ghost g0 = g@;
    let mut rest = reverse_vec(g);
    proof {
        assert forall|i: int| 0 <= i < rest@.len() implies decreases_to!(
            parent@ => #[trigger] rest@[i]) by {
            assert(rest@[i] == g0[g0.len() - 1 - i]);
        }
    }
    let mut out: Vec<List> = Vec::new();
    let mut fail = false;
    while rest.len() > 0
        invariant
            forall|i: int| 0 <= i < rest@.len() ==> decreases_to!(parent@ => #[trigger] rest@[i]),
            num_errors(ctx@) >= num_errors(old(ctx)@),
            num_warnings(ctx@) >= num_warnings(old(ctx)@),
            fail ==> num_errors(ctx@) > num_errors(old(ctx)@),
            !fail ==> num_errors(ctx@) == num_errors(old(ctx)@),
        decreases rest@.len(),
    {
        let s = rest.pop().unwrap();
        match List::map(s, ctx) {
            Ok(v) => {
                out.push(v);
            },
            Err(()) => {
                fail = true;
            },
        }
    }
    (out, fail)
}

fn map_many_notification(g: Vec<Statement>, parent: Ghost<Statement>, ctx: &mut ErrorContext) -> (r: (
    Vec<Notification>,
    bool,
))
    requires
        forall|i: int| 0 <= i < g@.len() ==> decreases_to!(parent@ => #[trigger] g@[i]),
    ensures
        num_errors(final(ctx)@) >= num_errors(old(ctx)@),
        num_warnings(final(ctx)@) >= num_warnings(old(ctx)@),
        r.1 ==> num_errors(final(ctx)@) > num_errors(old(ctx)@),
        !r.1 ==> num_errors(final(ctx)@) == num_errors(old(ctx)@),
    decreases parent@, 0int,
{
    let ghost g0 = g@;
    let mut rest = reverse_vec(g);
    proof {
        assert forall|i: int| 0 <= i < rest@.len() implies decreases_to!(
            parent@ => #[trigger] rest@[i]) by {
            assert(rest@[i] == g0[g0.len() - 1 - i]);
        }
    }
    let mut out: Vec<Notification> = Vec::new();
    let mut fail = false;
    while rest.len() > 0
        invariant
            forall|i: int| 0 <= i < rest@.len() ==> decreases_to!(parent@ => #[trigger] rest@[i]),
            num_errors(ctx@) >= num_errors(old(ctx)@),
            num_warnings(ctx@) >= num_warnings(old(ctx)@),
            fail ==> num_errors(ctx@) > num_errors(old(ctx)@),
            !fail ==> num_errors(ctx@) == num_errors(old(ctx)@),
        decreases rest@.len(),
    {
        let s = rest.pop().unwrap();
        match Notification::map(s, ctx) {
            Ok(v) => {
                out.push(v);
            },
            Err(()) => {
                fail = true;
            },
        }
    }
    (out, fail)
}

fn map_many_pattern(g: Vec<Statement>, parent: Ghost<Statement>, ctx: &mut ErrorContext) -> (r: (
    Vec<Pattern>,
    bool,
))
    requires
        forall|i: int| 0 <= i < g@.len() ==> decreases_to!(parent@ => #[trigger] g@[i]),
    ensures
        num_errors(final(ctx)@) >= num_errors(old(ctx)@),
        num_warnings(final(ctx)@) >= num_warnings(old(ctx)@),
        r.1 ==> num_errors(final(ctx)@) > num_errors(old(ctx)@),
        !r.1 ==> num_errors(final(ctx)@) == num_errors(old(ctx)@),
    decreases parent@, 0int,
{
    let ghost g0 = g@;
    let mut rest = reverse_vec(g);
    proof {
        assert forall|i: int| 0 <= i < rest@.len() implies decreases_to!(
            parent@ => #[trigger] rest@[i]) by {
            assert(rest@[i] == g0[g0.len() - 1 - i]);
        }
    }
    let mut out: Vec<Pattern> = Vec::new();
    let mut fail = false;
    while rest.len() > 0
        invariant
            forall|i: int| 0 <= i < rest@.len() ==> decreases_to!(parent@ => #[trigger] rest@[i]),
            num_errors(ctx@) >= num_errors(old(ctx)@),
            num_warnings(ctx@) >= num_warnings(old(ctx)@),
            fail ==> num_errors(ctx@) > num_errors(old(ctx)@),
            !fail ==> num_errors(ctx@) == num_errors(old(ctx)@),
        decreases rest@.len(),
    {
        let s = rest.pop().unwrap();
        match Pattern::map(s, ctx) {
            Ok(v) => {
                out.push(v);
            },
            Err(()) => {
                fail = true;
            },
        }
    }
    (out, fail)
}

fn map_single_range(g: Vec<Statement>, parent: Ghost<Statement>, ctx: &mut ErrorContext) -> (r: (
    Option<Range>,
    bool,
))
    requires
        forall|i: int| 0 <= i < g@.len() ==> decreases_to!(parent@ => #[trigger] g@[i]),
    ensures
        num_errors(final(ctx)@) >= num_errors(old(ctx)@),
        num_warnings(final(ctx)@) >= num_warnings(old(ctx)@),
        r.1 ==> num_errors(final(ctx)@) > num_errors(old(ctx)@),
        !r.1 ==> num_errors(final(ctx)@) == num_errors(old(ctx)@),
        g@.len() > 0 && !r.1 ==> r.0 is Some,
    decreases parent@, 0int,
{
    let mut g = g;
    if g.len() == 0 {
        (None, false)
    } else {
        let s = g.remove(0);
        match Range::map(s, ctx) {
            Ok(v) => (Some(v), false),
            Err(()) => (None, true),
        }
    }
}

fn map_many_refine(g: Vec<Statement>, parent: Ghost<Statement>, ctx: &mut ErrorContext) -> (r: (
    Vec<Refine>,
    bool,
))
    requires
        forall|i: int| 0 <= i < g@.len() ==> decreases_to!(parent@ => #[trigger] g@[i]),
    ensures
        num_errors(final(ctx)@) >= num_errors(old(ctx)@),
        num_warnings(final(ctx)@) >= num_warnings(old(ctx)@),
        r.1 ==> num_errors(final(ctx)@) > num_errors(old(ctx)@),
        !r.1 ==> num_errors(final(ctx)@) == num_errors(old(ctx)@),
    decreases parent@, 0int,
{
    let ghost g0 = g@;
    let mut rest = reverse_vec(g);
    proof {
        assert forall|i: int| 0 <= i < rest@.len() implies decreases_to!(
            parent@ => #[trigger] rest@[i]) by {
            assert(rest@[i] == g0[g0.len() - 1 - i]);
        }
    }
    let mut out: Vec<Refine> = Vec::new();
    let mut fail = false;
    while rest.len() > 0
        invariant
            forall|i: int| 0 <= i < rest@.len() ==> decreases_to!(parent@ => #[trigger] rest@[i]),
            num_errors(ctx@) >= num_errors(old(ctx)@),
            num_warnings(ctx@) >= num_warnings(old(ctx)@),
            fail ==> num_errors(ctx@) > num_errors(old(ctx)@),
            !fail ==> num_errors(ctx@) == num_errors(old(ctx)@),
        decreases rest@.len(),
    {
        let s = rest.pop().unwrap();
        match Refine::map(s, ctx) {
            Ok(v) => {
                out.push(v);
            },
            Err(()) => {
                fail = true;
            },
        }
    }
    (out, fail)
}

fn map_single_revision(g: Vec<Statement>, parent: Ghost<Statement>, ctx: &mut ErrorContext) -> (r: (
    Option<Revision>,
    bool,
))
    requires
        forall|i: int| 0 <= i < g@.len() ==> decreases_to!(parent@ => #[trigger] g@[i]),
    ensures
        num_errors(final(ctx)@) >= num_errors(old(ctx)@),
        num_warnings(final(ctx)@) >= num_warnings(old(ctx)@),
        r.1 ==> num_errors(final(ctx)@) > num_errors(old(ctx)@),
        !r.1 ==> num_errors(final(ctx)@) == num_errors(old(ctx)@),
        g@.len() > 0 && !r.1 ==> r.0 is Some,
    decreases parent@, 0int,
{
    let mut g = g;
    if g.len() == 0 {
        (None, false)
    } else {
        let s = g.remove(0);
        match Revision::map(s, ctx) {
            Ok(v) => (Some(v), false),
            Err(()) => (None, true),
        }
    }
}

fn map_many_type(g: Vec<Statement>, parent: Ghost<Statement>, ctx: &mut ErrorContext) -> (r: (
    Vec<Type>,
    bool,
))
    requires
        forall|i: int| 0 <= i < g@.len() ==> decreases_to!(parent@ => #[trigger] g@[i]),
    ensures
        num_errors(final(ctx)@) >= num_errors(old(ctx)@),
        num_warnings(final(ctx)@) >= num_warnings(old(ctx)@),
        r.1 ==> num_errors(final(ctx)@) > num_errors(old(ctx)@),
        !r.1 ==> num_errors(final(ctx)@) == num_errors(old(ctx)@),
    decreases parent@, 0int,
{
    let ghost g0 = g@;
    let mut rest = reverse_vec(g);
    proof {
        assert forall|i: int| 0 <= i < rest@.len() implies decreases_to!(
            parent@ => #[trigger] rest@[i]) by {
            assert(rest@[i] == g0[g0.len() - 1 - i]);
        }
    }
    let mut out: Vec<Type> = Vec::new();
    let mut fail = false;
    while rest.len() > 0
        invariant
            forall|i: int| 0 <= i < rest@.len() ==> decreases_to!(parent@ => #[trigger] rest@[i]),
            num_errors(ctx@) >= num_errors(old(ctx)@),
            num_warnings(ctx@) >= num_warnings(old(ctx)@),
            fail ==> num_errors(ctx@) > num_errors(old(ctx)@),
            !fail ==> num_errors(ctx@) == num_errors(old(ctx)@),
        decreases rest@.len(),
    {
        let s = rest.pop().unwrap();
        match Type::map(s, ctx) {
            Ok(v) => {
                out.push(v);
            },
            Err(()) => {
                fail = true;
            },
        }
    }
    (out, fail)
}

fn map_single_type(g: Vec<Statement>, parent: Ghost<Statement>, ctx: &mut ErrorContext) -> (r: (
    Option<Type>,
    bool,
))
    requires
        forall|i: int| 0 <= i < g@.len() ==> decreases_to!(parent@ => #[trigger] g@[i]),
    ensures
        num_errors(final(ctx)@) >= num_errors(old(ctx)@),
        num_warnings(final(ctx)@) >= num_warnings(old(ctx)@),
        r.1 ==> num_errors(final(ctx)@) > num_errors(old(ctx)@),
        !r.1 ==> num_errors(final(ctx)@) == num_errors(old(ctx)@),
        g@.len() > 0 && !r.1 ==> r.0 is Some,
    decreases parent@, 0int,
{
    let mut g = g;
    if g.len() == 0 {
        (None, false)
    } else {
        let s = g.remove(0);
        match Type::map(s, ctx) {
            Ok(v) => (Some(v), false),
            Err(()) => (None, true),
        }
    }
}

fn map_many_typedef(g: Vec<Statement>, parent: Ghost<Statement>, ctx: &mut ErrorContext) -> (r: (
    Vec<Typedef>,
    bool,
))
    requires
        forall|i: int| 0 <= i < g@.len() ==> decreases_to!(parent@ => #[trigger] g@[i]),
    ensures
        num_errors(final(ctx)@) >= num_errors(old(ctx)@),
        num_warnings(final(ctx)@) >= num_warnings(old(ctx)@),
        r.1 ==> num_errors(final(ctx)@) > num_errors(old(ctx)@),
        !r.1 ==> num_errors(final(ctx)@) == num_errors(old(ctx)@),
    decreases parent@, 0int,
{
    let ghost g0 = g@;
    let mut rest = reverse_vec(g);
    proof {
        assert forall|i: int| 0 <= i < rest@.len() implies decreases_to!(
            parent@ => #[trigger] rest@[i]) by {
            assert(rest@[i] == g0[g0.len() - 1 - i]);
        }
    }
    let mut out: Vec<Typedef> = Vec::new();
    let mut fail = false;
    while rest.len() > 0
        invariant
            forall|i: int| 0 <= i < rest@.len() ==> decreases_to!(parent@ => #[trigger] rest@[i]),
            num_errors(ctx@) >= num_errors(old(ctx)@),
            num_warnings(ctx@) >= num_warnings(old(ctx)@),
            fail ==> num_errors(ctx@) > num_errors(old(ctx)@),
            !fail ==> num_errors(ctx@) == num_errors(old(ctx)@),
        decreases rest@.len(),
    {
        let s = rest.pop().unwrap();
        match Typedef::map(s, ctx) {
            Ok(v) => {
                out.push(v);
            },
            Err(()) => {
                fail = true;
            },
        }
    }
    (out, fail)
}

fn map_many_uses(g: Vec<Statement>, parent: Ghost<Statement>, ctx: &mut ErrorContext) -> (r: (
    Vec<Uses>,
    bool,
))
    requires
        forall|i: int| 0 <= i < g@.len() ==> decreases_to!(parent@ => #[trigger] g@[i]),
    ensures
        num_errors(final(ctx)@) >= num_errors(old(ctx)@),
        num_warnings(final(ctx)@) >= num_warnings(old(ctx)@),
        r.1 ==> num_errors(final(ctx)@) > num_errors(old(ctx)@),
        !r.1 ==> num_errors(final(ctx)@) == num_errors(old(ctx)@),
    decreases parent@, 0int,
{
    let ghost g0 = g@;
    let mut rest = reverse_vec(g);
    proof {
        assert forall|i: int| 0 <= i < rest@.len() implies decreases_to!(
            parent@ => #[trigger] rest@[i]) by {
            assert(rest@[i] == g0[g0.len() - 1 - i]);
        }
    }
    let mut out: Vec<Uses> = Vec::new();
    let mut fail = false;
    while rest.len() > 0
        invariant
            forall|i: int| 0 <= i < rest@.len() ==> decreases_to!(parent@ => #[trigger] rest@[i]),
            num_errors(ctx@) >= num_errors(old(ctx)@),
            num_warnings(ctx@) >= num_warnings(old(ctx)@),
            fail ==> num_errors(ctx@) > num_errors(old(ctx)@),
            !fail ==> num_errors(ctx@) == num_errors(old(ctx)@),
        decreases rest@.len(),
    {
        let s = rest.pop().unwrap();
        match Uses::map(s, ctx) {
            Ok(v) => {
                out.push(v);
            },
            Err(()) => {
                fail = true;
            },
        }
    }
    (out, fail)
}

/// Typed node for the `import` construct.
#[derive(Debug)]
pub struct Import {
    pub module: String,
    pub description: Option<String>,
    pub prefix: String,
    pub reference: Option<String>,
    pub revision_date: Option<String>,
}

impl Import {
    pub fn map(stmt: Statement, ctx: &mut ErrorContext) -> (r: Result<Import, ()>)
        ensures
            num_errors(final(ctx)@) >= num_errors(old(ctx)@),
            num_warnings(final(ctx)@) >= num_warnings(old(ctx)@),
            r is Err ==> num_errors(final(ctx)@) > num_errors(old(ctx)@),
            r is Ok ==> num_errors(final(ctx)@) == num_errors(old(ctx)@),
            r is Ok ==> stmt.keyword@ == "import"@,
            r is Ok ==> (stmt.argument matches Some(a) && (r->Ok_0).module == a),
        decreases stmt, 1int,
    {
        let ghost s0 = stmt;
        if !str_eq(stmt.keyword.as_str(), "import") {
            let msg = String::from_str("Expected \"import\" keyword");
            ctx.add_error(stmt.argument_span, msg);
            return Err(());
        }
        let Statement { keyword_span, keyword: _, argument_span, argument, statements } = stmt;
        let mut failed = false;
        let module: Option<String> = match argument {
            Some(a) => match <String as ArgumentMapper>::map_argument(a, argument_span, ctx) {
                Ok(v) => Some(v),
                Err(()) => {
                    failed = true;
                    None
                },
            },
            None => {
                let msg = String::from_str("Expected module argument");
                ctx.add_error(argument_span, msg);
                failed = true;
                None
            },
        };
        let mut specs: Vec<AttrSpec> = Vec::new();
        push_spec(&mut specs, "description", Card::Opt);
        push_spec(&mut specs, "prefix", Card::One);
        push_spec(&mut specs, "reference", Card::Opt);
        push_spec(&mut specs, "revision-date", Card::Opt);
        let (mut groups, gc_ok) = group_children(statements, &specs, keyword_span, ctx);
        if !gc_ok {
            failed = true;
        }
        let ghost groups0 = groups@;
        proof {
            assert forall|gg: int, ii: int|
                0 <= gg < groups0.len() && 0 <= ii < groups0[gg]@.len() implies decreases_to!(
                s0 => #[trigger] groups0[gg]@[ii]) by {
                let k = choose|k: int|
                    0 <= k < s0.statements@.len() && groups0[gg]@[ii] == s0.statements@[k];
                assert(decreases_to!(s0 => s0.statements));
                assert(decreases_to!(s0.statements => s0.statements@[k]));
            }
        }
        let attr_description = groups.remove(0);
        proof {
            assert(groups@ =~= groups0.skip(1));
            assert(attr_description == groups0[0]);
        }
        let (got_description, bad_description) = map_single_string(attr_description, ctx);
        if bad_description {
            failed = true;
        }
        let attr_prefix = groups.remove(0);
        proof {
            assert(groups@ =~= groups0.skip(2));
            assert(attr_prefix == groups0[1]);
        }
        let (got_prefix, bad_prefix) = map_single_string(attr_prefix, ctx);
        if bad_prefix {
            failed = true;
        }
        let attr_reference = groups.remove(0);
        proof {
            assert(groups@ =~= groups0.skip(3));
            assert(attr_reference == groups0[2]);
        }
        let (got_reference, bad_reference) = map_single_string(attr_reference, ctx);
        if bad_reference {
            failed = true;
        }
        let attr_revision_date = groups.remove(0);
        proof {
            assert(groups@ =~= groups0.skip(4));
            assert(attr_revision_date == groups0[3]);
        }
        let (got_revision_date, bad_revision_date) = map_single_string(attr_revision_date, ctx);
        if bad_revision_date {
            failed = true;
        }
        if failed {
            return Err(());
        }
        Ok(Import {
            module: module.unwrap(),
            description: got_description,
            prefix: got_prefix.unwrap(),
            reference: got_reference,
            revision_date: got_revision_date,
        })
    }
}

/// Typed node for the `include` construct.
#[derive(Debug)]
pub struct Include {
    pub submodule: String,
    pub description: Option<String>,
    pub reference: Option<String>,
    pub revision_date: Option<String>,
}

impl Include {
    pub fn map(stmt: Statement, ctx: &mut ErrorContext) -> (r: Result<Include, ()>)
        ensures
            num_errors(final(ctx)@) >= num_errors(old(ctx)@),
            num_warnings(final(ctx)@) >= num_warnings(old(ctx)@),
            r is Err ==> num_errors(final(ctx)@) > num_errors(old(ctx)@),
            r is Ok ==> num_errors(final(ctx)@) == num_errors(old(ctx)@),
            r is Ok ==> stmt.keyword@ == "include"@,
            r is Ok ==> (stmt.argument matches Some(a) && (r->Ok_0).submodule == a),
        decreases stmt, 1int,
    {
        let ghost s0 = stmt;
        if !str_eq(stmt.keyword.as_str(), "include") {
            let msg = String::from_str("Expected \"include\" keyword");
            ctx.add_error(stmt.argument_span, msg);
            return Err(());
        }
        let Statement { keyword_span, keyword: _, argument_span, argument, statements } = stmt;
        let mut failed = false;
        let submodule: Option<String> = match argument {
            Some(a) => match <String as ArgumentMapper>::map_argument(a, argument_span, ctx) {
                Ok(v) => Some(v),
                Err(()) => {
                    failed = true;
                    None
                },
            },
            None => {
                let msg = String::from_str("Expected submodule argument");
                ctx.add_error(argument_span, msg);
                failed = true;
                None
            },
        };
        let mut specs: Vec<AttrSpec> = Vec::new();
        push_spec(&mut specs, "description", Card::Opt);
        push_spec(&mut specs, "reference", Card::Opt);
        push_spec(&mut specs, "revision-date", Card::Opt);
        let (mut groups, gc_ok) = group_children(statements, &specs, keyword_span, ctx);
        if !gc_ok {
            failed = true;
        }
        let ghost groups0 = groups@;
        proof {
            assert forall|gg: int, ii: int|
                0 <= gg < groups0.len() && 0 <= ii < groups0[gg]@.len() implies decreases_to!(
                s0 => #[trigger] groups0[gg]@[ii]) by {
                let k = choose|k: int|
                    0 <= k < s0.statements@.len() && groups0[gg]@[ii] == s0.statements@[k];
                assert(decreases_to!(s0 => s0.statements));
                assert(decreases_to!(s0.statements => s0.statements@[k]));
            }
        }
        let attr_description = groups.remove(0);
        proof {
            assert(groups@ =~= groups0.skip(1));
            assert(attr_description == groups0[0]);
        }
        let (got_description, bad_description) = map_single_string(attr_description, ctx);
        if bad_description {
            failed = true;
        }
        let attr_reference = groups.remove(0);
        proof {
            assert(groups@ =~= groups0.skip(2));
            assert(attr_reference == groups0[1]);
        }
        let (got_reference, bad_reference) = map_single_string(attr_reference, ctx);
        if bad_reference {
            failed = true;
        }
        let attr_revision_date = groups.remove(0);
        proof {
            assert(groups@ =~= groups0.skip(3));
            assert(attr_revision_date == groups0[2]);
        }
        let (got_revision_date, bad_revision_date) = map_single_string(attr_revision_date, ctx);
        if bad_revision_date {
            failed = true;
        }
        if failed {
            return Err(());
        }
        Ok(Include {
            submodule: submodule.unwrap(),
            description: got_description,
            reference: got_reference,
            revision_date: got_revision_date,
        })
    }
}

/// Typed node for the `revision` construct.
#[derive(Debug)]
pub struct Revision {
    pub revision: String,
    pub description: Option<String>,
    pub reference: Option<String>,
}

impl Revision {
    pub fn map(stmt: Statement, ctx: &mut ErrorContext) -> (r: Result<Revision, ()>)
        ensures
            num_errors(final(ctx)@) >= num_errors(old(ctx)@),
            num_warnings(final(ctx)@) >= num_warnings(old(ctx)@),
            r is Err ==> num_errors(final(ctx)@) > num_errors(old(ctx)@),
            r is Ok ==> num_errors(final(ctx)@) == num_errors(old(ctx)@),
            r is Ok ==> stmt.keyword@ == "revision"@,
            r is Ok ==> (stmt.argument matches Some(a) && (r->Ok_0).revision == a),
        decreases stmt, 1int,
    {
        let ghost s0 = stmt;
        if !str_eq(stmt.keyword.as_str(), "revision") {
            let msg = String::from_str("Expected \"revision\" keyword");
            ctx.add_error(stmt.argument_span, msg);
            return Err(());
        }
        let Statement { keyword_span, keyword: _, argument_span, argument, statements } = stmt;
        let mut failed = false;
        let revision: Option<String> = match argument {
            Some(a) => match <String as ArgumentMapper>::map_argument(a, argument_span, ctx) {
                Ok(v) => Some(v),
                Err(()) => {
                    failed = true;
                    None
                },
            },
            None => {
                let msg = String::from_str("Expected revision argument");
                ctx.add_error(argument_span, msg);
                failed = true;
                None
            },
        };
        let mut specs: Vec<AttrSpec> = Vec::new();
        push_spec(&mut specs, "description", Card::Opt);
        push_spec(&mut specs, "reference", Card::Opt);
        let (mut groups, gc_ok) = group_children(statements, &specs, keyword_span, ctx);
        if !gc_ok {
            failed = true;
        }
        let ghost groups0 = groups@;
        proof {
            assert forall|gg: int, ii: int|
                0 <= gg < groups0.len() && 0 <= ii < groups0[gg]@.len() implies decreases_to!(
                s0 => #[trigger] groups0[gg]@[ii]) by {
                let k = choose|k: int|
                    0 <= k < s0.statements@.len() && groups0[gg]@[ii] == s0.statements@[k];
                assert(decreases_to!(s0 => s0.statements));
                assert(decreases_to!(s0.statements => s0.statements@[k]));
            }
        }
        let attr_description = groups.remove(0);
        proof {
            assert(groups@ =~= groups0.skip(1));
            assert(attr_description == groups0[0]);
        }
        let (got_description, bad_description) = map_single_string(attr_description, ctx);
        if bad_description {
            failed = true;
        }
        let attr_reference = groups.remove(0);
        proof {
            assert(groups@ =~= groups0.skip(2));
            assert(attr_reference == groups0[1]);
        }
        let (got_reference, bad_reference) = map_single_string(attr_reference, ctx);
        if bad_reference {
            failed = true;
        }
        if failed {
            return Err(());
        }
        Ok(Revision {
            revision: revision.unwrap(),
            description: got_description,
            reference: got_reference,
        })
    }
}

/// Typed node for the `belongs-to` construct.
#[derive(Debug)]
pub struct BelongsTo {
    pub module: String,
    pub prefix: String,
}

impl BelongsTo {
    pub fn map(stmt: Statement, ctx: &mut ErrorContext) -> (r: Result<BelongsTo, ()>)
        ensures
            num_errors(final(ctx)@) >= num_errors(old(ctx)@),
            num_warnings(final(ctx)@) >= num_warnings(old(ctx)@),
            r is Err ==> num_errors(final(ctx)@) > num_errors(old(ctx)@),
            r is Ok ==> num_errors(final(ctx)@) == num_errors(old(ctx)@),
            r is Ok ==> stmt.keyword@ == "belongs-to"@,
            r is Ok ==> (stmt.argument matches Some(a) && (r->Ok_0).module == a),
        decreases stmt, 1int,
    {
        let ghost s0 = stmt;
        if !str_eq(stmt.keyword.as_str(), "belongs-to") {
            let msg = String::from_str("Expected \"belongs-to\" keyword");
            ctx.add_error(stmt.argument_span, msg);
            return Err(());
        }
        let Statement { keyword_span, keyword: _, argument_span, argument, statements } = stmt;
        let mut failed = false;
        let module: Option<String> = match argument {
            Some(a) => match <String as ArgumentMapper>::map_argument(a, argument_span, ctx) {
                Ok(v) => Some(v),
                Err(()) => {
                    failed = true;
                    None
                },
            },
            None => {
                let msg = String::from_str("Expected module argument");
                ctx.add_error(argument_span, msg);
                failed = true;
                None
            },
        };
        let mut specs: Vec<AttrSpec> = Vec::new();
        push_spec(&mut specs, "prefix", Card::One);
        let (mut groups, gc_ok) = group_children(statements, &specs, keyword_span, ctx);
        if !gc_ok {
            failed = true;
        }
        let ghost groups0 = groups@;
        proof {
            assert forall|gg: int, ii: int|
                0 <= gg < groups0.len() && 0 <= ii < groups0[gg]@.len() implies decreases_to!(
                s0 => #[trigger] groups0[gg]@[ii]) by {
                let k = choose|k: int|
                    0 <= k < s0.statements@.len() && groups0[gg]@[ii] == s0.statements@[k];
                assert(decreases_to!(s0 => s0.statements));
                assert(decreases_to!(s0.statements => s0.statements@[k]));
            }
        }
        let attr_prefix = groups.remove(0);
        proof {
            assert(groups@ =~= groups0.skip(1));
            assert(attr_prefix == groups0[0]);
        }
        let (got_prefix, bad_prefix) = map_single_string(attr_prefix, ctx);
        if bad_prefix {
            failed = true;
        }
        if failed {
            return Err(());
        }
        Ok(BelongsTo {
            module: module.unwrap(),
            prefix: got_prefix.unwrap(),
        })
    }
}

/// Typed node for the `bit` construct.
#[derive(Debug)]
pub struct Bit {
    pub name: String,
    pub description: Option<String>,
    pub if_feature: Vec<String>,
    pub position: Option<u32>,
    pub reference: Option<String>,
    pub status: Option<Status>,
}

impl Bit {
    pub fn map(stmt: Statement, ctx: &mut ErrorContext) -> (r: Result<Bit, ()>)
        ensures
            num_errors(final(ctx)@) >= num_errors(old(ctx)@),
            num_warnings(final(ctx)@) >= num_warnings(old(ctx)@),
            r is Err ==> num_errors(final(ctx)@) > num_errors(old(ctx)@),
            r is Ok ==> num_errors(final(ctx)@) == num_errors(old(ctx)@),
            r is Ok ==> stmt.keyword@ == "bit"@,
            r is Ok ==> (stmt.argument matches Some(a) && (r->Ok_0).name == a),
        decreases stmt, 1int,
    {
        let ghost s0 = stmt;
        if !str_eq(stmt.keyword.as_str(), "bit") {
            let msg = String::from_str("Expected \"bit\" keyword");
            ctx.add_error(stmt.argument_span, msg);
            return Err(());
        }
        let Statement { keyword_span, keyword: _, argument_span, argument, statements } = stmt;
        let mut failed = false;
        let name: Option<String> = match argument {
            Some(a) => match <String as ArgumentMapper>::map_argument(a, argument_span, ctx) {
                Ok(v) => Some(v),
                Err(()) => {
                    failed = true;
                    None
                },
            },
            None => {
                let msg = String::from_str("Expected name argument");
                ctx.add_error(argument_span, msg);
                failed = true;
                None
            },
        };
        let mut specs: Vec<AttrSpec> = Vec::new();
        push_spec(&mut specs, "description", Card::Opt);
        push_spec(&mut specs, "if-feature", Card::Many);
        push_spec(&mut specs, "position", Card::Opt);
        push_spec(&mut specs, "reference", Card::Opt);
        push_spec(&mut specs, "status", Card::Opt);
        let (mut groups, gc_ok) = group_children(statements, &specs, keyword_span, ctx);
        if !gc_ok {
            failed = true;
        }
        let ghost groups0 = groups@;
        proof {
            assert forall|gg: int, ii: int|
                0 <= gg < groups0.len() && 0 <= ii < groups0[gg]@.len() implies decreases_to!(
                s0 => #[trigger] groups0[gg]@[ii]) by {
                let k = choose|k: int|
                    0 <= k < s0.statements@.len() && groups0[gg]@[ii] == s0.statements@[k];
                assert(decreases_to!(s0 => s0.statements));
                assert(decreases_to!(s0.statements => s0.statements@[k]));
            }
        }
        let attr_description = groups.remove(0);
        proof {
            assert(groups@ =~= groups0.skip(1));
            assert(attr_description == groups0[0]);
        }
        let (got_description, bad_description) = map_single_string(attr_description, ctx);
        if bad_description {
            failed = true;
        }
        let attr_if_feature = groups.remove(0);
        proof {
            assert(groups@ =~= groups0.skip(2));
            assert(attr_if_feature == groups0[1]);
        }
        let (got_if_feature, bad_if_feature) = map_many_string(attr_if_feature, ctx);
        if bad_if_feature {
            failed = true;
        }
        let attr_position = groups.remove(0);
        proof {
            assert(groups@ =~= groups0.skip(3));
            assert(attr_position == groups0[2]);
        }
        let (got_position, bad_position) = map_single_u32(attr_position, ctx);
        if bad_position {
            failed = true;
        }
        let attr_reference = groups.remove(0);
        proof {
            assert(groups@ =~= groups0.skip(4));
            assert(attr_reference == groups0[3]);
        }
        let (got_reference, bad_reference) = map_single_string(attr_reference, ctx);
        if bad_reference {
            failed = true;
        }
        let attr_status = groups.remove(0);
        proof {
            assert(groups@ =~= groups0.skip(5));
            assert(attr_status == groups0[4]);
        }
        let (got_status, bad_status) = map_single_status(attr_status, ctx);
        if bad_status {
            failed = true;
        }
        if failed {
            return Err(());
        }
        Ok(Bit {
            name: name.unwrap(),
            description: got_description,
            if_feature: got_if_feature,
            position: got_position,
            reference: got_reference,
            status: got_status,
        })
    }
}

/// Typed node for the `enum` construct.
#[derive(Debug)]
pub struct Enum {
    pub name: String,
    pub description: Option<String>,
    pub if_feature: Vec<String>,
    pub reference: Option<String>,
    pub status: Option<Status>,
    pub value: Option<i32>,
}

impl Enum {
    pub fn map(stmt: Statement, ctx: &mut ErrorContext) -> (r: Result<Enum, ()>)
        ensures
            num_errors(final(ctx)@) >= num_errors(old(ctx)@),
            num_warnings(final(ctx)@) >= num_warnings(old(ctx)@),
            r is Err ==> num_errors(final(ctx)@) > num_errors(old(ctx)@),
            r is Ok ==> num_errors(final(ctx)@) == num_errors(old(ctx)@),
            r is Ok ==> stmt.keyword@ == "enum"@,
            r is Ok ==> (stmt.argument matches Some(a) && (r->Ok_0).name == a),
        decreases stmt, 1int,
    {
        let ghost s0 = stmt;
        if !str_eq(stmt.keyword.as_str(), "enum") {
            let msg = String::from_str("Expected \"enum\" keyword");
            ctx.add_error(stmt.argument_span, msg);
            return Err(());
        }
        let Statement { keyword_span, keyword: _, argument_span, argument, statements } = stmt;
        let mut failed = false;
        let name: Option<String> = match argument {
            Some(a) => match <String as ArgumentMapper>::map_argument(a, argument_span, ctx) {
                Ok(v) => Some(v),
                Err(()) => {
                    failed = true;
                    None
                },
            },
            None => {
                let msg = String::from_str("Expected name argument");
                ctx.add_error(argument_span, msg);
                failed = true;
                None
            },
        };
        let mut specs: Vec<AttrSpec> = Vec::new();
        push_spec(&mut specs, "description", Card::Opt);
        push_spec(&mut specs, "if-feature", Card::Many);
        push_spec(&mut specs, "reference", Card::Opt);
        push_spec(&mut specs, "status", Card::Opt);
        push_spec(&mut specs, "value", Card::Opt);
        let (mut groups, gc_ok) = group_children(statements, &specs, keyword_span, ctx);
        if !gc_ok {
            failed = true;
        }
        let ghost groups0 = groups@;
        proof {
            assert forall|gg: int, ii: int|
                0 <= gg < groups0.len() && 0 <= ii < groups0[gg]@.len() implies decreases_to!(
                s0 => #[trigger] groups0[gg]@[ii]) by {
                let k = choose|k: int|
                    0 <= k < s0.statements@.len() && groups0[gg]@[ii] == s0.statements@[k];
                assert(decreases_to!(s0 => s0.statements));
                assert(decreases_to!(s0.statements => s0.statements@[k]));
            }
        }
        let attr_description = groups.remove(0);
        proof {
            assert(groups@ =~= groups0.skip(1));
            assert(attr_description == groups0[0]);
        }
        let (got_description, bad_description) = map_single_string(attr_description, ctx);
        if bad_description {
            failed = true;
        }
        let attr_if_feature = groups.remove(0);
        proof {
            assert(groups@ =~= groups0.skip(2));
            assert(attr_if_feature == groups0[1]);
        }
        let (got_if_feature, bad_if_feature) = map_many_string(attr_if_feature, ctx);
        if bad_if_feature {
            failed = true;
        }
        let attr_reference = groups.remove(0);
        proof {
            assert(groups@ =~= groups0.skip(3));
            assert(attr_reference == groups0[2]);
        }
        let (got_reference, bad_reference) = map_single_string(attr_reference, ctx);
        if bad_reference {
            failed = true;
        }
        let attr_status = groups.remove(0);
        proof {
            assert(groups@ =~= groups0.skip(4));
            assert(attr_status == groups0[3]);
        }
        let (got_status, bad_status) = map_single_status(attr_status, ctx);
        if bad_status {
            failed = true;
        }
        let attr_value = groups.remove(0);
        proof {
            assert(groups@ =~= groups0.skip(5));
            assert(attr_value == groups0[4]);
        }
        let (got_value, bad_value) = map_single_i32(attr_value, ctx);
        if bad_value {
            failed = true;
        }
        if failed {
            return Err(());
        }
        Ok(Enum {
            name: name.unwrap(),
            description: got_description,
            if_feature: got_if_feature,
            reference: got_reference,
            status: got_status,
            value: got_value,
        })
    }
}

/// Typed node for the `length` construct.
#[derive(Debug)]
pub struct Length {
    pub length_expression: LengthRangePattern<LengthBoundary>,
    pub description: Option<String>,
    pub error_app_tag: Option<String>,
    pub error_message: Option<String>,
    pub reference: Option<String>,
}

impl Length {
    pub fn map(stmt: Statement, ctx: &mut ErrorContext) -> (r: Result<Length, ()>)
        ensures
            num_errors(final(ctx)@) >= num_errors(old(ctx)@),
            num_warnings(final(ctx)@) >= num_warnings(old(ctx)@),
            r is Err ==> num_errors(final(ctx)@) > num_errors(old(ctx)@),
            r is Ok ==> num_errors(final(ctx)@) == num_errors(old(ctx)@),
            r is Ok ==> stmt.keyword@ == "length"@,
        decreases stmt, 1int,
    {
        let ghost s0 = stmt;
        if !str_eq(stmt.keyword.as_str(), "length") {
            let msg = String::from_str("Expected \"length\" keyword");
            ctx.add_error(stmt.argument_span, msg);
            return Err(());
        }
        let Statement { keyword_span, keyword: _, argument_span, argument, statements } = stmt;
        let mut failed = false;
        let length_expression: Option<LengthRangePattern<LengthBoundary>> = match argument {
            Some(a) => match <LengthRangePattern<LengthBoundary> as ArgumentMapper>::map_argument(a, argument_span, ctx) {
                Ok(v) => Some(v),
                Err(()) => {
                    failed = true;
                    None
                },
            },
            None => {
                let msg = String::from_str("Expected length_expression argument");
                ctx.add_error(argument_span, msg);
                failed = true;
                None
            },
        };
        let mut specs: Vec<AttrSpec> = Vec::new();
        push_spec(&mut specs, "description", Card::Opt);
        push_spec(&mut specs, "error-app-tag", Card::Opt);
        push_spec(&mut specs, "error-message", Card::Opt);
        push_spec(&mut specs, "reference", Card::Opt);
        let (mut groups, gc_ok) = group_children(statements, &specs, keyword_span, ctx);
        if !gc_ok {
            failed = true;
        }
        let ghost groups0 = groups@;
        proof {
            assert forall|gg: int, ii: int|
                0 <= gg < groups0.len() && 0 <= ii < groups0[gg]@.len() implies decreases_to!(
                s0 => #[trigger] groups0[gg]@[ii]) by {
                let k = choose|k: int|
                    0 <= k < s0.statements@.len() && groups0[gg]@[ii] == s0.statements@[k];
                assert(decreases_to!(s0 => s0.statements));
                assert(decreases_to!(s0.statements => s0.statements@[k]));
            }
        }
        let attr_description = groups.remove(0);
        proof {
            assert(groups@ =~= groups0.skip(1));
            assert(attr_description == groups0[0]);
        }
        let (got_description, bad_description) = map_single_string(attr_description, ctx);
        if bad_description {
            failed = true;
        }
        let attr_error_app_tag = groups.remove(0);
        proof {
            assert(groups@ =~= groups0.skip(2));
            assert(attr_error_app_tag == groups0[1]);
        }
        let (got_error_app_tag, bad_error_app_tag) = map_single_string(attr_error_app_tag, ctx);
        if bad_error_app_tag {
            failed = true;
        }
        let attr_error_message = groups.remove(0);
        proof {
            assert(groups@ =~= groups0.skip(3));
            assert(attr_error_message == groups0[2]);
        }
        let (got_error_message, bad_error_message) = map_single_string(attr_error_message, ctx);
        if bad_error_message {
            failed = true;
        }
        let attr_reference = groups.remove(0);
        proof {
            assert(groups@ =~= groups0.skip(4));
            assert(attr_reference == groups0[3]);
        }
        let (got_reference, bad_reference) = map_single_string(attr_reference, ctx);
        if bad_reference {
            failed = true;
        }
        if failed {
            return Err(());
        }
        Ok(Length {
            length_expression: length_expression.unwrap(),
            description: got_description,
            error_app_tag: got_error_app_tag,
            error_message: got_error_message,
            reference: got_reference,
        })
    }
}

/// Typed node for the `pattern` construct.
#[derive(Debug)]
pub struct Pattern {
    pub regex: String,
    pub description: Option<String>,
    pub error_app_tag: Option<String>,
    pub error_message: Option<String>,
    pub modifier: Option<String>,
    pub reference: Option<String>,
}

impl Pattern {
    pub fn map(stmt: Statement, ctx: &mut ErrorContext) -> (r: Result<Pattern, ()>)
        ensures
            num_errors(final(ctx)@) >= num_errors(old(ctx)@),
            num_warnings(final(ctx)@) >= num_warnings(old(ctx)@),
            r is Err ==> num_errors(final(ctx)@) > num_errors(old(ctx)@),
            r is Ok ==> num_errors(final(ctx)@) == num_errors(old(ctx)@),
            r is Ok ==> stmt.keyword@ == "pattern"@,
            r is Ok ==> (stmt.argument matches Some(a) && (r->Ok_0).regex == a),
        decreases stmt, 1int,
    {
        let ghost s0 = stmt;
        if !str_eq(stmt.keyword.as_str(), "pattern") {
            let msg = String::from_str("Expected \"pattern\" keyword");
            ctx.add_error(stmt.argument_span, msg);
            return Err(());
        }
        let Statement { keyword_span, keyword: _, argument_span, argument, statements } = stmt;
        let mut failed = false;
        let regex: Option<String> = match argument {
            Some(a) => match <String as ArgumentMapper>::map_argument(a, argument_span, ctx) {
                Ok(v) => Some(v),
                Err(()) => {
                    failed = true;
                    None
                },
            },
            None => {
                let msg = String::from_str("Expected regex argument");
                ctx.add_error(argument_span, msg);
                failed = true;
                None
            },
        };
        let mut specs: Vec<AttrSpec> = Vec::new();
        push_spec(&mut specs, "description", Card::Opt);
        push_spec(&mut specs, "error-app-tag", Card::Opt);
        push_spec(&mut specs, "error-message", Card::Opt);
        push_spec(&mut specs, "modifier", Card::Opt);
        push_spec(&mut specs, "reference", Card::Opt);
        let (mut groups, gc_ok) = group_children(statements, &specs, keyword_span, ctx);
        if !gc_ok {
            failed = true;
        }
        let ghost groups0 = groups@;
        proof {
            assert forall|gg: int, ii: int|
                0 <= gg < groups0.len() && 0 <= ii < groups0[gg]@.len() implies decreases_to!(
                s0 => #[trigger] groups0[gg]@[ii]) by {
                let k = choose|k: int|
                    0 <= k < s0.statements@.len() && groups0[gg]@[ii] == s0.statements@[k];
                assert(decreases_to!(s0 => s0.statements));
                assert(decreases_to!(s0.statements => s0.statements@[k]));
            }
        }
        let attr_description = groups.remove(0);
        proof {
            assert(groups@ =~= groups0.skip(1));
            assert(attr_description == groups0[0]);
        }
        let (got_description, bad_description) = map_single_string(attr_description, ctx);
        if bad_description {
            failed = true;
        }
        let attr_error_app_tag = groups.remove(0);
        proof {
            assert(groups@ =~= groups0.skip(2));
            assert(attr_error_app_tag == groups0[1]);
        }
        let (got_error_app_tag, bad_error_app_tag) = map_single_string(attr_error_app_tag, ctx);
        if bad_error_app_tag {
            failed = true;
        }
        let attr_error_message = groups.remove(0);
        proof {
            assert(groups@ =~= groups0.skip(3));
            assert(attr_error_message == groups0[2]);
        }
        let (got_error_message, bad_error_message) = map_single_string(attr_error_message, ctx);
        if bad_error_message {
            failed = true;
        }
        let attr_modifier = groups.remove(0);
        proof {
            assert(groups@ =~= groups0.skip(4));
            assert(attr_modifier == groups0[3]);
        }
        let (got_modifier, bad_modifier) = map_single_string(attr_modifier, ctx);
        if bad_modifier {
            failed = true;
        }
        let attr_reference = groups.remove(0);
        proof {
            assert(groups@ =~= groups0.skip(5));
            assert(attr_reference == groups0[4]);
        }
        let (got_reference, bad_reference) = map_single_string(attr_reference, ctx);
        if bad_reference {
            failed = true;
        }
        if failed {
            return Err(());
        }
        Ok(Pattern {
            regex: regex.unwrap(),
            description: got_description,
            error_app_tag: got_error_app_tag,
            error_message: got_error_message,
            modifier: got_modifier,
            reference: got_reference,
        })
    }
}

/// Typed node for the `range` construct.
#[derive(Debug)]
pub struct Range {
    pub range_expression: LengthRangePattern<RangeBoundary>,
    pub description: Option<String>,
    pub error_app_tag: Option<String>,
    pub error_message: Option<String>,
    pub reference: Option<String>,
}

impl Range {
    pub fn map(stmt: Statement, ctx: &mut ErrorContext) -> (r: Result<Range, ()>)
        ensures
            num_errors(final(ctx)@) >= num_errors(old(ctx)@),
            num_warnings(final(ctx)@) >= num_warnings(old(ctx)@),
            r is Err ==> num_errors(final(ctx)@) > num_errors(old(ctx)@),
            r is Ok ==> num_errors(final(ctx)@) == num_errors(old(ctx)@),
            r is Ok ==> stmt.keyword@ == "range"@,
        decreases stmt, 1int,
    {
        let ghost s0 = stmt;
        if !str_eq(stmt.keyword.as_str(), "range") {
            let msg = String::from_str("Expected \"range\" keyword");
            ctx.add_error(stmt.argument_span, msg);
            return Err(());
        }
        let Statement { keyword_span, keyword: _, argument_span, argument, statements } = stmt;
        let mut failed = false;
        let range_expression: Option<LengthRangePattern<RangeBoundary>> = match argument {
            Some(a) => match <LengthRangePattern<RangeBoundary> as ArgumentMapper>::map_argument(a, argument_span, ctx) {
                Ok(v) => Some(v),
                Err(()) => {
                    failed = true;
                    None
                },
            },
            None => {
                let msg = String::from_str("Expected range_expression argument");
                ctx.add_error(argument_span, msg);
                failed = true;
                None
            },
        };
        let mut specs: Vec<AttrSpec> = Vec::new();
        push_spec(&mut specs, "description", Card::Opt);
        push_spec(&mut specs, "error-app-tag", Card::Opt);
        push_spec(&mut specs, "error-message", Card::Opt);
        push_spec(&mut specs, "reference", Card::Opt);
        let (mut groups, gc_ok) = group_children(statements, &specs, keyword_span, ctx);
        if !gc_ok {
            failed = true;
        }
        let ghost groups0 = groups@;
        proof {
            assert forall|gg: int, ii: int|
                0 <= gg < groups0.len() && 0 <= ii < groups0[gg]@.len() implies decreases_to!(
                s0 => #[trigger] groups0[gg]@[ii]) by {
                let k = choose|k: int|
                    0 <= k < s0.statements@.len() && groups0[gg]@[ii] == s0.statements@[k];
                assert(decreases_to!(s0 => s0.statements));
                assert(decreases_to!(s0.statements => s0.statements@[k]));
            }
        }
        let attr_description = groups.remove(0);
        proof {
            assert(groups@ =~= groups0.skip(1));
            assert(attr_description == groups0[0]);
        }
        let (got_description, bad_description) = map_single_string(attr_description, ctx);
        if bad_description {
            failed = true;
        }
        let attr_error_app_tag = groups.remove(0);
        proof {
            assert(groups@ =~= groups0.skip(2));
            assert(attr_error_app_tag == groups0[1]);
        }
        let (got_error_app_tag, bad_error_app_tag) = map_single_string(attr_error_app_tag, ctx);
        if bad_error_app_tag {
            failed = true;
        }
        let attr_error_message = groups.remove(0);
        proof {
            assert(groups@ =~= groups0.skip(3));
            assert(attr_error_message == groups0[2]);
        }
        let (got_error_message, bad_error_message) = map_single_string(attr_error_message, ctx);
        if bad_error_message {
            failed = true;
        }
        let attr_reference = groups.remove(0);
        proof {
            assert(groups@ =~= groups0.skip(4));
            assert(attr_reference == groups0[3]);
        }
        let (got_reference, bad_reference) = map_single_string(attr_reference, ctx);
        if bad_reference {
            failed = true;
        }
        if failed {
            return Err(());
        }
        Ok(Range {
            range_expression: range_expression.unwrap(),
            description: got_description,
            error_app_tag: got_error_app_tag,
            error_message: got_error_message,
            reference: got_reference,
        })
    }
}

/// Typed node for the `type` construct.
#[derive(Debug)]
pub struct Type {
    pub name: Option<String>,
    pub base: Option<String>,
    pub bit: Vec<Bit>,
    pub enum_: Vec<Enum>,
    pub fraction_digits: Option<u32>,
    pub length: Option<Length>,
    pub path: Option<String>,
    pub pattern: Vec<Pattern>,
    pub range: Option<Range>,
    pub require_instance: Option<bool>,
    pub type_: Vec<Type>,
}

impl Type {
    pub fn map(stmt: Statement, ctx: &mut ErrorContext) -> (r: Result<Type, ()>)
        ensures
            num_errors(final(ctx)@) >= num_errors(old(ctx)@),
            num_warnings(final(ctx)@) >= num_warnings(old(ctx)@),
            r is Err ==> num_errors(final(ctx)@) > num_errors(old(ctx)@),
            r is Ok ==> num_errors(final(ctx)@) == num_errors(old(ctx)@),
            r is Ok ==> stmt.keyword@ == "type"@,
            r is Ok ==> (r->Ok_0).name == stmt.argument,
        decreases stmt, 1int,
    {
        let ghost s0 = stmt;
        if !str_eq(stmt.keyword.as_str(), "type") {
            let msg = String::from_str("Expected \"type\" keyword");
            ctx.add_error(stmt.argument_span, msg);
            return Err(());
        }
        let Statement { keyword_span, keyword: _, argument_span, argument, statements } = stmt;
        let mut failed = false;
        let name: Option<String> = match argument {
            Some(a) => match <String as ArgumentMapper>::map_argument(a, argument_span, ctx) {
                Ok(v) => Some(v),
                Err(()) => {
                    failed = true;
                    None
                },
            },
            None => None,
        };
        let mut specs: Vec<AttrSpec> = Vec::new();
        push_spec(&mut specs, "base", Card::Opt);
        push_spec(&mut specs, "bit", Card::Many);
        push_spec(&mut specs, "enum", Card::Many);
        push_spec(&mut specs, "fraction-digits", Card::Opt);
        push_spec(&mut specs, "length", Card::Opt);
        push_spec(&mut specs, "path", Card::Opt);
        push_spec(&mut specs, "pattern", Card::Many);
        push_spec(&mut specs, "range", Card::Opt);
        push_spec(&mut specs, "require-instance", Card::Opt);
        push_spec(&mut specs, "type", Card::Many);
        let (mut groups, gc_ok) = group_children(statements, &specs, keyword_span, ctx);
        if !gc_ok {
            failed = true;
        }
        let ghost groups0 = groups@;
        proof {
            assert forall|gg: int, ii: int|
                0 <= gg < groups0.len() && 0 <= ii < groups0[gg]@.len() implies decreases_to!(
                s0 => #[trigger] groups0[gg]@[ii]) by {
                let k = choose|k: int|
                    0 <= k < s0.statements@.len() && groups0[gg]@[ii] == s0.statements@[k];
                assert(decreases_to!(s0 => s0.statements));
                assert(decreases_to!(s0.statements => s0.statements@[k]));
            }
        }
        let attr_base = groups.remove(0);
        proof {
            assert(groups@ =~= groups0.skip(1));
            assert(attr_base == groups0[0]);
        }
        let (got_base, bad_base) = map_single_string(attr_base, ctx);
        if bad_base {
            failed = true;
        }
        let attr_bit = groups.remove(0);
        proof {
            assert(groups@ =~= groups0.skip(2));
            assert(attr_bit == groups0[1]);
        }
        let (got_bit, bad_bit) = map_many_bit(attr_bit, Ghost(s0), ctx);
        if bad_bit {
            failed = true;
        }
        let attr_enum_ = groups.remove(0);
        proof {
            assert(groups@ =~= groups0.skip(3));
            assert(attr_enum_ == groups0[2]);
        }
        let (got_enum_, bad_enum_) = map_many_enum(attr_enum_, Ghost(s0), ctx);
        if bad_enum_ {
            failed = true;
        }
        let attr_fraction_digits = groups.remove(0);
        proof {
            assert(groups@ =~= groups0.skip(4));
            assert(attr_fraction_digits == groups0[3]);
        }
        let (got_fraction_digits, bad_fraction_digits) = map_single_u32(attr_fraction_digits, ctx);
        if bad_fraction_digits {
            failed = true;
        }
        let attr_length = groups.remove(0);
        proof {
            assert(groups@ =~= groups0.skip(5));
            assert(attr_length == groups0[4]);
        }
        let (got_length, bad_length) = map_single_length(attr_length, Ghost(s0), ctx);
        if bad_length {
            failed = true;
        }
        let attr_path = groups.remove(0);
        proof {
            assert(groups@ =~= groups0.skip(6));
            assert(attr_path == groups0[5]);
        }
        let (got_path, bad_path) = map_single_string(attr_path, ctx);
        if bad_path {
            failed = true;
        }
        let attr_pattern = groups.remove(0);
        proof {
            assert(groups@ =~= groups0.skip(7));
            assert(attr_pattern == groups0[6]);
        }
        let (got_pattern, bad_pattern) = map_many_pattern(attr_pattern, Ghost(s0), ctx);
        if bad_pattern {
            failed = true;
        }
        let attr_range = groups.remove(0);
        proof {
            assert(groups@ =~= groups0.skip(8));
            assert(attr_range == groups0[7]);
        }
        let (got_range, bad_range) = map_single_range(attr_range, Ghost(s0), ctx);
        if bad_range {
            failed = true;
        }
        let attr_require_instance = groups.remove(0);
        proof {
            assert(groups@ =~= groups0.skip(9));
            assert(attr_require_instance == groups0[8]);
        }
        let (got_require_instance, bad_require_instance) = map_single_bool(attr_require_instance, ctx);
        if bad_require_instance {
            failed = true;
        }
        let attr_type_ = groups.remove(0);
        proof {
            assert(groups@ =~= groups0.skip(10));
            assert(attr_type_ == groups0[9]);
        }
        let (got_type_, bad_type_) = map_many_type(attr_type_, Ghost(s0), ctx);
        if bad_type_ {
            failed = true;
        }
        if failed {
            return Err(());
        }
        Ok(Type {
            name,
            base: got_base,
            bit: got_bit,
            enum_: got_enum_,
            fraction_digits: got_fraction_digits,
            length: got_length,
            path: got_path,
            pattern: got_pattern,
            range: got_range,
            require_instance: got_require_instance,
            type_: got_type_,
        })
    }
}

/// Typed node for the `identity` construct.
#[derive(Debug)]
pub struct Identity {
    pub name: String,
    pub base: Vec<String>,
    pub description: Option<String>,
    pub if_feature: Vec<String>,
    pub reference: Option<String>,
    pub status: Option<Status>,
}

impl Identity {
    pub fn map(stmt: Statement, ctx: &mut ErrorContext) -> (r: Result<Identity, ()>)
        ensures
            num_errors(final(ctx)@) >= num_errors(old(ctx)@),
            num_warnings(final(ctx)@) >= num_warnings(old(ctx)@),
            r is Err ==> num_errors(final(ctx)@) > num_errors(old(ctx)@),
            r is Ok ==> num_errors(final(ctx)@) == num_errors(old(ctx)@),
            r is Ok ==> stmt.keyword@ == "identity"@,
            r is Ok ==> (stmt.argument matches Some(a) && (r->Ok_0).name == a),
        decreases stmt, 1int,
    {
        let ghost s0 = stmt;
        if !str_eq(stmt.keyword.as_str(), "identity") {
            let msg = String::from_str("Expected \"identity\" keyword");
            ctx.add_error(stmt.argument_span, msg);
            return Err(());
        }
        let Statement { keyword_span, keyword: _, argument_span, argument, statements } = stmt;
        let mut failed = false;
        let name: Option<String> = match argument {
            Some(a) => match <String as ArgumentMapper>::map_argument(a, argument_span, ctx) {
                Ok(v) => Some(v),
                Err(()) => {
                    failed = true;
                    None
                },
            },
            None => {
                let msg = String::from_str("Expected name argument");
                ctx.add_error(argument_span, msg);
                failed = true;
                None
            },
        };
        let mut specs: Vec<AttrSpec> = Vec::new();
        push_spec(&mut specs, "base", Card::Many);
        push_spec(&mut specs, "description", Card::Opt);
        push_spec(&mut specs, "if-feature", Card::Many);
        push_spec(&mut specs, "reference", Card::Opt);
        push_spec(&mut specs, "status", Card::Opt);
        let (mut groups, gc_ok) = group_children(statements, &specs, keyword_span, ctx);
        if !gc_ok {
            failed = true;
        }
        let ghost groups0 = groups@;
        proof {
            assert forall|gg: int, ii: int|
                0 <= gg < groups0.len() && 0 <= ii < groups0[gg]@.len() implies decreases_to!(
                s0 => #[trigger] groups0[gg]@[ii]) by {
                let k = choose|k: int|
                    0 <= k < s0.statements@.len() && groups0[gg]@[ii] == s0.statements@[k];
                assert(decreases_to!(s0 => s0.statements));
                assert(decreases_to!(s0.statements => s0.statements@[k]));
            }
        }
        let attr_base = groups.remove(0);
        proof {
            assert(groups@ =~= groups0.skip(1));
            assert(attr_base == groups0[0]);
        }
        let (got_base, bad_base) = map_many_string(attr_base, ctx);
        if bad_base {
            failed = true;
        }
        let attr_description = groups.remove(0);
        proof {
            assert(groups@ =~= groups0.skip(2));
            assert(attr_description == groups0[1]);
        }
        let (got_description, bad_description) = map_single_string(attr_description, ctx);
        if bad_description {
            failed = true;
        }
        let attr_if_feature = groups.remove(0);
        proof {
            assert(groups@ =~= groups0.skip(3));
            assert(attr_if_feature == groups0[2]);
        }
        let (got_if_feature, bad_if_feature) = map_many_string(attr_if_feature, ctx);
        if bad_if_feature {
            failed = true;
        }
        let attr_reference = groups.remove(0);
        proof {
            assert(groups@ =~= groups0.skip(4));
            assert(attr_reference == groups0[3]);
        }
        let (got_reference, bad_reference) = map_single_string(attr_reference, ctx);
        if bad_reference {
            failed = true;
        }
        let attr_status = groups.remove(0);
        proof {
            assert(groups@ =~= groups0.skip(5));
            assert(attr_status == groups0[4]);
        }
        let (got_status, bad_status) = map_single_status(attr_status, ctx);
        if bad_status {
            failed = true;
        }
        if failed {
            return Err(());
        }
        Ok(Identity {
            name: name.unwrap(),
            base: got_base,
            description: got_description,
            if_feature: got_if_feature,
            reference: got_reference,
            status: got_status,
        })
    }
}

/// Typed node for the `typedef` construct.
#[derive(Debug)]
pub struct Typedef {
    pub name: String,
    pub default: Option<String>,
    pub description: Option<String>,
    pub reference: Option<String>,
    pub status: Option<Status>,
    pub type_: Type,
    pub units: Option<String>,
}

impl Typedef {
    pub fn map(stmt: Statement, ctx: &mut ErrorContext) -> (r: Result<Typedef, ()>)
        ensures
            num_errors(final(ctx)@) >= num_errors(old(ctx)@),
            num_warnings(final(ctx)@) >= num_warnings(old(ctx)@),
            r is Err ==> num_errors(final(ctx)@) > num_errors(old(ctx)@),
            r is Ok ==> num_errors(final(ctx)@) == num_errors(old(ctx)@),
            r is Ok ==> stmt.keyword@ == "typedef"@,
            r is Ok ==> (stmt.argument matches Some(a) && (r->Ok_0).name == a),
        decreases stmt, 1int,
    {
        let ghost s0 = stmt;
        if !str_eq(stmt.keyword.as_str(), "typedef") {
            let msg = String::from_str("Expected \"typedef\" keyword");
            ctx.add_error(stmt.argument_span, msg);
            return Err(());
        }
        let Statement { keyword_span, keyword: _, argument_span, argument, statements } = stmt;
        let mut failed = false;
        let name: Option<String> = match argument {
            Some(a) => match <String as ArgumentMapper>::map_argument(a, argument_span, ctx) {
                Ok(v) => Some(v),
                Err(()) => {
                    failed = true;
                    None
                },
            },
            None => {
                let msg = String::from_str("Expected name argument");
                ctx.add_error(argument_span, msg);
                failed = true;
                None
            },
        };
        let mut specs: Vec<AttrSpec> = Vec::new();
        push_spec(&mut specs, "default", Card::Opt);
        push_spec(&mut specs, "description", Card::Opt);
        push_spec(&mut specs, "reference", Card::Opt);
        push_spec(&mut specs, "status", Card::Opt);
        push_spec(&mut specs, "type", Card::One);
        push_spec(&mut specs, "units", Card::Opt);
        let (mut groups, gc_ok) = group_children(statements, &specs, keyword_span, ctx);
        if !gc_ok {
            failed = true;
        }
        let ghost groups0 = groups@;
        proof {
            assert forall|gg: int, ii: int|
                0 <= gg < groups0.len() && 0 <= ii < groups0[gg]@.len() implies decreases_to!(
                s0 => #[trigger] groups0[gg]@[ii]) by {
                let k = choose|k: int|
                    0 <= k < s0.statements@.len() && groups0[gg]@[ii] == s0.statements@[k];
                assert(decreases_to!(s0 => s0.statements));
                assert(decreases_to!(s0.statements => s0.statements@[k]));
            }
        }
        let attr_default = groups.remove(0);
        proof {
            assert(groups@ =~= groups0.skip(1));
            assert(attr_default == groups0[0]);
        }
        let (got_default, bad_default) = map_single_string(attr_default, ctx);
        if bad_default {
            failed = true;
        }
        let attr_description = groups.remove(0);
        proof {
            assert(groups@ =~= groups0.skip(2));
            assert(attr_description == groups0[1]);
        }
        let (got_description, bad_description) = map_single_string(attr_description, ctx);
        if bad_description {
            failed = true;
        }
        let attr_reference = groups.remove(0);
        proof {
            assert(groups@ =~= groups0.skip(3));
            assert(attr_reference == groups0[2]);
        }
        let (got_reference, bad_reference) = map_single_string(attr_reference, ctx);
        if bad_reference {
            failed = true;
        }
        let attr_status = groups.remove(0);
        proof {
            assert(groups@ =~= groups0.skip(4));
            assert(attr_status == groups0[3]);
        }
        let (got_status, bad_status) = map_single_status(attr_status, ctx);
        if bad_status {
            failed = true;
        }
        let attr_type_ = groups.remove(0);
        proof {
            assert(groups@ =~= groups0.skip(5));
            assert(attr_type_ == groups0[4]);
        }
        let (got_type_, bad_type_) = map_single_type(attr_type_, Ghost(s0), ctx);
        if bad_type_ {
            failed = true;
        }
        let attr_units = groups.remove(0);
        proof {
            assert(groups@ =~= groups0.skip(6));
            assert(attr_units == groups0[5]);
        }
        let (got_units, bad_units) = map_single_string(attr_units, ctx);
        if bad_units {
            failed = true;
        }
        if failed {
            return Err(());
        }
        Ok(Typedef {
            name: name.unwrap(),
            default: got_default,
            description: got_description,
            reference: got_reference,
            status: got_status,
            type_: got_type_.unwrap(),
            units: got_units,
        })
    }
}

/// Typed node for the `grouping` construct.
#[derive(Debug)]
pub struct Grouping {
    pub name: String,
    pub action: Vec<ActionOrRpc>,
    pub anydata: Vec<AnyDataOrXml>,
    pub anyxml: Vec<AnyDataOrXml>,
    pub choice: Vec<Choice>,
    pub container: Vec<Container>,
    pub description: Option<String>,
    pub grouping: Vec<Grouping>,
    pub leaf: Vec<Leaf>,
    pub leaf_list: Vec<LeafList>,
    pub list: Vec<List>,
    pub notification: Vec<Notification>,
    pub reference: Option<String>,
    pub status: Option<Status>,
    pub typedef: Vec<Typedef>,
    pub uses: Vec<Uses>,
}

impl Grouping {
    pub fn map(stmt: Statement, ctx: &mut ErrorContext) -> (r: Result<Grouping, ()>)
        ensures
            num_errors(final(ctx)@) >= num_errors(old(ctx)@),
            num_warnings(final(ctx)@) >= num_warnings(old(ctx)@),
            r is Err ==> num_errors(final(ctx)@) > num_errors(old(ctx)@),
            r is Ok ==> num_errors(final(ctx)@) == num_errors(old(ctx)@),
            r is Ok ==> stmt.keyword@ == "grouping"@,
            r is Ok ==> (stmt.argument matches Some(a) && (r->Ok_0).name == a),
        decreases stmt, 1int,
    {
        let ghost s0 = stmt;
        if !str_eq(stmt.keyword.as_str(), "grouping") {
            let msg = String::from_str("Expected \"grouping\" keyword");
            ctx.add_error(stmt.argument_span, msg);
            return Err(());
        }
        let Statement { keyword_span, keyword: _, argument_span, argument, statements } = stmt;
        let mut failed = false;
        let name: Option<String> = match argument {
            Some(a) => match <String as ArgumentMapper>::map_argument(a, argument_span, ctx) {
                Ok(v) => Some(v),
                Err(()) => {
                    failed = true;
                    None
                },
            },
            None => {
                let msg = String::from_str("Expected name argument");
                ctx.add_error(argument_span, msg);
                failed = true;
                None
            },
        };
        let mut specs: Vec<AttrSpec> = Vec::new();
        push_spec(&mut specs, "action", Card::Many);
        push_spec(&mut specs, "anydata", Card::Many);
        push_spec(&mut specs, "anyxml", Card::Many);
        push_spec(&mut specs, "choice", Card::Many);
        push_spec(&mut specs, "container", Card::Many);
        push_spec(&mut specs, "description", Card::Opt);
        push_spec(&mut specs, "grouping", Card::Many);
        push_spec(&mut specs, "leaf", Card::Many);
        push_spec(&mut specs, "leaf-list", Card::Many);
        push_spec(&mut specs, "list", Card::Many);
        push_spec(&mut specs, "notification", Card::Many);
        push_spec(&mut specs, "reference", Card::Opt);
        push_spec(&mut specs, "status", Card::Opt);
        push_spec(&mut specs, "typedef", Card::Many);
        push_spec(&mut specs, "uses", Card::Many);
        let (mut groups, gc_ok) = group_children(statements, &specs, keyword_span, ctx);
        if !gc_ok {
            failed = true;
        }
        let ghost groups0 = groups@;
        proof {
            assert forall|gg: int, ii: int|
                0 <= gg < groups0.len() && 0 <= ii < groups0[gg]@.len() implies decreases_to!(
                s0 => #[trigger] groups0[gg]@[ii]) by {
                let k = choose|k: int|
                    0 <= k < s0.statements@.len() && groups0[gg]@[ii] == s0.statements@[k];
                assert(decreases_to!(s0 => s0.statements));
                assert(decreases_to!(s0.statements => s0.statements@[k]));
            }
        }
        let attr_action = groups.remove(0);
        proof {
            assert(groups@ =~= groups0.skip(1));
            assert(attr_action == groups0[0]);
        }
        let (got_action, bad_action) = map_many_action_or_rpc(attr_action, Ghost(s0), ctx);
        if bad_action {
            failed = true;
        }
        let attr_anydata = groups.remove(0);
        proof {
            assert(groups@ =~= groups0.skip(2));
            assert(attr_anydata == groups0[1]);
        }
        let (got_anydata, bad_anydata) = map_many_any_data_or_xml(attr_anydata, Ghost(s0), ctx);
        if bad_anydata {
            failed = true;
        }
        let attr_anyxml = groups.remove(0);
        proof {
            assert(groups@ =~= groups0.skip(3));
            assert(attr_anyxml == groups0[2]);
        }
        let (got_anyxml, bad_anyxml) = map_many_any_data_or_xml(attr_anyxml, Ghost(s0), ctx);
        if bad_anyxml {
            failed = true;
        }
        let attr_choice = groups.remove(0);
        proof {
            assert(groups@ =~= groups0.skip(4));
            assert(attr_choice == groups0[3]);
        }
        let (got_choice, bad_choice) = map_many_choice(attr_choice, Ghost(s0), ctx);
        if bad_choice {
            failed = true;
        }
        let attr_container = groups.remove(0);
        proof {
            assert(groups@ =~= groups0.skip(5));
            assert(attr_container == groups0[4]);
        }
        let (got_container, bad_container) = map_many_container(attr_container, Ghost(s0), ctx);
        if bad_container {
            failed = true;
        }
        let attr_description = groups.remove(0);
        proof {
            assert(groups@ =~= groups0.skip(6));
            assert(attr_description == groups0[5]);
        }
        let (got_description, bad_description) = map_single_string(attr_description, ctx);
        if bad_description {
            failed = true;
        }
        let attr_grouping = groups.remove(0);
        proof {
            assert(groups@ =~= groups0.skip(7));
            assert(attr_grouping == groups0[6]);
        }
        let (got_grouping, bad_grouping) = map_many_grouping(attr_grouping, Ghost(s0), ctx);
        if bad_grouping {
            failed = true;
        }
        let attr_leaf = groups.remove(0);
        proof {
            assert(groups@ =~= groups0.skip(8));
            assert(attr_leaf == groups0[7]);
        }
        let (got_leaf, bad_leaf) = map_many_leaf(attr_leaf, Ghost(s0), ctx);
        if bad_leaf {
            failed = true;
        }
        let attr_leaf_list = groups.remove(0);
        proof {
            assert(groups@ =~= groups0.skip(9));
            assert(attr_leaf_list == groups0[8]);
        }
        let (got_leaf_list, bad_leaf_list) = map_many_leaf_list(attr_leaf_list, Ghost(s0), ctx);
        if bad_leaf_list {
            failed = true;
        }
        let attr_list = groups.remove(0);
        proof {
            assert(groups@ =~= groups0.skip(10));
            assert(attr_list == groups0[9]);
        }
        let (got_list, bad_list) = map_many_list(attr_list, Ghost(s0), ctx);
        if bad_list {
            failed = true;
        }
        let attr_notification = groups.remove(0);
        proof {
            assert(groups@ =~= groups0.skip(11));
            assert(attr_notification == groups0[10]);
        }
        let (got_notification, bad_notification) = map_many_notification(attr_notification, Ghost(s0), ctx);
        if bad_notification {
            failed = true;
        }
        let attr_reference = groups.remove(0);
        proof {
            assert(groups@ =~= groups0.skip(12));
            assert(attr_reference == groups0[11]);
        }
        let (got_reference, bad_reference) = map_single_string(attr_reference, ctx);
        if bad_reference {
            failed = true;
        }
        let attr_status = groups.remove(0);
        proof {
            assert(groups@ =~= groups0.skip(13));
            assert(attr_status == groups0[12]);
        }
        let (got_status, bad_status) = map_single_status(attr_status, ctx);
        if bad_status {
            failed = true;
        }
        let attr_typedef = groups.remove(0);
        proof {
            assert(groups@ =~= groups0.skip(14));
            assert(attr_typedef == groups0[13]);
        }
        let (got_typedef, bad_typedef) = map_many_typedef(attr_typedef, Ghost(s0), ctx);
        if bad_typedef {
            failed = true;
        }
        let attr_uses = groups.remove(0);
        proof {
            assert(groups@ =~= groups0.skip(15));
            assert(attr_uses == groups0[14]);
        }
        let (got_uses, bad_uses) = map_many_uses(attr_uses, Ghost(s0), ctx);
        if bad_uses {
            failed = true;
        }
        if failed {
            return Err(());
        }
        Ok(Grouping {
            name: name.unwrap(),
            action: got_action,
            anydata: got_anydata,
            anyxml: got_anyxml,
            choice: got_choice,
            container: got_container,
            description: got_description,
            grouping: got_grouping,
            leaf: got_leaf,
            leaf_list: got_leaf_list,
            list: got_list,
            notification: got_notification,
            reference: got_reference,
            status: got_status,
            typedef: got_typedef,
            uses: got_uses,
        })
    }
}

/// Typed node for the `leaf` construct.
#[derive(Debug)]
pub struct Leaf {
    pub name: String,
    pub config: Option<bool>,
    pub default: Option<String>,
    pub description: Option<String>,
    pub if_feature: Vec<String>,
    pub must: Vec<String>,
    pub reference: Option<String>,
    pub status: Option<Status>,
    pub type_: Type,
    pub units: Option<String>,
    pub when: Option<String>,
    pub mandatory: Option<bool>,
}

impl Leaf {
    pub fn map(stmt: Statement, ctx: &mut ErrorContext) -> (r: Result<Leaf, ()>)
        ensures
            num_errors(final(ctx)@) >= num_errors(old(ctx)@),
            num_warnings(final(ctx)@) >= num_warnings(old(ctx)@),
            r is Err ==> num_errors(final(ctx)@) > num_errors(old(ctx)@),
            r is Ok ==> num_errors(final(ctx)@) == num_errors(old(ctx)@),
            r is Ok ==> stmt.keyword@ == "leaf"@,
            r is Ok ==> (stmt.argument matches Some(a) && (r->Ok_0).name == a),
        decreases stmt, 1int,
    {
        let ghost s0 = stmt;
        if !str_eq(stmt.keyword.as_str(), "leaf") {
            let msg = String::from_str("Expected \"leaf\" keyword");
            ctx.add_error(stmt.argument_span, msg);
            return Err(());
        }
        let Statement { keyword_span, keyword: _, argument_span, argument, statements } = stmt;
        let mut failed = false;
        let name: Option<String> = match argument {
            Some(a) => match <String as ArgumentMapper>::map_argument(a, argument_span, ctx) {
                Ok(v) => Some(v),
                Err(()) => {
                    failed = true;
                    None
                },
            },
            None => {
                let msg = String::from_str("Expected name argument");
                ctx.add_error(argument_span, msg);
                failed = true;
                None
            },
        };
        let mut specs: Vec<AttrSpec> = Vec::new();
        push_spec(&mut specs, "config", Card::Opt);
        push_spec(&mut specs, "default", Card::Opt);
        push_spec(&mut specs, "description", Card::Opt);
        push_spec(&mut specs, "if-feature", Card::Many);
        push_spec(&mut specs, "must", Card::Many);
        push_spec(&mut specs, "reference", Card::Opt);
        push_spec(&mut specs, "status", Card::Opt);
        push_spec(&mut specs, "type", Card::One);
        push_spec(&mut specs, "units", Card::Opt);
        push_spec(&mut specs, "when", Card::Opt);
        push_spec(&mut specs, "mandatory", Card::Opt);
        let (mut groups, gc_ok) = group_children(statements, &specs, keyword_span, ctx);
        if !gc_ok {
            failed = true;
        }
        let ghost groups0 = groups@;
        proof {
            assert forall|gg: int, ii: int|
                0 <= gg < groups0.len() && 0 <= ii < groups0[gg]@.len() implies decreases_to!(
                s0 => #[trigger] groups0[gg]@[ii]) by {
                let k = choose|k: int|
                    0 <= k < s0.statements@.len() && groups0[gg]@[ii] == s0.statements@[k];
                assert(decreases_to!(s0 => s0.statements));
                assert(decreases_to!(s0.statements => s0.statements@[k]));
            }
        }
        let attr_config = groups.remove(0);
        proof {
            assert(groups@ =~= groups0.skip(1));
            assert(attr_config == groups0[0]);
        }
        let (got_config, bad_config) = map_single_bool(attr_config, ctx);
        if bad_config {
            failed = true;
        }
        let attr_default = groups.remove(0);
        proof {
            assert(groups@ =~= groups0.skip(2));
            assert(attr_default == groups0[1]);
        }
        let (got_default, bad_default) = map_single_string(attr_default, ctx);
        if bad_default {
            failed = true;
        }
        let attr_description = groups.remove(0);
        proof {
            assert(groups@ =~= groups0.skip(3));
            assert(attr_description == groups0[2]);
        }
        let (got_description, bad_description) = map_single_string(attr_description, ctx);
        if bad_description {
            failed = true;
        }
        let attr_if_feature = groups.remove(0);
        proof {
            assert(groups@ =~= groups0.skip(4));
            assert(attr_if_feature == groups0[3]);
        }
        let (got_if_feature, bad_if_feature) = map_many_string(attr_if_feature, ctx);
        if bad_if_feature {
            failed = true;
        }
        let attr_must = groups.remove(0);
        proof {
            assert(groups@ =~= groups0.skip(5));
            assert(attr_must == groups0[4]);
        }
        let (got_must, bad_must) = map_many_string(attr_must, ctx);
        if bad_must {
            failed = true;
        }
        let attr_reference = groups.remove(0);
        proof {
            assert(groups@ =~= groups0.skip(6));
            assert(attr_reference == groups0[5]);
        }
        let (got_reference, bad_reference) = map_single_string(attr_reference, ctx);
        if bad_reference {
            failed = true;
        }
        let attr_status = groups.remove(0);
        proof {
            assert(groups@ =~= groups0.skip(7));
            assert(attr_status == groups0[6]);
        }
        let (got_status, bad_status) = map_single_status(attr_status, ctx);
        if bad_status {
            failed = true;
        }
        let attr_type_ = groups.remove(0);
        proof {
            assert(groups@ =~= groups0.skip(8));
            assert(attr_type_ == groups0[7]);
        }
        let (got_type_, bad_type_) = map_single_type(attr_type_, Ghost(s0), ctx);
        if bad_type_ {
            failed = true;
        }
        let attr_units = groups.remove(0);
        proof {
            assert(groups@ =~= groups0.skip(9));
            assert(attr_units == groups0[8]);
        }
        let (got_units, bad_units) = map_single_string(attr_units, ctx);
        if bad_units {
            failed = true;
        }
        let attr_when = groups.remove(0);
        proof {
            assert(groups@ =~= groups0.skip(10));
            assert(attr_when == groups0[9]);
        }
        let (got_when, bad_when) = map_single_string(attr_when, ctx);
        if bad_when {
            failed = true;
        }
        let attr_mandatory = groups.remove(0);
        proof {
            assert(groups@ =~= groups0.skip(11));
            assert(attr_mandatory == groups0[10]);
        }
        let (got_mandatory, bad_mandatory) = map_single_bool(attr_mandatory, ctx);
        if bad_mandatory {
            failed = true;
        }
        if failed {
            return Err(());
        }
        Ok(Leaf {
            name: name.unwrap(),
            config: got_config,
            default: got_default,
            description: got_description,
            if_feature: got_if_feature,
            must: got_must,
            reference: got_reference,
            status: got_status,
            type_: got_type_.unwrap(),
            units: got_units,
            when: got_when,
            mandatory: got_mandatory,
        })
    }
}

/// Typed node for the `leaf-list` construct.
#[derive(Debug)]
pub struct LeafList {
    pub name: String,
    pub config: Option<bool>,
    pub default: Vec<String>,
    pub description: Option<String>,
    pub if_feature: Vec<String>,
    pub must: Vec<String>,
    pub reference: Option<String>,
    pub status: Option<Status>,
    pub type_: Type,
    pub units: Option<String>,
    pub when: Option<String>,
    pub max_elements: Option<String>,
    pub min_elements: Option<String>,
}

impl LeafList {
    pub fn map(stmt: Statement, ctx: &mut ErrorContext) -> (r: Result<LeafList, ()>)
        ensures
            num_errors(final(ctx)@) >= num_errors(old(ctx)@),
            num_warnings(final(ctx)@) >= num_warnings(old(ctx)@),
            r is Err ==> num_errors(final(ctx)@) > num_errors(old(ctx)@),
            r is Ok ==> num_errors(final(ctx)@) == num_errors(old(ctx)@),
            r is Ok ==> stmt.keyword@ == "leaf-list"@,
            r is Ok ==> (stmt.argument matches Some(a) && (r->Ok_0).name == a),
        decreases stmt, 1int,
    {
        let ghost s0 = stmt;
        if !str_eq(stmt.keyword.as_str(), "leaf-list") {
            let msg = String::from_str("Expected \"leaf-list\" keyword");
            ctx.add_error(stmt.argument_span, msg);
            return Err(());
        }
        let Statement { keyword_span, keyword: _, argument_span, argument, statements } = stmt;
        let mut failed = false;
        let name: Option<String> = match argument {
            Some(a) => match <String as ArgumentMapper>::map_argument(a, argument_span, ctx) {
                Ok(v) => Some(v),
                Err(()) => {
                    failed = true;
                    None
                },
            },
            None => {
                let msg = String::from_str("Expected name argument");
                ctx.add_error(argument_span, msg);
                failed = true;
                None
            },
        };
        let mut specs: Vec<AttrSpec> = Vec::new();
        push_spec(&mut specs, "config", Card::Opt);
        push_spec(&mut specs, "default", Card::Many);
        push_spec(&mut specs, "description", Card::Opt);
        push_spec(&mut specs, "if-feature", Card::Many);
        push_spec(&mut specs, "must", Card::Many);
        push_spec(&mut specs, "reference", Card::Opt);
        push_spec(&mut specs, "status", Card::Opt);
        push_spec(&mut specs, "type", Card::One);
        push_spec(&mut specs, "units", Card::Opt);
        push_spec(&mut specs, "when", Card::Opt);
        push_spec(&mut specs, "max-elements", Card::Opt);
        push_spec(&mut specs, "min-elements", Card::Opt);
        let (mut groups, gc_ok) = group_children(statements, &specs, keyword_span, ctx);
        if !gc_ok {
            failed = true;
        }
        let ghost groups0 = groups@;
        proof {
            assert forall|gg: int, ii: int|
                0 <= gg < groups0.len() && 0 <= ii < groups0[gg]@.len() implies decreases_to!(
                s0 => #[trigger] groups0[gg]@[ii]) by {
                let k = choose|k: int|
                    0 <= k < s0.statements@.len() && groups0[gg]@[ii] == s0.statements@[k];
                assert(decreases_to!(s0 => s0.statements));
                assert(decreases_to!(s0.statements => s0.statements@[k]));
            }
        }
        let attr_config = groups.remove(0);
        proof {
            assert(groups@ =~= groups0.skip(1));
            assert(attr_config == groups0[0]);
        }
        let (got_config, bad_config) = map_single_bool(attr_config, ctx);
        if bad_config {
            failed = true;
        }
        let attr_default = groups.remove(0);
        proof {
            assert(groups@ =~= groups0.skip(2));
            assert(attr_default == groups0[1]);
        }
        let (got_default, bad_default) = map_many_string(attr_default, ctx);
        if bad_default {
            failed = true;
        }
        let attr_description = groups.remove(0);
        proof {
            assert(groups@ =~= groups0.skip(3));
            assert(attr_description == groups0[2]);
        }
        let (got_description, bad_description) = map_single_string(attr_description, ctx);
        if bad_description {
            failed = true;
        }
        let attr_if_feature = groups.remove(0);
        proof {
            assert(groups@ =~= groups0.skip(4));
            assert(attr_if_feature == groups0[3]);
        }
        let (got_if_feature, bad_if_feature) = map_many_string(attr_if_feature, ctx);
        if bad_if_feature {
            failed = true;
        }
        let attr_must = groups.remove(0);
        proof {
            assert(groups@ =~= groups0.skip(5));
            assert(attr_must == groups0[4]);
        }
        let (got_must, bad_must) = map_many_string(attr_must, ctx);
        if bad_must {
            failed = true;
        }
        let attr_reference = groups.remove(0);
        proof {
            assert(groups@ =~= groups0.skip(6));
            assert(attr_reference == groups0[5]);
        }
        let (got_reference, bad_reference) = map_single_string(attr_reference, ctx);
        if bad_reference {
            failed = true;
        }
        let attr_status = groups.remove(0);
        proof {
            assert(groups@ =~= groups0.skip(7));
            assert(attr_status == groups0[6]);
        }
        let (got_status, bad_status) = map_single_status(attr_status, ctx);
        if bad_status {
            failed = true;
        }
        let attr_type_ = groups.remove(0);
        proof {
            assert(groups@ =~= groups0.skip(8));
            assert(attr_type_ == groups0[7]);
        }
        let (got_type_, bad_type_) = map_single_type(attr_type_, Ghost(s0), ctx);
        if bad_type_ {
            failed = true;
        }
        let attr_units = groups.remove(0);
        proof {
            assert(groups@ =~= groups0.skip(9));
            assert(attr_units == groups0[8]);
        }
        let (got_units, bad_units) = map_single_string(attr_units, ctx);
        if bad_units {
            failed = true;
        }
        let attr_when = groups.remove(0);
        proof {
            assert(groups@ =~= groups0.skip(10));
            assert(attr_when == groups0[9]);
        }
        let (got_when, bad_when) = map_single_string(attr_when, ctx);
        if bad_when {
            failed = true;
        }
        let attr_max_elements = groups.remove(0);
        proof {
            assert(groups@ =~= groups0.skip(11));
            assert(attr_max_elements == groups0[10]);
        }
        let (got_max_elements, bad_max_elements) = map_single_string(attr_max_elements, ctx);
        if bad_max_elements {
            failed = true;
        }
        let attr_min_elements = groups.remove(0);
        proof {
            assert(groups@ =~= groups0.skip(12));
            assert(attr_min_elements == groups0[11]);
        }
        let (got_min_elements, bad_min_elements) = map_single_string(attr_min_elements, ctx);
        if bad_min_elements {
            failed = true;
        }
        if failed {
            return Err(());
        }
        Ok(LeafList {
            name: name.unwrap(),
            config: got_config,
            default: got_default,
            description: got_description,
            if_feature: got_if_feature,
            must: got_must,
            reference: got_reference,
            status: got_status,
            type_: got_type_.unwrap(),
            units: got_units,
            when: got_when,
            max_elements: got_max_elements,
            min_elements: got_min_elements,
        })
    }
}

/// Typed node for the `anydata` construct (and its synonym).
#[derive(Debug)]
pub struct AnyDataOrXml {
    pub name: String,
    pub config: Option<bool>,
    pub description: Option<String>,
    pub if_feature: Vec<String>,
    pub mandatory: Option<bool>,
    pub must: Vec<String>,
    pub reference: Option<String>,
    pub status: Option<Status>,
    pub when: Option<String>,
}

impl AnyDataOrXml {
    pub fn map(stmt: Statement, ctx: &mut ErrorContext) -> (r: Result<AnyDataOrXml, ()>)
        ensures
            num_errors(final(ctx)@) >= num_errors(old(ctx)@),
            num_warnings(final(ctx)@) >= num_warnings(old(ctx)@),
            r is Err ==> num_errors(final(ctx)@) > num_errors(old(ctx)@),
            r is Ok ==> num_errors(final(ctx)@) == num_errors(old(ctx)@),
            r is Ok ==> stmt.keyword@ == "anydata"@ || stmt.keyword@ == "anyxml"@,
            r is Ok ==> (stmt.argument matches Some(a) && (r->Ok_0).name == a),
        decreases stmt, 1int,
    {
        let ghost s0 = stmt;
        if !str_eq(stmt.keyword.as_str(), "anydata") && !str_eq(stmt.keyword.as_str(), "anyxml") {
            let msg = String::from_str("Expected \"anydata\" | \"anyxml\" keyword");
            ctx.add_error(stmt.argument_span, msg);
            return Err(());
        }
        let Statement { keyword_span, keyword: _, argument_span, argument, statements } = stmt;
        let mut failed = false;
        let name: Option<String> = match argument {
            Some(a) => match <String as ArgumentMapper>::map_argument(a, argument_span, ctx) {
                Ok(v) => Some(v),
                Err(()) => {
                    failed = true;
                    None
                },
            },
            None => {
                let msg = String::from_str("Expected name argument");
                ctx.add_error(argument_span, msg);
                failed = true;
                None
            },
        };
        let mut specs: Vec<AttrSpec> = Vec::new();
        push_spec(&mut specs, "config", Card::Opt);
        push_spec(&mut specs, "description", Card::Opt);
        push_spec(&mut specs, "if-feature", Card::Many);
        push_spec(&mut specs, "mandatory", Card::Opt);
        push_spec(&mut specs, "must", Card::Many);
        push_spec(&mut specs, "reference", Card::Opt);
        push_spec(&mut specs, "status", Card::Opt);
        push_spec(&mut specs, "when", Card::Opt);
        let (mut groups, gc_ok) = group_children(statements, &specs, keyword_span, ctx);
        if !gc_ok {
            failed = true;
        }
        let ghost groups0 = groups@;
        proof {
            assert forall|gg: int, ii: int|
                0 <= gg < groups0.len() && 0 <= ii < groups0[gg]@.len() implies decreases_to!(
                s0 => #[trigger] groups0[gg]@[ii]) by {
                let k = choose|k: int|
                    0 <= k < s0.statements@.len() && groups0[gg]@[ii] == s0.statements@[k];
                assert(decreases_to!(s0 => s0.statements));
                assert(decreases_to!(s0.statements => s0.statements@[k]));
            }
        }
        let attr_config = groups.remove(0);
        proof {
            assert(groups@ =~= groups0.skip(1));
            assert(attr_config == groups0[0]);
        }
        let (got_config, bad_config) = map_single_bool(attr_config, ctx);
        if bad_config {
            failed = true;
        }
        let attr_description = groups.remove(0);
        proof {
            assert(groups@ =~= groups0.skip(2));
            assert(attr_description == groups0[1]);
        }
        let (got_description, bad_description) = map_single_string(attr_description, ctx);
        if bad_description {
            failed = true;
        }
        let attr_if_feature = groups.remove(0);
        proof {
            assert(groups@ =~= groups0.skip(3));
            assert(attr_if_feature == groups0[2]);
        }
        let (got_if_feature, bad_if_feature) = map_many_string(attr_if_feature, ctx);
        if bad_if_feature {
            failed = true;
        }
        let attr_mandatory = groups.remove(0);
        proof {
            assert(groups@ =~= groups0.skip(4));
            assert(attr_mandatory == groups0[3]);
        }
        let (got_mandatory, bad_mandatory) = map_single_bool(attr_mandatory, ctx);
        if bad_mandatory {
            failed = true;
        }
        let attr_must = groups.remove(0);
        proof {
            assert(groups@ =~= groups0.skip(5));
            assert(attr_must == groups0[4]);
        }
        let (got_must, bad_must) = map_many_string(attr_must, ctx);
        if bad_must {
            failed = true;
        }
        let attr_reference = groups.remove(0);
        proof {
            assert(groups@ =~= groups0.skip(6));
            assert(attr_reference == groups0[5]);
        }
        let (got_reference, bad_reference) = map_single_string(attr_reference, ctx);
        if bad_reference {
            failed = true;
        }
        let attr_status = groups.remove(0);
        proof {
            assert(groups@ =~= groups0.skip(7));
            assert(attr_status == groups0[6]);
        }
        let (got_status, bad_status) = map_single_status(attr_status, ctx);
        if bad_status {
            failed = true;
        }
        let attr_when = groups.remove(0);
        proof {
            assert(groups@ =~= groups0.skip(8));
            assert(attr_when == groups0[7]);
        }
        let (got_when, bad_when) = map_single_string(attr_when, ctx);
        if bad_when {
            failed = true;
        }
        if failed {
            return Err(());
        }
        Ok(AnyDataOrXml {
            name: name.unwrap(),
            config: got_config,
            description: got_description,
            if_feature: got_if_feature,
            mandatory: got_mandatory,
            must: got_must,
            reference: got_reference,
            status: got_status,
            when: got_when,
        })
    }
}

/// Typed node for the `input` construct (and its synonym).
#[derive(Debug)]
pub struct InOutput {
    pub anydata: Vec<AnyDataOrXml>,
    pub anyxml: Vec<AnyDataOrXml>,
    pub choice: Vec<Choice>,
    pub container: Vec<Container>,
    pub grouping: Vec<Grouping>,
    pub leaf: Vec<Leaf>,
    pub leaf_list: Vec<LeafList>,
    pub list: Vec<List>,
    pub must: Vec<String>,
    pub typedef: Vec<Typedef>,
    pub uses: Vec<Uses>,
}

impl InOutput {
    pub fn map(stmt: Statement, ctx: &mut ErrorContext) -> (r: Result<InOutput, ()>)
        ensures
            num_errors(final(ctx)@) >= num_errors(old(ctx)@),
            num_warnings(final(ctx)@) >= num_warnings(old(ctx)@),
            r is Err ==> num_errors(final(ctx)@) > num_errors(old(ctx)@),
            r is Ok ==> num_errors(final(ctx)@) == num_errors(old(ctx)@),
            r is Ok ==> stmt.keyword@ == "input"@ || stmt.keyword@ == "output"@,
        decreases stmt, 1int,
    {
        let ghost s0 = stmt;
        if !str_eq(stmt.keyword.as_str(), "input") && !str_eq(stmt.keyword.as_str(), "output") {
            let msg = String::from_str("Expected \"input\" | \"output\" keyword");
            ctx.add_error(stmt.argument_span, msg);
            return Err(());
        }
        let Statement { keyword_span, keyword: _, argument_span, argument: _, statements } = stmt;
        let mut failed = false;
        let mut specs: Vec<AttrSpec> = Vec::new();
        push_spec(&mut specs, "anydata", Card::Many);
        push_spec(&mut specs, "anyxml", Card::Many);
        push_spec(&mut specs, "choice", Card::Many);
        push_spec(&mut specs, "container", Card::Many);
        push_spec(&mut specs, "grouping", Card::Many);
        push_spec(&mut specs, "leaf", Card::Many);
        push_spec(&mut specs, "leaf-list", Card::Many);
        push_spec(&mut specs, "list", Card::Many);
        push_spec(&mut specs, "must", Card::Many);
        push_spec(&mut specs, "typedef", Card::Many);
        push_spec(&mut specs, "uses", Card::Many);
        let (mut groups, gc_ok) = group_children(statements, &specs, keyword_span, ctx);
        if !gc_ok {
            failed = true;
        }
        let ghost groups0 = groups@;
        proof {
            assert forall|gg: int, ii: int|
                0 <= gg < groups0.len() && 0 <= ii < groups0[gg]@.len() implies decreases_to!(
                s0 => #[trigger] groups0[gg]@[ii]) by {
                let k = choose|k: int|
                    0 <= k < s0.statements@.len() && groups0[gg]@[ii] == s0.statements@[k];
                assert(decreases_to!(s0 => s0.statements));
                assert(decreases_to!(s0.statements => s0.statements@[k]));
            }
        }
        let attr_anydata = groups.remove(0);
        proof {
            assert(groups@ =~= groups0.skip(1));
            assert(attr_anydata == groups0[0]);
        }
        let (got_anydata, bad_anydata) = map_many_any_data_or_xml(attr_anydata, Ghost(s0), ctx);
        if bad_anydata {
            failed = true;
        }
        let attr_anyxml = groups.remove(0);
        proof {
            assert(groups@ =~= groups0.skip(2));
            assert(attr_anyxml == groups0[1]);
        }
        let (got_anyxml, bad_anyxml) = map_many_any_data_or_xml(attr_anyxml, Ghost(s0), ctx);
        if bad_anyxml {
            failed = true;
        }
        let attr_choice = groups.remove(0);
        proof {
            assert(groups@ =~= groups0.skip(3));
            assert(attr_choice == groups0[2]);
        }
        let (got_choice, bad_choice) = map_many_choice(attr_choice, Ghost(s0), ctx);
        if bad_choice {
            failed = true;
        }
        let attr_container = groups.remove(0);
        proof {
            assert(groups@ =~= groups0.skip(4));
            assert(attr_container == groups0[3]);
        }
        let (got_container, bad_container) = map_many_container(attr_container, Ghost(s0), ctx);
        if bad_container {
            failed = true;
        }
        let attr_grouping = groups.remove(0);
        proof {
            assert(groups@ =~= groups0.skip(5));
            assert(attr_grouping == groups0[4]);
        }
        let (got_grouping, bad_grouping) = map_many_grouping(attr_grouping, Ghost(s0), ctx);
        if bad_grouping {
            failed = true;
        }
        let attr_leaf = groups.remove(0);
        proof {
            assert(groups@ =~= groups0.skip(6));
            assert(attr_leaf == groups0[5]);
        }
        let (got_leaf, bad_leaf) = map_many_leaf(attr_leaf, Ghost(s0), ctx);
        if bad_leaf {
            failed = true;
        }
        let attr_leaf_list = groups.remove(0);
        proof {
            assert(groups@ =~= groups0.skip(7));
            assert(attr_leaf_list == groups0[6]);
        }
        let (got_leaf_list, bad_leaf_list) = map_many_leaf_list(attr_leaf_list, Ghost(s0), ctx);
        if bad_leaf_list {
            failed = true;
        }
        let attr_list = groups.remove(0);
        proof {
            assert(groups@ =~= groups0.skip(8));
            assert(attr_list == groups0[7]);
        }
        let (got_list, bad_list) = map_many_list(attr_list, Ghost(s0), ctx);
        if bad_list {
            failed = true;
        }
        let attr_must = groups.remove(0);
        proof {
            assert(groups@ =~= groups0.skip(9));
            assert(attr_must == groups0[8]);
        }
        let (got_must, bad_must) = map_many_string(attr_must, ctx);
        if bad_must {
            failed = true;
        }
        let attr_typedef = groups.remove(0);
        proof {
            assert(groups@ =~= groups0.skip(10));
            assert(attr_typedef == groups0[9]);
        }
        let (got_typedef, bad_typedef) = map_many_typedef(attr_typedef, Ghost(s0), ctx);
        if bad_typedef {
            failed = true;
        }
        let attr_uses = groups.remove(0);
        proof {
            assert(groups@ =~= groups0.skip(11));
            assert(attr_uses == groups0[10]);
        }
        let (got_uses, bad_uses) = map_many_uses(attr_uses, Ghost(s0), ctx);
        if bad_uses {
            failed = true;
        }
        if failed {
            return Err(());
        }
        Ok(InOutput {
            anydata: got_anydata,
            anyxml: got_anyxml,
            choice: got_choice,
            container: got_container,
            grouping: got_grouping,
            leaf: got_leaf,
            leaf_list: got_leaf_list,
            list: got_list,
            must: got_must,
            typedef: got_typedef,
            uses: got_uses,
        })
    }
}

/// Typed node for the `action` construct (and its synonym).
#[derive(Debug)]
pub struct ActionOrRpc {
    pub name: String,
    pub description: Option<String>,
    pub grouping: Vec<Grouping>,
    pub if_feature: Vec<String>,
    pub input: Option<InOutput>,
    pub output: Option<InOutput>,
    pub reference: Option<String>,
    pub status: Option<Status>,
    pub typedef: Vec<Typedef>,
}

impl ActionOrRpc {
    pub fn map(stmt: Statement, ctx: &mut ErrorContext) -> (r: Result<ActionOrRpc, ()>)
        ensures
            num_errors(final(ctx)@) >= num_errors(old(ctx)@),
            num_warnings(final(ctx)@) >= num_warnings(old(ctx)@),
            r is Err ==> num_errors(final(ctx)@) > num_errors(old(ctx)@),
            r is Ok ==> num_errors(final(ctx)@) == num_errors(old(ctx)@),
            r is Ok ==> stmt.keyword@ == "action"@ || stmt.keyword@ == "rpc"@,
            r is Ok ==> (stmt.argument matches Some(a) && (r->Ok_0).name == a),
        decreases stmt, 1int,
    {
        let ghost s0 = stmt;
        if !str_eq(stmt.keyword.as_str(), "action") && !str_eq(stmt.keyword.as_str(), "rpc") {
            let msg = String::from_str("Expected \"action\" | \"rpc\" keyword");
            ctx.add_error(stmt.argument_span, msg);
            return Err(());
        }
        let Statement { keyword_span, keyword: _, argument_span, argument, statements } = stmt;
        let mut failed = false;
        let name: Option<String> = match argument {
            Some(a) => match <String as ArgumentMapper>::map_argument(a, argument_span, ctx) {
                Ok(v) => Some(v),
                Err(()) => {
                    failed = true;
                    None
                },
            },
            None => {
                let msg = String::from_str("Expected name argument");
                ctx.add_error(argument_span, msg);
                failed = true;
                None
            },
        };
        let mut specs: Vec<AttrSpec> = Vec::new();
        push_spec(&mut specs, "description", Card::Opt);
        push_spec(&mut specs, "grouping", Card::Many);
        push_spec(&mut specs, "if-feature", Card::Many);
        push_spec(&mut specs, "input", Card::Opt);
        push_spec(&mut specs, "output", Card::Opt);
        push_spec(&mut specs, "reference", Card::Opt);
        push_spec(&mut specs, "status", Card::Opt);
        push_spec(&mut specs, "typedef", Card::Many);
        let (mut groups, gc_ok) = group_children(statements, &specs, keyword_span, ctx);
        if !gc_ok {
            failed = true;
        }
        let ghost groups0 = groups@;
        proof {
            assert forall|gg: int, ii: int|
                0 <= gg < groups0.len() && 0 <= ii < groups0[gg]@.len() implies decreases_to!(
                s0 => #[trigger] groups0[gg]@[ii]) by {
                let k = choose|k: int|
                    0 <= k < s0.statements@.len() && groups0[gg]@[ii] == s0.statements@[k];
                assert(decreases_to!(s0 => s0.statements));
                assert(decreases_to!(s0.statements => s0.statements@[k]));
            }
        }
        let attr_description = groups.remove(0);
        proof {
            assert(groups@ =~= groups0.skip(1));
            assert(attr_description == groups0[0]);
        }
        let (got_description, bad_description) = map_single_string(attr_description, ctx);
        if bad_description {
            failed = true;
        }
        let attr_grouping = groups.remove(0);
        proof {
            assert(groups@ =~= groups0.skip(2));
            assert(attr_grouping == groups0[1]);
        }
        let (got_grouping, bad_grouping) = map_many_grouping(attr_grouping, Ghost(s0), ctx);
        if bad_grouping {
            failed = true;
        }
        let attr_if_feature = groups.remove(0);
        proof {
            assert(groups@ =~= groups0.skip(3));
            assert(attr_if_feature == groups0[2]);
        }
        let (got_if_feature, bad_if_feature) = map_many_string(attr_if_feature, ctx);
        if bad_if_feature {
            failed = true;
        }
        let attr_input = groups.remove(0);
        proof {
            assert(groups@ =~= groups0.skip(4));
            assert(attr_input == groups0[3]);
        }
        let (got_input, bad_input) = map_single_in_output(attr_input, Ghost(s0), ctx);
        if bad_input {
            failed = true;
        }
        let attr_output = groups.remove(0);
        proof {
            assert(groups@ =~= groups0.skip(5));
            assert(attr_output == groups0[4]);
        }
        let (got_output, bad_output) = map_single_in_output(attr_output, Ghost(s0), ctx);
        if bad_output {
            failed = true;
        }
        let attr_reference = groups.remove(0);
        proof {
            assert(groups@ =~= groups0.skip(6));
            assert(attr_reference == groups0[5]);
        }
        let (got_reference, bad_reference) = map_single_string(attr_reference, ctx);
        if bad_reference {
            failed = true;
        }
        let attr_status = groups.remove(0);
        proof {
            assert(groups@ =~= groups0.skip(7));
            assert(attr_status == groups0[6]);
        }
        let (got_status, bad_status) = map_single_status(attr_status, ctx);
        if bad_status {
            failed = true;
        }
        let attr_typedef = groups.remove(0);
        proof {
            assert(groups@ =~= groups0.skip(8));
            assert(attr_typedef == groups0[7]);
        }
        let (got_typedef, bad_typedef) = map_many_typedef(attr_typedef, Ghost(s0), ctx);
        if bad_typedef {
            failed = true;
        }
        if failed {
            return Err(());
        }
        Ok(ActionOrRpc {
            name: name.unwrap(),
            description: got_description,
            grouping: got_grouping,
            if_feature: got_if_feature,
            input: got_input,
            output: got_output,
            reference: got_reference,
            status: got_status,
            typedef: got_typedef,
        })
    }
}

/// Typed node for the `refine` construct.
#[derive(Debug)]
pub struct Refine {
    pub target: String,
    pub action: Vec<ActionOrRpc>,
    pub anydata: Vec<AnyDataOrXml>,
    pub anyxml: Vec<AnyDataOrXml>,
    pub case: Vec<Case>,
    pub choice: Vec<Choice>,
    pub container: Vec<Container>,
    pub description: Option<String>,
    pub if_feature: Vec<String>,
    pub leaf: Vec<Leaf>,
    pub leaf_list: Vec<LeafList>,
    pub list: Vec<List>,
    pub notification: Vec<Notification>,
    pub reference: Option<String>,
    pub status: Option<Status>,
    pub uses: Vec<Uses>,
    pub when: Option<String>,
}

impl Refine {
    pub fn map(stmt: Statement, ctx: &mut ErrorContext) -> (r: Result<Refine, ()>)
        ensures
            num_errors(final(ctx)@) >= num_errors(old(ctx)@),
            num_warnings(final(ctx)@) >= num_warnings(old(ctx)@),
            r is Err ==> num_errors(final(ctx)@) > num_errors(old(ctx)@),
            r is Ok ==> num_errors(final(ctx)@) == num_errors(old(ctx)@),
            r is Ok ==> stmt.keyword@ == "refine"@,
            r is Ok ==> (stmt.argument matches Some(a) && (r->Ok_0).target == a),
        decreases stmt, 1int,
    {
        let ghost s0 = stmt;
        if !str_eq(stmt.keyword.as_str(), "refine") {
            let msg = String::from_str("Expected \"refine\" keyword");
            ctx.add_error(stmt.argument_span, msg);
            return Err(());
        }
        let Statement { keyword_span, keyword: _, argument_span, argument, statements } = stmt;
        let mut failed = false;
        let target: Option<String> = match argument {
            Some(a) => match <String as ArgumentMapper>::map_argument(a, argument_span, ctx) {
                Ok(v) => Some(v),
                Err(()) => {
                    failed = true;
                    None
                },
            },
            None => {
                let msg = String::from_str("Expected target argument");
                ctx.add_error(argument_span, msg);
                failed = true;
                None
            },
        };
        let mut specs: Vec<AttrSpec> = Vec::new();
        push_spec(&mut specs, "action", Card::Many);
        push_spec(&mut specs, "anydata", Card::Many);
        push_spec(&mut specs, "anyxml", Card::Many);
        push_spec(&mut specs, "case", Card::Many);
        push_spec(&mut specs, "choice", Card::Many);
        push_spec(&mut specs, "container", Card::Many);
        push_spec(&mut specs, "description", Card::Opt);
        push_spec(&mut specs, "if-feature", Card::Many);
        push_spec(&mut specs, "leaf", Card::Many);
        push_spec(&mut specs, "leaf-list", Card::Many);
        push_spec(&mut specs, "list", Card::Many);
        push_spec(&mut specs, "notification", Card::Many);
        push_spec(&mut specs, "reference", Card::Opt);
        push_spec(&mut specs, "status", Card::Opt);
        push_spec(&mut specs, "uses", Card::Many);
        push_spec(&mut specs, "when", Card::Opt);
        let (mut groups, gc_ok) = group_children(statements, &specs, keyword_span, ctx);
        if !gc_ok {
            failed = true;
        }
        let ghost groups0 = groups@;
        proof {
            assert forall|gg: int, ii: int|
                0 <= gg < groups0.len() && 0 <= ii < groups0[gg]@.len() implies decreases_to!(
                s0 => #[trigger] groups0[gg]@[ii]) by {
                let k = choose|k: int|
                    0 <= k < s0.statements@.len() && groups0[gg]@[ii] == s0.statements@[k];
                assert(decreases_to!(s0 => s0.statements));
                assert(decreases_to!(s0.statements => s0.statements@[k]));
            }
        }
        let attr_action = groups.remove(0);
        proof {
            assert(groups@ =~= groups0.skip(1));
            assert(attr_action == groups0[0]);
        }
        let (got_action, bad_action) = map_many_action_or_rpc(attr_action, Ghost(s0), ctx);
        if bad_action {
            failed = true;
        }
        let attr_anydata = groups.remove(0);
        proof {
            assert(groups@ =~= groups0.skip(2));
            assert(attr_anydata == groups0[1]);
        }
        let (got_anydata, bad_anydata) = map_many_any_data_or_xml(attr_anydata, Ghost(s0), ctx);
        if bad_anydata {
            failed = true;
        }
        let attr_anyxml = groups.remove(0);
        proof {
            assert(groups@ =~= groups0.skip(3));
            assert(attr_anyxml == groups0[2]);
        }
        let (got_anyxml, bad_anyxml) = map_many_any_data_or_xml(attr_anyxml, Ghost(s0), ctx);
        if bad_anyxml {
            failed = true;
        }
        let attr_case = groups.remove(0);
        proof {
            assert(groups@ =~= groups0.skip(4));
            assert(attr_case == groups0[3]);
        }
        let (got_case, bad_case) = map_many_case(attr_case, Ghost(s0), ctx);
        if bad_case {
            failed = true;
        }
        let attr_choice = groups.remove(0);
        proof {
            assert(groups@ =~= groups0.skip(5));
            assert(attr_choice == groups0[4]);
        }
        let (got_choice, bad_choice) = map_many_choice(attr_choice, Ghost(s0), ctx);
        if bad_choice {
            failed = true;
        }
        let attr_container = groups.remove(0);
        proof {
            assert(groups@ =~= groups0.skip(6));
            assert(attr_container == groups0[5]);
        }
        let (got_container, bad_container) = map_many_container(attr_container, Ghost(s0), ctx);
        if bad_container {
            failed = true;
        }
        let attr_description = groups.remove(0);
        proof {
            assert(groups@ =~= groups0.skip(7));
            assert(attr_description == groups0[6]);
        }
        let (got_description, bad_description) = map_single_string(attr_description, ctx);
        if bad_description {
            failed = true;
        }
        let attr_if_feature = groups.remove(0);
        proof {
            assert(groups@ =~= groups0.skip(8));
            assert(attr_if_feature == groups0[7]);
        }
        let (got_if_feature, bad_if_feature) = map_many_string(attr_if_feature, ctx);
        if bad_if_feature {
            failed = true;
        }
        let attr_leaf = groups.remove(0);
        proof {
            assert(groups@ =~= groups0.skip(9));
            assert(attr_leaf == groups0[8]);
        }
        let (got_leaf, bad_leaf) = map_many_leaf(attr_leaf, Ghost(s0), ctx);
        if bad_leaf {
            failed = true;
        }
        let attr_leaf_list = groups.remove(0);
        proof {
            assert(groups@ =~= groups0.skip(10));
            assert(attr_leaf_list == groups0[9]);
        }
        let (got_leaf_list, bad_leaf_list) = map_many_leaf_list(attr_leaf_list, Ghost(s0), ctx);
        if bad_leaf_list {
            failed = true;
        }
        let attr_list = groups.remove(0);
        proof {
            assert(groups@ =~= groups0.skip(11));
            assert(attr_list == groups0[10]);
        }
        let (got_list, bad_list) = map_many_list(attr_list, Ghost(s0), ctx);
        if bad_list {
            failed = true;
        }
        let attr_notification = groups.remove(0);
        proof {
            assert(groups@ =~= groups0.skip(12));
            assert(attr_notification == groups0[11]);
        }
        let (got_notification, bad_notification) = map_many_notification(attr_notification, Ghost(s0), ctx);
        if bad_notification {
            failed = true;
        }
        let attr_reference = groups.remove(0);
        proof {
            assert(groups@ =~= groups0.skip(13));
            assert(attr_reference == groups0[12]);
        }
        let (got_reference, bad_reference) = map_single_string(attr_reference, ctx);
        if bad_reference {
            failed = true;
        }
        let attr_status = groups.remove(0);
        proof {
            assert(groups@ =~= groups0.skip(14));
            assert(attr_status == groups0[13]);
        }
        let (got_status, bad_status) = map_single_status(attr_status, ctx);
        if bad_status {
            failed = true;
        }
        let attr_uses = groups.remove(0);
        proof {
            assert(groups@ =~= groups0.skip(15));
            assert(attr_uses == groups0[14]);
        }
        let (got_uses, bad_uses) = map_many_uses(attr_uses, Ghost(s0), ctx);
        if bad_uses {
            failed = true;
        }
        let attr_when = groups.remove(0);
        proof {
            assert(groups@ =~= groups0.skip(16));
            assert(attr_when == groups0[15]);
        }
        let (got_when, bad_when) = map_single_string(attr_when, ctx);
        if bad_when {
            failed = true;
        }
        if failed {
            return Err(());
        }
        Ok(Refine {
            target: target.unwrap(),
            action: got_action,
            anydata: got_anydata,
            anyxml: got_anyxml,
            case: got_case,
            choice: got_choice,
            container: got_container,
            description: got_description,
            if_feature: got_if_feature,
            leaf: got_leaf,
            leaf_list: got_leaf_list,
            list: got_list,
            notification: got_notification,
            reference: got_reference,
            status: got_status,
            uses: got_uses,
            when: got_when,
        })
    }
}

/// Typed node for the `augment` construct.
#[derive(Debug)]
pub struct Augment {
    pub target: String,
    pub description: Option<String>,
    pub if_feature: Vec<String>,
    pub reference: Option<String>,
    pub status: Option<Status>,
    pub when: Option<String>,
}

impl Augment {
    pub fn map(stmt: Statement, ctx: &mut ErrorContext) -> (r: Result<Augment, ()>)
        ensures
            num_errors(final(ctx)@) >= num_errors(old(ctx)@),
            num_warnings(final(ctx)@) >= num_warnings(old(ctx)@),
            r is Err ==> num_errors(final(ctx)@) > num_errors(old(ctx)@),
            r is Ok ==> num_errors(final(ctx)@) == num_errors(old(ctx)@),
            r is Ok ==> stmt.keyword@ == "augment"@,
            r is Ok ==> (stmt.argument matches Some(a) && (r->Ok_0).target == a),
        decreases stmt, 1int,
    {
        let ghost s0 = stmt;
        if !str_eq(stmt.keyword.as_str(), "augment") {
            let msg = String::from_str("Expected \"augment\" keyword");
            ctx.add_error(stmt.argument_span, msg);
            return Err(());
        }
        let Statement { keyword_span, keyword: _, argument_span, argument, statements } = stmt;
        let mut failed = false;
        let target: Option<String> = match argument {
            Some(a) => match <String as ArgumentMapper>::map_argument(a, argument_span, ctx) {
                Ok(v) => Some(v),
                Err(()) => {
                    failed = true;
                    None
                },
            },
            None => {
                let msg = String::from_str("Expected target argument");
                ctx.add_error(argument_span, msg);
                failed = true;
                None
            },
        };
        let mut specs: Vec<AttrSpec> = Vec::new();
        push_spec(&mut specs, "description", Card::Opt);
        push_spec(&mut specs, "if-feature", Card::Many);
        push_spec(&mut specs, "reference", Card::Opt);
        push_spec(&mut specs, "status", Card::Opt);
        push_spec(&mut specs, "when", Card::Opt);
        let (mut groups, gc_ok) = group_children(statements, &specs, keyword_span, ctx);
        if !gc_ok {
            failed = true;
        }
        let ghost groups0 = groups@;
        proof {
            assert forall|gg: int, ii: int|
                0 <= gg < groups0.len() && 0 <= ii < groups0[gg]@.len() implies decreases_to!(
                s0 => #[trigger] groups0[gg]@[ii]) by {
                let k = choose|k: int|
                    0 <= k < s0.statements@.len() && groups0[gg]@[ii] == s0.statements@[k];
                assert(decreases_to!(s0 => s0.statements));
                assert(decreases_to!(s0.statements => s0.statements@[k]));
            }
        }
        let attr_description = groups.remove(0);
        proof {
            assert(groups@ =~= groups0.skip(1));
            assert(attr_description == groups0[0]);
        }
        let (got_description, bad_description) = map_single_string(attr_description, ctx);
        if bad_description {
            failed = true;
        }
        let attr_if_feature = groups.remove(0);
        proof {
            assert(groups@ =~= groups0.skip(2));
            assert(attr_if_feature == groups0[1]);
        }
        let (got_if_feature, bad_if_feature) = map_many_string(attr_if_feature, ctx);
        if bad_if_feature {
            failed = true;
        }
        let attr_reference = groups.remove(0);
        proof {
            assert(groups@ =~= groups0.skip(3));
            assert(attr_reference == groups0[2]);
        }
        let (got_reference, bad_reference) = map_single_string(attr_reference, ctx);
        if bad_reference {
            failed = true;
        }
        let attr_status = groups.remove(0);
        proof {
            assert(groups@ =~= groups0.skip(4));
            assert(attr_status == groups0[3]);
        }
        let (got_status, bad_status) = map_single_status(attr_status, ctx);
        if bad_status {
            failed = true;
        }
        let attr_when = groups.remove(0);
        proof {
            assert(groups@ =~= groups0.skip(5));
            assert(attr_when == groups0[4]);
        }
        let (got_when, bad_when) = map_single_string(attr_when, ctx);
        if bad_when {
            failed = true;
        }
        if failed {
            return Err(());
        }
        Ok(Augment {
            target: target.unwrap(),
            description: got_description,
            if_feature: got_if_feature,
            reference: got_reference,
            status: got_status,
            when: got_when,
        })
    }
}

/// Typed node for the `uses` construct.
#[derive(Debug)]
pub struct Uses {
    pub name: String,
    pub augment: Vec<Augment>,
    pub description: Option<String>,
    pub if_feature: Vec<String>,
    pub reference: Option<String>,
    pub refine: Vec<Refine>,
    pub status: Option<Status>,
    pub when: Option<String>,
}

impl Uses {
    pub fn map(stmt: Statement, ctx: &mut ErrorContext) -> (r: Result<Uses, ()>)
        ensures
            num_errors(final(ctx)@) >= num_errors(old(ctx)@),
            num_warnings(final(ctx)@) >= num_warnings(old(ctx)@),
            r is Err ==> num_errors(final(ctx)@) > num_errors(old(ctx)@),
            r is Ok ==> num_errors(final(ctx)@) == num_errors(old(ctx)@),
            r is Ok ==> stmt.keyword@ == "uses"@,
            r is Ok ==> (stmt.argument matches Some(a) && (r->Ok_0).name == a),
        decreases stmt, 1int,
    {
        let ghost s0 = stmt;
        if !str_eq(stmt.keyword.as_str(), "uses") {
            let msg = String::from_str("Expected \"uses\" keyword");
            ctx.add_error(stmt.argument_span, msg);
            return Err(());
        }
        let Statement { keyword_span, keyword: _, argument_span, argument, statements } = stmt;
        let mut failed = false;
        let name: Option<String> = match argument {
            Some(a) => match <String as ArgumentMapper>::map_argument(a, argument_span, ctx) {
                Ok(v) => Some(v),
                Err(()) => {
                    failed = true;
                    None
                },
            },
            None => {
                let msg = String::from_str("Expected name argument");
                ctx.add_error(argument_span, msg);
                failed = true;
                None
            },
        };
        let mut specs: Vec<AttrSpec> = Vec::new();
        push_spec(&mut specs, "augment", Card::Many);
        push_spec(&mut specs, "description", Card::Opt);
        push_spec(&mut specs, "if-feature", Card::Many);
        push_spec(&mut specs, "reference", Card::Opt);
        push_spec(&mut specs, "refine", Card::Many);
        push_spec(&mut specs, "status", Card::Opt);
        push_spec(&mut specs, "when", Card::Opt);
        let (mut groups, gc_ok) = group_children(statements, &specs, keyword_span, ctx);
        if !gc_ok {
            failed = true;
        }
        let ghost groups0 = groups@;
        proof {
            assert forall|gg: int, ii: int|
                0 <= gg < groups0.len() && 0 <= ii < groups0[gg]@.len() implies decreases_to!(
                s0 => #[trigger] groups0[gg]@[ii]) by {
                let k = choose|k: int|
                    0 <= k < s0.statements@.len() && groups0[gg]@[ii] == s0.statements@[k];
                assert(decreases_to!(s0 => s0.statements));
                assert(decreases_to!(s0.statements => s0.statements@[k]));
            }
        }
        let attr_augment = groups.remove(0);
        proof {
            assert(groups@ =~= groups0.skip(1));
            assert(attr_augment == groups0[0]);
        }
        let (got_augment, bad_augment) = map_many_augment(attr_augment, Ghost(s0), ctx);
        if bad_augment {
            failed = true;
        }
        let attr_description = groups.remove(0);
        proof {
            assert(groups@ =~= groups0.skip(2));
            assert(attr_description == groups0[1]);
        }
        let (got_description, bad_description) = map_single_string(attr_description, ctx);
        if bad_description {
            failed = true;
        }
        let attr_if_feature = groups.remove(0);
        proof {
            assert(groups@ =~= groups0.skip(3));
            assert(attr_if_feature == groups0[2]);
        }
        let (got_if_feature, bad_if_feature) = map_many_string(attr_if_feature, ctx);
        if bad_if_feature {
            failed = true;
        }
        let attr_reference = groups.remove(0);
        proof {
            assert(groups@ =~= groups0.skip(4));
            assert(attr_reference == groups0[3]);
        }
        let (got_reference, bad_reference) = map_single_string(attr_reference, ctx);
        if bad_reference {
            failed = true;
        }
        let attr_refine = groups.remove(0);
        proof {
            assert(groups@ =~= groups0.skip(5));
            assert(attr_refine == groups0[4]);
        }
        let (got_refine, bad_refine) = map_many_refine(attr_refine, Ghost(s0), ctx);
        if bad_refine {
            failed = true;
        }
        let attr_status = groups.remove(0);
        proof {
            assert(groups@ =~= groups0.skip(6));
            assert(attr_status == groups0[5]);
        }
        let (got_status, bad_status) = map_single_status(attr_status, ctx);
        if bad_status {
            failed = true;
        }
        let attr_when = groups.remove(0);
        proof {
            assert(groups@ =~= groups0.skip(7));
            assert(attr_when == groups0[6]);
        }
        let (got_when, bad_when) = map_single_string(attr_when, ctx);
        if bad_when {
            failed = true;
        }
        if failed {
            return Err(());
        }
        Ok(Uses {
            name: name.unwrap(),
            augment: got_augment,
            description: got_description,
            if_feature: got_if_feature,
            reference: got_reference,
            refine: got_refine,
            status: got_status,
            when: got_when,
        })
    }
}

/// Typed node for the `container` construct.
#[derive(Debug)]
pub struct Container {
    pub name: String,
    pub action: Vec<ActionOrRpc>,
    pub anydata: Vec<AnyDataOrXml>,
    pub anyxml: Vec<AnyDataOrXml>,
    pub choice: Vec<Choice>,
    pub config: Option<bool>,
    pub container: Vec<Container>,
    pub description: Option<String>,
    pub grouping: Vec<Grouping>,
    pub if_feature: Vec<String>,
    pub leaf: Vec<Leaf>,
    pub leaf_list: Vec<LeafList>,
    pub list: Vec<List>,
    pub must: Vec<String>,
    pub notification: Vec<Notification>,
    pub reference: Option<String>,
    pub status: Option<Status>,
    pub typedef: Vec<Typedef>,
    pub uses: Vec<Uses>,
    pub when: Option<String>,
    pub presence: Option<String>,
}

impl Container {
    pub fn map(stmt: Statement, ctx: &mut ErrorContext) -> (r: Result<Container, ()>)
        ensures
            num_errors(final(ctx)@) >= num_errors(old(ctx)@),
            num_warnings(final(ctx)@) >= num_warnings(old(ctx)@),
            r is Err ==> num_errors(final(ctx)@) > num_errors(old(ctx)@),
            r is Ok ==> num_errors(final(ctx)@) == num_errors(old(ctx)@),
            r is Ok ==> stmt.keyword@ == "container"@,
            r is Ok ==> (stmt.argument matches Some(a) && (r->Ok_0).name == a),
        decreases stmt, 1int,
    {
        let ghost s0 = stmt;
        if !str_eq(stmt.keyword.as_str(), "container") {
            let msg = String::from_str("Expected \"container\" keyword");
            ctx.add_error(stmt.argument_span, msg);
            return Err(());
        }
        let Statement { keyword_span, keyword: _, argument_span, argument, statements } = stmt;
        let mut failed = false;
        let name: Option<String> = match argument {
            Some(a) => match <String as ArgumentMapper>::map_argument(a, argument_span, ctx) {
                Ok(v) => Some(v),
                Err(()) => {
                    failed = true;
                    None
                },
            },
            None => {
                let msg = String::from_str("Expected name argument");
                ctx.add_error(argument_span, msg);
                failed = true;
                None
            },
        };
        let mut specs: Vec<AttrSpec> = Vec::new();
        push_spec(&mut specs, "action", Card::Many);
        push_spec(&mut specs, "anydata", Card::Many);
        push_spec(&mut specs, "anyxml", Card::Many);
        push_spec(&mut specs, "choice", Card::Many);
        push_spec(&mut specs, "config", Card::Opt);
        push_spec(&mut specs, "container", Card::Many);
        push_spec(&mut specs, "description", Card::Opt);
        push_spec(&mut specs, "grouping", Card::Many);
        push_spec(&mut specs, "if-feature", Card::Many);
        push_spec(&mut specs, "leaf", Card::Many);
        push_spec(&mut specs, "leaf-list", Card::Many);
        push_spec(&mut specs, "list", Card::Many);
        push_spec(&mut specs, "must", Card::Many);
        push_spec(&mut specs, "notification", Card::Many);
        push_spec(&mut specs, "reference", Card::Opt);
        push_spec(&mut specs, "status", Card::Opt);
        push_spec(&mut specs, "typedef", Card::Many);
        push_spec(&mut specs, "uses", Card::Many);
        push_spec(&mut specs, "when", Card::Opt);
        push_spec(&mut specs, "presence", Card::Opt);
        let (mut groups, gc_ok) = group_children(statements, &specs, keyword_span, ctx);
        if !gc_ok {
            failed = true;
        }
        let ghost groups0 = groups@;
        proof {
            assert forall|gg: int, ii: int|
                0 <= gg < groups0.len() && 0 <= ii < groups0[gg]@.len() implies decreases_to!(
                s0 => #[trigger] groups0[gg]@[ii]) by {
                let k = choose|k: int|
                    0 <= k < s0.statements@.len() && groups0[gg]@[ii] == s0.statements@[k];
                assert(decreases_to!(s0 => s0.statements));
                assert(decreases_to!(s0.statements => s0.statements@[k]));
            }
        }
        let attr_action = groups.remove(0);
        proof {
            assert(groups@ =~= groups0.skip(1));
            assert(attr_action == groups0[0]);
        }
        let (got_action, bad_action) = map_many_action_or_rpc(attr_action, Ghost(s0), ctx);
        if bad_action {
            failed = true;
        }
        let attr_anydata = groups.remove(0);
        proof {
            assert(groups@ =~= groups0.skip(2));
            assert(attr_anydata == groups0[1]);
        }
        let (got_anydata, bad_anydata) = map_many_any_data_or_xml(attr_anydata, Ghost(s0), ctx);
        if bad_anydata {
            failed = true;
        }
        let attr_anyxml = groups.remove(0);
        proof {
            assert(groups@ =~= groups0.skip(3));
            assert(attr_anyxml == groups0[2]);
        }
        let (got_anyxml, bad_anyxml) = map_many_any_data_or_xml(attr_anyxml, Ghost(s0), ctx);
        if bad_anyxml {
            failed = true;
        }
        let attr_choice = groups.remove(0);
        proof {
            assert(groups@ =~= groups0.skip(4));
            assert(attr_choice == groups0[3]);
        }
        let (got_choice, bad_choice) = map_many_choice(attr_choice, Ghost(s0), ctx);
        if bad_choice {
            failed = true;
        }
        let attr_config = groups.remove(0);
        proof {
            assert(groups@ =~= groups0.skip(5));
            assert(attr_config == groups0[4]);
        }
        let (got_config, bad_config) = map_single_bool(attr_config, ctx);
        if bad_config {
            failed = true;
        }
        let attr_container = groups.remove(0);
        proof {
            assert(groups@ =~= groups0.skip(6));
            assert(attr_container == groups0[5]);
        }
        let (got_container, bad_container) = map_many_container(attr_container, Ghost(s0), ctx);
        if bad_container {
            failed = true;
        }
        let attr_description = groups.remove(0);
        proof {
            assert(groups@ =~= groups0.skip(7));
            assert(attr_description == groups0[6]);
        }
        let (got_description, bad_description) = map_single_string(attr_description, ctx);
        if bad_description {
            failed = true;
        }
        let attr_grouping = groups.remove(0);
        proof {
            assert(groups@ =~= groups0.skip(8));
            assert(attr_grouping == groups0[7]);
        }
        let (got_grouping, bad_grouping) = map_many_grouping(attr_grouping, Ghost(s0), ctx);
        if bad_grouping {
            failed = true;
        }
        let attr_if_feature = groups.remove(0);
        proof {
            assert(groups@ =~= groups0.skip(9));
            assert(attr_if_feature == groups0[8]);
        }
        let (got_if_feature, bad_if_feature) = map_many_string(attr_if_feature, ctx);
        if bad_if_feature {
            failed = true;
        }
        let attr_leaf = groups.remove(0);
        proof {
            assert(groups@ =~= groups0.skip(10));
            assert(attr_leaf == groups0[9]);
        }
        let (got_leaf, bad_leaf) = map_many_leaf(attr_leaf, Ghost(s0), ctx);
        if bad_leaf {
            failed = true;
        }
        let attr_leaf_list = groups.remove(0);
        proof {
            assert(groups@ =~= groups0.skip(11));
            assert(attr_leaf_list == groups0[10]);
        }
        let (got_leaf_list, bad_leaf_list) = map_many_leaf_list(attr_leaf_list, Ghost(s0), ctx);
        if bad_leaf_list {
            failed = true;
        }
        let attr_list = groups.remove(0);
        proof {
            assert(groups@ =~= groups0.skip(12));
            assert(attr_list == groups0[11]);
        }
        let (got_list, bad_list) = map_many_list(attr_list, Ghost(s0), ctx);
        if bad_list {
            failed = true;
        }
        let attr_must = groups.remove(0);
        proof {
            assert(groups@ =~= groups0.skip(13));
            assert(attr_must == groups0[12]);
        }
        let (got_must, bad_must) = map_many_string(attr_must, ctx);
        if bad_must {
            failed = true;
        }
        let attr_notification = groups.remove(0);
        proof {
            assert(groups@ =~= groups0.skip(14));
            assert(attr_notification == groups0[13]);
        }
        let (got_notification, bad_notification) = map_many_notification(attr_notification, Ghost(s0), ctx);
        if bad_notification {
            failed = true;
        }
        let attr_reference = groups.remove(0);
        proof {
            assert(groups@ =~= groups0.skip(15));
            assert(attr_reference == groups0[14]);
        }
        let (got_reference, bad_reference) = map_single_string(attr_reference, ctx);
        if bad_reference {
            failed = true;
        }
        let attr_status = groups.remove(0);
        proof {
            assert(groups@ =~= groups0.skip(16));
            assert(attr_status == groups0[15]);
        }
        let (got_status, bad_status) = map_single_status(attr_status, ctx);
        if bad_status {
            failed = true;
        }
        let attr_typedef = groups.remove(0);
        proof {
            assert(groups@ =~= groups0.skip(17));
            assert(attr_typedef == groups0[16]);
        }
        let (got_typedef, bad_typedef) = map_many_typedef(attr_typedef, Ghost(s0), ctx);
        if bad_typedef {
            failed = true;
        }
        let attr_uses = groups.remove(0);
        proof {
            assert(groups@ =~= groups0.skip(18));
            assert(attr_uses == groups0[17]);
        }
        let (got_uses, bad_uses) = map_many_uses(attr_uses, Ghost(s0), ctx);
        if bad_uses {
            failed = true;
        }
        let attr_when = groups.remove(0);
        proof {
            assert(groups@ =~= groups0.skip(19));
            assert(attr_when == groups0[18]);
        }
        let (got_when, bad_when) = map_single_string(attr_when, ctx);
        if bad_when {
            failed = true;
        }
        let attr_presence = groups.remove(0);
        proof {
            assert(groups@ =~= groups0.skip(20));
            assert(attr_presence == groups0[19]);
        }
        let (got_presence, bad_presence) = map_single_string(attr_presence, ctx);
        if bad_presence {
            failed = true;
        }
        if failed {
            return Err(());
        }
        Ok(Container {
            name: name.unwrap(),
            action: got_action,
            anydata: got_anydata,
            anyxml: got_anyxml,
            choice: got_choice,
            config: got_config,
            container: got_container,
            description: got_description,
            grouping: got_grouping,
            if_feature: got_if_feature,
            leaf: got_leaf,
            leaf_list: got_leaf_list,
            list: got_list,
            must: got_must,
            notification: got_notification,
            reference: got_reference,
            status: got_status,
            typedef: got_typedef,
            uses: got_uses,
            when: got_when,
            presence: got_presence,
        })
    }
}

/// Typed node for the `list` construct.
#[derive(Debug)]
pub struct List {
    pub name: String,
    pub action: Vec<ActionOrRpc>,
    pub anydata: Vec<AnyDataOrXml>,
    pub anyxml: Vec<AnyDataOrXml>,
    pub choice: Vec<Choice>,
    pub config: Option<bool>,
    pub container: Vec<Container>,
    pub description: Option<String>,
    pub grouping: Vec<Grouping>,
    pub if_feature: Vec<String>,
    pub leaf: Vec<Leaf>,
    pub leaf_list: Vec<LeafList>,
    pub list: Vec<List>,
    pub must: Vec<String>,
    pub notification: Vec<Notification>,
    pub reference: Option<String>,
    pub status: Option<Status>,
    pub typedef: Vec<Typedef>,
    pub uses: Vec<Uses>,
    pub when: Option<String>,
    pub key: Option<String>,
    pub max_elements: Option<String>,
    pub min_elements: Option<String>,
    pub ordered_by: Option<String>,
    pub unique: Vec<String>,
}

impl List {
    pub fn map(stmt: Statement, ctx: &mut ErrorContext) -> (r: Result<List, ()>)
        ensures
            num_errors(final(ctx)@) >= num_errors(old(ctx)@),
            num_warnings(final(ctx)@) >= num_warnings(old(ctx)@),
            r is Err ==> num_errors(final(ctx)@) > num_errors(old(ctx)@),
            r is Ok ==> num_errors(final(ctx)@) == num_errors(old(ctx)@),
            r is Ok ==> stmt.keyword@ == "list"@,
            r is Ok ==> (stmt.argument matches Some(a) && (r->Ok_0).name == a),
        decreases stmt, 1int,
    {
        let ghost s0 = stmt;
        if !str_eq(stmt.keyword.as_str(), "list") {
            let msg = String::from_str("Expected \"list\" keyword");
            ctx.add_error(stmt.argument_span, msg);
            return Err(());
        }
        let Statement { keyword_span, keyword: _, argument_span, argument, statements } = stmt;
        let mut failed = false;
        let name: Option<String> = match argument {
            Some(a) => match <String as ArgumentMapper>::map_argument(a, argument_span, ctx) {
                Ok(v) => Some(v),
                Err(()) => {
                    failed = true;
                    None
                },
            },
            None => {
                let msg = String::from_str("Expected name argument");
                ctx.add_error(argument_span, msg);
                failed = true;
                None
            },
        };
        let mut specs: Vec<AttrSpec> = Vec::new();
        push_spec(&mut specs, "action", Card::Many);
        push_spec(&mut specs, "anydata", Card::Many);
        push_spec(&mut specs, "anyxml", Card::Many);
        push_spec(&mut specs, "choice", Card::Many);
        push_spec(&mut specs, "config", Card::Opt);
        push_spec(&mut specs, "container", Card::Many);
        push_spec(&mut specs, "description", Card::Opt);
        push_spec(&mut specs, "grouping", Card::Many);
        push_spec(&mut specs, "if-feature", Card::Many);
        push_spec(&mut specs, "leaf", Card::Many);
        push_spec(&mut specs, "leaf-list", Card::Many);
        push_spec(&mut specs, "list", Card::Many);
        push_spec(&mut specs, "must", Card::Many);
        push_spec(&mut specs, "notification", Card::Many);
        push_spec(&mut specs, "reference", Card::Opt);
        push_spec(&mut specs, "status", Card::Opt);
        push_spec(&mut specs, "typedef", Card::Many);
        push_spec(&mut specs, "uses", Card::Many);
        push_spec(&mut specs, "when", Card::Opt);
        push_spec(&mut specs, "key", Card::Opt);
        push_spec(&mut specs, "max-elements", Card::Opt);
        push_spec(&mut specs, "min-elements", Card::Opt);
        push_spec(&mut specs, "ordered-by", Card::Opt);
        push_spec(&mut specs, "unique", Card::Many);
        let (mut groups, gc_ok) = group_children(statements, &specs, keyword_span, ctx);
        if !gc_ok {
            failed = true;
        }
        let ghost groups0 = groups@;
        proof {
            assert forall|gg: int, ii: int|
                0 <= gg < groups0.len() && 0 <= ii < groups0[gg]@.len() implies decreases_to!(
                s0 => #[trigger] groups0[gg]@[ii]) by {
                let k = choose|k: int|
                    0 <= k < s0.statements@.len() && groups0[gg]@[ii] == s0.statements@[k];
                assert(decreases_to!(s0 => s0.statements));
                assert(decreases_to!(s0.statements => s0.statements@[k]));
            }
        }
        let attr_action = groups.remove(0);
        proof {
            assert(groups@ =~= groups0.skip(1));
            assert(attr_action == groups0[0]);
        }
        let (got_action, bad_action) = map_many_action_or_rpc(attr_action, Ghost(s0), ctx);
        if bad_action {
            failed = true;
        }
        let attr_anydata = groups.remove(0);
        proof {
            assert(groups@ =~= groups0.skip(2));
            assert(attr_anydata == groups0[1]);
        }
        let (got_anydata, bad_anydata) = map_many_any_data_or_xml(attr_anydata, Ghost(s0), ctx);
        if bad_anydata {
            failed = true;
        }
        let attr_anyxml = groups.remove(0);
        proof {
            assert(groups@ =~= groups0.skip(3));
            assert(attr_anyxml == groups0[2]);
        }
        let (got_anyxml, bad_anyxml) = map_many_any_data_or_xml(attr_anyxml, Ghost(s0), ctx);
        if bad_anyxml {
            failed = true;
        }
        let attr_choice = groups.remove(0);
        proof {
            assert(groups@ =~= groups0.skip(4));
            assert(attr_choice == groups0[3]);
        }
        let (got_choice, bad_choice) = map_many_choice(attr_choice, Ghost(s0), ctx);
        if bad_choice {
            failed = true;
        }
        let attr_config = groups.remove(0);
        proof {
            assert(groups@ =~= groups0.skip(5));
            assert(attr_config == groups0[4]);
        }
        let (got_config, bad_config) = map_single_bool(attr_config, ctx);
        if bad_config {
            failed = true;
        }
        let attr_container = groups.remove(0);
        proof {
            assert(groups@ =~= groups0.skip(6));
            assert(attr_container == groups0[5]);
        }
        let (got_container, bad_container) = map_many_container(attr_container, Ghost(s0), ctx);
        if bad_container {
            failed = true;
        }
        let attr_description = groups.remove(0);
        proof {
            assert(groups@ =~= groups0.skip(7));
            assert(attr_description == groups0[6]);
        }
        let (got_description, bad_description) = map_single_string(attr_description, ctx);
        if bad_description {
            failed = true;
        }
        let attr_grouping = groups.remove(0);
        proof {
            assert(groups@ =~= groups0.skip(8));
            assert(attr_grouping == groups0[7]);
        }
        let (got_grouping, bad_grouping) = map_many_grouping(attr_grouping, Ghost(s0), ctx);
        if bad_grouping {
            failed = true;
        }
        let attr_if_feature = groups.remove(0);
        proof {
            assert(groups@ =~= groups0.skip(9));
            assert(attr_if_feature == groups0[8]);
        }
        let (got_if_feature, bad_if_feature) = map_many_string(attr_if_feature, ctx);
        if bad_if_feature {
            failed = true;
        }
        let attr_leaf = groups.remove(0);
        proof {
            assert(groups@ =~= groups0.skip(10));
            assert(attr_leaf == groups0[9]);
        }
        let (got_leaf, bad_leaf) = map_many_leaf(attr_leaf, Ghost(s0), ctx);
        if bad_leaf {
            failed = true;
        }
        let attr_leaf_list = groups.remove(0);
        proof {
            assert(groups@ =~= groups0.skip(11));
            assert(attr_leaf_list == groups0[10]);
        }
        let (got_leaf_list, bad_leaf_list) = map_many_leaf_list(attr_leaf_list, Ghost(s0), ctx);
        if bad_leaf_list {
            failed = true;
        }
        let attr_list = groups.remove(0);
        proof {
            assert(groups@ =~= groups0.skip(12));
            assert(attr_list == groups0[11]);
        }
        let (got_list, bad_list) = map_many_list(attr_list, Ghost(s0), ctx);
        if bad_list {
            failed = true;
        }
        let attr_must = groups.remove(0);
        proof {
            assert(groups@ =~= groups0.skip(13));
            assert(attr_must == groups0[12]);
        }
        let (got_must, bad_must) = map_many_string(attr_must, ctx);
        if bad_must {
            failed = true;
        }
        let attr_notification = groups.remove(0);
        proof {
            assert(groups@ =~= groups0.skip(14));
            assert(attr_notification == groups0[13]);
        }
        let (got_notification, bad_notification) = map_many_notification(attr_notification, Ghost(s0), ctx);
        if bad_notification {
            failed = true;
        }
        let attr_reference = groups.remove(0);
        proof {
            assert(groups@ =~= groups0.skip(15));
            assert(attr_reference == groups0[14]);
        }
        let (got_reference, bad_reference) = map_single_string(attr_reference, ctx);
        if bad_reference {
            failed = true;
        }
        let attr_status = groups.remove(0);
        proof {
            assert(groups@ =~= groups0.skip(16));
            assert(attr_status == groups0[15]);
        }
        let (got_status, bad_status) = map_single_status(attr_status, ctx);
        if bad_status {
            failed = true;
        }
        let attr_typedef = groups.remove(0);
        proof {
            assert(groups@ =~= groups0.skip(17));
            assert(attr_typedef == groups0[16]);
        }
        let (got_typedef, bad_typedef) = map_many_typedef(attr_typedef, Ghost(s0), ctx);
        if bad_typedef {
            failed = true;
        }
        let attr_uses = groups.remove(0);
        proof {
            assert(groups@ =~= groups0.skip(18));
            assert(attr_uses == groups0[17]);
        }
        let (got_uses, bad_uses) = map_many_uses(attr_uses, Ghost(s0), ctx);
        if bad_uses {
            failed = true;
        }
        let attr_when = groups.remove(0);
        proof {
            assert(groups@ =~= groups0.skip(19));
            assert(attr_when == groups0[18]);
        }
        let (got_when, bad_when) = map_single_string(attr_when, ctx);
        if bad_when {
            failed = true;
        }
        let attr_key = groups.remove(0);
        proof {
            assert(groups@ =~= groups0.skip(20));
            assert(attr_key == groups0[19]);
        }
        let (got_key, bad_key) = map_single_string(attr_key, ctx);
        if bad_key {
            failed = true;
        }
        let attr_max_elements = groups.remove(0);
        proof {
            assert(groups@ =~= groups0.skip(21));
            assert(attr_max_elements == groups0[20]);
        }
        let (got_max_elements, bad_max_elements) = map_single_string(attr_max_elements, ctx);
        if bad_max_elements {
            failed = true;
        }
        let attr_min_elements = groups.remove(0);
        proof {
            assert(groups@ =~= groups0.skip(22));
            assert(attr_min_elements == groups0[21]);
        }
        let (got_min_elements, bad_min_elements) = map_single_string(attr_min_elements, ctx);
        if bad_min_elements {
            failed = true;
        }
        let attr_ordered_by = groups.remove(0);
        proof {
            assert(groups@ =~= groups0.skip(23));
            assert(attr_ordered_by == groups0[22]);
        }
        let (got_ordered_by, bad_ordered_by) = map_single_string(attr_ordered_by, ctx);
        if bad_ordered_by {
            failed = true;
        }
        let attr_unique = groups.remove(0);
        proof {
            assert(groups@ =~= groups0.skip(24));
            assert(attr_unique == groups0[23]);
        }
        let (got_unique, bad_unique) = map_many_string(attr_unique, ctx);
        if bad_unique {
            failed = true;
        }
        if failed {
            return Err(());
        }
        Ok(List {
            name: name.unwrap(),
            action: got_action,
            anydata: got_anydata,
            anyxml: got_anyxml,
            choice: got_choice,
            config: got_config,
            container: got_container,
            description: got_description,
            grouping: got_grouping,
            if_feature: got_if_feature,
            leaf: got_leaf,
            leaf_list: got_leaf_list,
            list: got_list,
            must: got_must,
            notification: got_notification,
            reference: got_reference,
            status: got_status,
            typedef: got_typedef,
            uses: got_uses,
            when: got_when,
            key: got_key,
            max_elements: got_max_elements,
            min_elements: got_min_elements,
            ordered_by: got_ordered_by,
            unique: got_unique,
        })
    }
}

/// Typed node for the `notification` construct.
#[derive(Debug)]
pub struct Notification {
    pub name: String,
    pub anydata: Vec<AnyDataOrXml>,
    pub anyxml: Vec<AnyDataOrXml>,
    pub choice: Vec<Choice>,
    pub container: Vec<Container>,
    pub description: Option<String>,
    pub grouping: Vec<Grouping>,
    pub if_feature: Vec<String>,
    pub leaf: Vec<Leaf>,
    pub leaf_list: Vec<LeafList>,
    pub list: Vec<List>,
    pub must: Vec<String>,
    pub reference: Option<String>,
    pub status: Option<Status>,
    pub typedef: Vec<Typedef>,
    pub uses: Vec<Uses>,
}

impl Notification {
    pub fn map(stmt: Statement, ctx: &mut ErrorContext) -> (r: Result<Notification, ()>)
        ensures
            num_errors(final(ctx)@) >= num_errors(old(ctx)@),
            num_warnings(final(ctx)@) >= num_warnings(old(ctx)@),
            r is Err ==> num_errors(final(ctx)@) > num_errors(old(ctx)@),
            r is Ok ==> num_errors(final(ctx)@) == num_errors(old(ctx)@),
            r is Ok ==> stmt.keyword@ == "notification"@,
            r is Ok ==> (stmt.argument matches Some(a) && (r->Ok_0).name == a),
        decreases stmt, 1int,
    {
        let ghost s0 = stmt;
        if !str_eq(stmt.keyword.as_str(), "notification") {
            let msg = String::from_str("Expected \"notification\" keyword");
            ctx.add_error(stmt.argument_span, msg);
            return Err(());
        }
        let Statement { keyword_span, keyword: _, argument_span, argument, statements } = stmt;
        let mut failed = false;
        let name: Option<String> = match argument {
            Some(a) => match <String as ArgumentMapper>::map_argument(a, argument_span, ctx) {
                Ok(v) => Some(v),
                Err(()) => {
                    failed = true;
                    None
                },
            },
            None => {
                let msg = String::from_str("Expected name argument");
                ctx.add_error(argument_span, msg);
                failed = true;
                None
            },
        };
        let mut specs: Vec<AttrSpec> = Vec::new();
        push_spec(&mut specs, "anydata", Card::Many);
        push_spec(&mut specs, "anyxml", Card::Many);
        push_spec(&mut specs, "choice", Card::Many);
        push_spec(&mut specs, "container", Card::Many);
        push_spec(&mut specs, "description", Card::Opt);
        push_spec(&mut specs, "grouping", Card::Many);
        push_spec(&mut specs, "if-feature", Card::Many);
        push_spec(&mut specs, "leaf", Card::Many);
        push_spec(&mut specs, "leaf-list", Card::Many);
        push_spec(&mut specs, "list", Card::Many);
        push_spec(&mut specs, "must", Card::Many);
        push_spec(&mut specs, "reference", Card::Opt);
        push_spec(&mut specs, "status", Card::Opt);
        push_spec(&mut specs, "typedef", Card::Many);
        push_spec(&mut specs, "uses", Card::Many);
        let (mut groups, gc_ok) = group_children(statements, &specs, keyword_span, ctx);
        if !gc_ok {
            failed = true;
        }
        let ghost groups0 = groups@;
        proof {
            assert forall|gg: int, ii: int|
                0 <= gg < groups0.len() && 0 <= ii < groups0[gg]@.len() implies decreases_to!(
                s0 => #[trigger] groups0[gg]@[ii]) by {
                let k = choose|k: int|
                    0 <= k < s0.statements@.len() && groups0[gg]@[ii] == s0.statements@[k];
                assert(decreases_to!(s0 => s0.statements));
                assert(decreases_to!(s0.statements => s0.statements@[k]));
            }
        }
        let attr_anydata = groups.remove(0);
        proof {
            assert(groups@ =~= groups0.skip(1));
            assert(attr_anydata == groups0[0]);
        }
        let (got_anydata, bad_anydata) = map_many_any_data_or_xml(attr_anydata, Ghost(s0), ctx);
        if bad_anydata {
            failed = true;
        }
        let attr_anyxml = groups.remove(0);
        proof {
            assert(groups@ =~= groups0.skip(2));
            assert(attr_anyxml == groups0[1]);
        }
        let (got_anyxml, bad_anyxml) = map_many_any_data_or_xml(attr_anyxml, Ghost(s0), ctx);
        if bad_anyxml {
            failed = true;
        }
        let attr_choice = groups.remove(0);
        proof {
            assert(groups@ =~= groups0.skip(3));
            assert(attr_choice == groups0[2]);
        }
        let (got_choice, bad_choice) = map_many_choice(attr_choice, Ghost(s0), ctx);
        if bad_choice {
            failed = true;
        }
        let attr_container = groups.remove(0);
        proof {
            assert(groups@ =~= groups0.skip(4));
            assert(attr_container == groups0[3]);
        }
        let (got_container, bad_container) = map_many_container(attr_container, Ghost(s0), ctx);
        if bad_container {
            failed = true;
        }
        let attr_description = groups.remove(0);
        proof {
            assert(groups@ =~= groups0.skip(5));
            assert(attr_description == groups0[4]);
        }
        let (got_description, bad_description) = map_single_string(attr_description, ctx);
        if bad_description {
            failed = true;
        }
        let attr_grouping = groups.remove(0);
        proof {
            assert(groups@ =~= groups0.skip(6));
            assert(attr_grouping == groups0[5]);
        }
        let (got_grouping, bad_grouping) = map_many_grouping(attr_grouping, Ghost(s0), ctx);
        if bad_grouping {
            failed = true;
        }
        let attr_if_feature = groups.remove(0);
        proof {
            assert(groups@ =~= groups0.skip(7));
            assert(attr_if_feature == groups0[6]);
        }
        let (got_if_feature, bad_if_feature) = map_many_string(attr_if_feature, ctx);
        if bad_if_feature {
            failed = true;
        }
        let attr_leaf = groups.remove(0);
        proof {
            assert(groups@ =~= groups0.skip(8));
            assert(attr_leaf == groups0[7]);
        }
        let (got_leaf, bad_leaf) = map_many_leaf(attr_leaf, Ghost(s0), ctx);
        if bad_leaf {
            failed = true;
        }
        let attr_leaf_list = groups.remove(0);
        proof {
            assert(groups@ =~= groups0.skip(9));
            assert(attr_leaf_list == groups0[8]);
        }
        let (got_leaf_list, bad_leaf_list) = map_many_leaf_list(attr_leaf_list, Ghost(s0), ctx);
        if bad_leaf_list {
            failed = true;
        }
        let attr_list = groups.remove(0);
        proof {
            assert(groups@ =~= groups0.skip(10));
            assert(attr_list == groups0[9]);
        }
        let (got_list, bad_list) = map_many_list(attr_list, Ghost(s0), ctx);
        if bad_list {
            failed = true;
        }
        let attr_must = groups.remove(0);
        proof {
            assert(groups@ =~= groups0.skip(11));
            assert(attr_must == groups0[10]);
        }
        let (got_must, bad_must) = map_many_string(attr_must, ctx);
        if bad_must {
            failed = true;
        }
        let attr_reference = groups.remove(0);
        proof {
            assert(groups@ =~= groups0.skip(12));
            assert(attr_reference == groups0[11]);
        }
        let (got_reference, bad_reference) = map_single_string(attr_reference, ctx);
        if bad_reference {
            failed = true;
        }
        let attr_status = groups.remove(0);
        proof {
            assert(groups@ =~= groups0.skip(13));
            assert(attr_status == groups0[12]);
        }
        let (got_status, bad_status) = map_single_status(attr_status, ctx);
        if bad_status {
            failed = true;
        }
        let attr_typedef = groups.remove(0);
        proof {
            assert(groups@ =~= groups0.skip(14));
            assert(attr_typedef == groups0[13]);
        }
        let (got_typedef, bad_typedef) = map_many_typedef(attr_typedef, Ghost(s0), ctx);
        if bad_typedef {
            failed = true;
        }
        let attr_uses = groups.remove(0);
        proof {
            assert(groups@ =~= groups0.skip(15));
            assert(attr_uses == groups0[14]);
        }
        let (got_uses, bad_uses) = map_many_uses(attr_uses, Ghost(s0), ctx);
        if bad_uses {
            failed = true;
        }
        if failed {
            return Err(());
        }
        Ok(Notification {
            name: name.unwrap(),
            anydata: got_anydata,
            anyxml: got_anyxml,
            choice: got_choice,
            container: got_container,
            description: got_description,
            grouping: got_grouping,
            if_feature: got_if_feature,
            leaf: got_leaf,
            leaf_list: got_leaf_list,
            list: got_list,
            must: got_must,
            reference: got_reference,
            status: got_status,
            typedef: got_typedef,
            uses: got_uses,
        })
    }
}

/// Typed node for the `choice` construct.
#[derive(Debug)]
pub struct Choice {
    pub anydata: Vec<AnyDataOrXml>,
    pub anyxml: Vec<AnyDataOrXml>,
    pub case: Vec<Case>,
    pub choice: Vec<Choice>,
    pub config: Option<bool>,
    pub container: Vec<Container>,
    pub default: Option<String>,
    pub description: Option<String>,
    pub if_feature: Vec<String>,
    pub leaf: Vec<Leaf>,
    pub leaf_list: Vec<LeafList>,
    pub list: Vec<List>,
    pub mandatory: Option<bool>,
    pub reference: Option<String>,
    pub status: Option<Status>,
    pub when: Option<String>,
}

impl Choice {
    pub fn map(stmt: Statement, ctx: &mut ErrorContext) -> (r: Result<Choice, ()>)
        ensures
            num_errors(final(ctx)@) >= num_errors(old(ctx)@),
            num_warnings(final(ctx)@) >= num_warnings(old(ctx)@),
            r is Err ==> num_errors(final(ctx)@) > num_errors(old(ctx)@),
            r is Ok ==> num_errors(final(ctx)@) == num_errors(old(ctx)@),
            r is Ok ==> stmt.keyword@ == "choice"@,
        decreases stmt, 1int,
    {
        let ghost s0 = stmt;
        if !str_eq(stmt.keyword.as_str(), "choice") {
            let msg = String::from_str("Expected \"choice\" keyword");
            ctx.add_error(stmt.argument_span, msg);
            return Err(());
        }
        let Statement { keyword_span, keyword: _, argument_span, argument: _, statements } = stmt;
        let mut failed = false;
        let mut specs: Vec<AttrSpec> = Vec::new();
        push_spec(&mut specs, "anydata", Card::Many);
        push_spec(&mut specs, "anyxml", Card::Many);
        push_spec(&mut specs, "case", Card::Many);
        push_spec(&mut specs, "choice", Card::Many);
        push_spec(&mut specs, "config", Card::Opt);
        push_spec(&mut specs, "container", Card::Many);
        push_spec(&mut specs, "default", Card::Opt);
        push_spec(&mut specs, "description", Card::Opt);
        push_spec(&mut specs, "if-feature", Card::Many);
        push_spec(&mut specs, "leaf", Card::Many);
        push_spec(&mut specs, "leaf-list", Card::Many);
        push_spec(&mut specs, "list", Card::Many);
        push_spec(&mut specs, "mandatory", Card::Opt);
        push_spec(&mut specs, "reference", Card::Opt);
        push_spec(&mut specs, "status", Card::Opt);
        push_spec(&mut specs, "when", Card::Opt);
        let (mut groups, gc_ok) = group_children(statements, &specs, keyword_span, ctx);
        if !gc_ok {
            failed = true;
        }
        let ghost groups0 = groups@;
        proof {
            assert forall|gg: int, ii: int|
                0 <= gg < groups0.len() && 0 <= ii < groups0[gg]@.len() implies decreases_to!(
                s0 => #[trigger] groups0[gg]@[ii]) by {
                let k = choose|k: int|
                    0 <= k < s0.statements@.len() && groups0[gg]@[ii] == s0.statements@[k];
                assert(decreases_to!(s0 => s0.statements));
                assert(decreases_to!(s0.statements => s0.statements@[k]));
            }
        }
        let attr_anydata = groups.remove(0);
        proof {
            assert(groups@ =~= groups0.skip(1));
            assert(attr_anydata == groups0[0]);
        }
        let (got_anydata, bad_anydata) = map_many_any_data_or_xml(attr_anydata, Ghost(s0), ctx);
        if bad_anydata {
            failed = true;
        }
        let attr_anyxml = groups.remove(0);
        proof {
            assert(groups@ =~= groups0.skip(2));
            assert(attr_anyxml == groups0[1]);
        }
        let (got_anyxml, bad_anyxml) = map_many_any_data_or_xml(attr_anyxml, Ghost(s0), ctx);
        if bad_anyxml {
            failed = true;
        }
        let attr_case = groups.remove(0);
        proof {
            assert(groups@ =~= groups0.skip(3));
            assert(attr_case == groups0[2]);
        }
        let (got_case, bad_case) = map_many_case(attr_case, Ghost(s0), ctx);
        if bad_case {
            failed = true;
        }
        let attr_choice = groups.remove(0);
        proof {
            assert(groups@ =~= groups0.skip(4));
            assert(attr_choice == groups0[3]);
        }
        let (got_choice, bad_choice) = map_many_choice(attr_choice, Ghost(s0), ctx);
        if bad_choice {
            failed = true;
        }
        let attr_config = groups.remove(0);
        proof {
            assert(groups@ =~= groups0.skip(5));
            assert(attr_config == groups0[4]);
        }
        let (got_config, bad_config) = map_single_bool(attr_config, ctx);
        if bad_config {
            failed = true;
        }
        let attr_container = groups.remove(0);
        proof {
            assert(groups@ =~= groups0.skip(6));
            assert(attr_container == groups0[5]);
        }
        let (got_container, bad_container) = map_many_container(attr_container, Ghost(s0), ctx);
        if bad_container {
            failed = true;
        }
        let attr_default = groups.remove(0);
        proof {
            assert(groups@ =~= groups0.skip(7));
            assert(attr_default == groups0[6]);
        }
        let (got_default, bad_default) = map_single_string(attr_default, ctx);
        if bad_default {
            failed = true;
        }
        let attr_description = groups.remove(0);
        proof {
            assert(groups@ =~= groups0.skip(8));
            assert(attr_description == groups0[7]);
        }
        let (got_description, bad_description) = map_single_string(attr_description, ctx);
        if bad_description {
            failed = true;
        }
        let attr_if_feature = groups.remove(0);
        proof {
            assert(groups@ =~= groups0.skip(9));
            assert(attr_if_feature == groups0[8]);
        }
        let (got_if_feature, bad_if_feature) = map_many_string(attr_if_feature, ctx);
        if bad_if_feature {
            failed = true;
        }
        let attr_leaf = groups.remove(0);
        proof {
            assert(groups@ =~= groups0.skip(10));
            assert(attr_leaf == groups0[9]);
        }
        let (got_leaf, bad_leaf) = map_many_leaf(attr_leaf, Ghost(s0), ctx);
        if bad_leaf {
            failed = true;
        }
        let attr_leaf_list = groups.remove(0);
        proof {
            assert(groups@ =~= groups0.skip(11));
            assert(attr_leaf_list == groups0[10]);
        }
        let (got_leaf_list, bad_leaf_list) = map_many_leaf_list(attr_leaf_list, Ghost(s0), ctx);
        if bad_leaf_list {
            failed = true;
        }
        let attr_list = groups.remove(0);
        proof {
            assert(groups@ =~= groups0.skip(12));
            assert(attr_list == groups0[11]);
        }
        let (got_list, bad_list) = map_many_list(attr_list, Ghost(s0), ctx);
        if bad_list {
            failed = true;
        }
        let attr_mandatory = groups.remove(0);
        proof {
            assert(groups@ =~= groups0.skip(13));
            assert(attr_mandatory == groups0[12]);
        }
        let (got_mandatory, bad_mandatory) = map_single_bool(attr_mandatory, ctx);
        if bad_mandatory {
            failed = true;
        }
        let attr_reference = groups.remove(0);
        proof {
            assert(groups@ =~= groups0.skip(14));
            assert(attr_reference == groups0[13]);
        }
        let (got_reference, bad_reference) = map_single_string(attr_reference, ctx);
        if bad_reference {
            failed = true;
        }
        let attr_status = groups.remove(0);
        proof {
            assert(groups@ =~= groups0.skip(15));
            assert(attr_status == groups0[14]);
        }
        let (got_status, bad_status) = map_single_status(attr_status, ctx);
        if bad_status {
            failed = true;
        }
        let attr_when = groups.remove(0);
        proof {
            assert(groups@ =~= groups0.skip(16));
            assert(attr_when == groups0[15]);
        }
        let (got_when, bad_when) = map_single_string(attr_when, ctx);
        if bad_when {
            failed = true;
        }
        if failed {
            return Err(());
        }
        Ok(Choice {
            anydata: got_anydata,
            anyxml: got_anyxml,
            case: got_case,
            choice: got_choice,
            config: got_config,
            container: got_container,
            default: got_default,
            description: got_description,
            if_feature: got_if_feature,
            leaf: got_leaf,
            leaf_list: got_leaf_list,
            list: got_list,
            mandatory: got_mandatory,
            reference: got_reference,
            status: got_status,
            when: got_when,
        })
    }
}

/// Typed node for the `case` construct.
#[derive(Debug)]
pub struct Case {
    pub anydata: Vec<AnyDataOrXml>,
    pub anyxml: Vec<AnyDataOrXml>,
    pub choice: Vec<Choice>,
    pub container: Vec<Container>,
    pub description: Option<String>,
    pub grouping: Vec<Grouping>,
    pub if_feature: Vec<String>,
    pub leaf: Vec<Leaf>,
    pub leaf_list: Vec<LeafList>,
    pub list: Vec<List>,
    pub reference: Option<String>,
    pub status: Option<Status>,
    pub uses: Vec<Uses>,
    pub when: Option<String>,
}

impl Case {
    pub fn map(stmt: Statement, ctx: &mut ErrorContext) -> (r: Result<Case, ()>)
        ensures
            num_errors(final(ctx)@) >= num_errors(old(ctx)@),
            num_warnings(final(ctx)@) >= num_warnings(old(ctx)@),
            r is Err ==> num_errors(final(ctx)@) > num_errors(old(ctx)@),
            r is Ok ==> num_errors(final(ctx)@) == num_errors(old(ctx)@),
            r is Ok ==> stmt.keyword@ == "case"@,
        decreases stmt, 1int,
    {
        let ghost s0 = stmt;
        if !str_eq(stmt.keyword.as_str(), "case") {
            let msg = String::from_str("Expected \"case\" keyword");
            ctx.add_error(stmt.argument_span, msg);
            return Err(());
        }
        let Statement { keyword_span, keyword: _, argument_span, argument: _, statements } = stmt;
        let mut failed = false;
        let mut specs: Vec<AttrSpec> = Vec::new();
        push_spec(&mut specs, "anydata", Card::Many);
        push_spec(&mut specs, "anyxml", Card::Many);
        push_spec(&mut specs, "choice", Card::Many);
        push_spec(&mut specs, "container", Card::Many);
        push_spec(&mut specs, "description", Card::Opt);
        push_spec(&mut specs, "grouping", Card::Many);
        push_spec(&mut specs, "if-feature", Card::Many);
        push_spec(&mut specs, "leaf", Card::Many);
        push_spec(&mut specs, "leaf-list", Card::Many);
        push_spec(&mut specs, "list", Card::Many);
        push_spec(&mut specs, "reference", Card::Opt);
        push_spec(&mut specs, "status", Card::Opt);
        push_spec(&mut specs, "uses", Card::Many);
        push_spec(&mut specs, "when", Card::Opt);
        let (mut groups, gc_ok) = group_children(statements, &specs, keyword_span, ctx);
        if !gc_ok {
            failed = true;
        }
        let ghost groups0 = groups@;
        proof {
            assert forall|gg: int, ii: int|
                0 <= gg < groups0.len() && 0 <= ii < groups0[gg]@.len() implies decreases_to!(
                s0 => #[trigger] groups0[gg]@[ii]) by {
                let k = choose|k: int|
                    0 <= k < s0.statements@.len() && groups0[gg]@[ii] == s0.statements@[k];
                assert(decreases_to!(s0 => s0.statements));
                assert(decreases_to!(s0.statements => s0.statements@[k]));
            }
        }
        let attr_anydata = groups.remove(0);
        proof {
            assert(groups@ =~= groups0.skip(1));
            assert(attr_anydata == groups0[0]);
        }
        let (got_anydata, bad_anydata) = map_many_any_data_or_xml(attr_anydata, Ghost(s0), ctx);
        if bad_anydata {
            failed = true;
        }
        let attr_anyxml = groups.remove(0);
        proof {
            assert(groups@ =~= groups0.skip(2));
            assert(attr_anyxml == groups0[1]);
        }
        let (got_anyxml, bad_anyxml) = map_many_any_data_or_xml(attr_anyxml, Ghost(s0), ctx);
        if bad_anyxml {
            failed = true;
        }
        let attr_choice = groups.remove(0);
        proof {
            assert(groups@ =~= groups0.skip(3));
            assert(attr_choice == groups0[2]);
        }
        let (got_choice, bad_choice) = map_many_choice(attr_choice, Ghost(s0), ctx);
        if bad_choice {
            failed = true;
        }
        let attr_container = groups.remove(0);
        proof {
            assert(groups@ =~= groups0.skip(4));
            assert(attr_container == groups0[3]);
        }
        let (got_container, bad_container) = map_many_container(attr_container, Ghost(s0), ctx);
        if bad_container {
            failed = true;
        }
        let attr_description = groups.remove(0);
        proof {
            assert(groups@ =~= groups0.skip(5));
            assert(attr_description == groups0[4]);
        }
        let (got_description, bad_description) = map_single_string(attr_description, ctx);
        if bad_description {
            failed = true;
        }
        let attr_grouping = groups.remove(0);
        proof {
            assert(groups@ =~= groups0.skip(6));
            assert(attr_grouping == groups0[5]);
        }
        let (got_grouping, bad_grouping) = map_many_grouping(attr_grouping, Ghost(s0), ctx);
        if bad_grouping {
            failed = true;
        }
        let attr_if_feature = groups.remove(0);
        proof {
            assert(groups@ =~= groups0.skip(7));
            assert(attr_if_feature == groups0[6]);
        }
        let (got_if_feature, bad_if_feature) = map_many_string(attr_if_feature, ctx);
        if bad_if_feature {
            failed = true;
        }
        let attr_leaf = groups.remove(0);
        proof {
            assert(groups@ =~= groups0.skip(8));
            assert(attr_leaf == groups0[7]);
        }
        let (got_leaf, bad_leaf) = map_many_leaf(attr_leaf, Ghost(s0), ctx);
        if bad_leaf {
            failed = true;
        }
        let attr_leaf_list = groups.remove(0);
        proof {
            assert(groups@ =~= groups0.skip(9));
            assert(attr_leaf_list == groups0[8]);
        }
        let (got_leaf_list, bad_leaf_list) = map_many_leaf_list(attr_leaf_list, Ghost(s0), ctx);
        if bad_leaf_list {
            failed = true;
        }
        let attr_list = groups.remove(0);
        proof {
            assert(groups@ =~= groups0.skip(10));
            assert(attr_list == groups0[9]);
        }
        let (got_list, bad_list) = map_many_list(attr_list, Ghost(s0), ctx);
        if bad_list {
            failed = true;
        }
        let attr_reference = groups.remove(0);
        proof {
            assert(groups@ =~= groups0.skip(11));
            assert(attr_reference == groups0[10]);
        }
        let (got_reference, bad_reference) = map_single_string(attr_reference, ctx);
        if bad_reference {
            failed = true;
        }
        let attr_status = groups.remove(0);
        proof {
            assert(groups@ =~= groups0.skip(12));
            assert(attr_status == groups0[11]);
        }
        let (got_status, bad_status) = map_single_status(attr_status, ctx);
        if bad_status {
            failed = true;
        }
        let attr_uses = groups.remove(0);
        proof {
            assert(groups@ =~= groups0.skip(13));
            assert(attr_uses == groups0[12]);
        }
        let (got_uses, bad_uses) = map_many_uses(attr_uses, Ghost(s0), ctx);
        if bad_uses {
            failed = true;
        }
        let attr_when = groups.remove(0);
        proof {
            assert(groups@ =~= groups0.skip(14));
            assert(attr_when == groups0[13]);
        }
        let (got_when, bad_when) = map_single_string(attr_when, ctx);
        if bad_when {
            failed = true;
        }
        if failed {
            return Err(());
        }
        Ok(Case {
            anydata: got_anydata,
            anyxml: got_anyxml,
            choice: got_choice,
            container: got_container,
            description: got_description,
            grouping: got_grouping,
            if_feature: got_if_feature,
            leaf: got_leaf,
            leaf_list: got_leaf_list,
            list: got_list,
            reference: got_reference,
            status: got_status,
            uses: got_uses,
            when: got_when,
        })
    }
}

/// Typed node for the `deviation` construct.
#[derive(Debug)]
pub struct Deviation {
    pub target: String,
    pub description: Option<String>,
    pub deviate: Vec<Deviate>,
    pub reference: Option<String>,
}

impl Deviation {
    pub fn map(stmt: Statement, ctx: &mut ErrorContext) -> (r: Result<Deviation, ()>)
        ensures
            num_errors(final(ctx)@) >= num_errors(old(ctx)@),
            num_warnings(final(ctx)@) >= num_warnings(old(ctx)@),
            r is Err ==> num_errors(final(ctx)@) > num_errors(old(ctx)@),
            r is Ok ==> num_errors(final(ctx)@) == num_errors(old(ctx)@),
            r is Ok ==> stmt.keyword@ == "deviation"@,
            r is Ok ==> (stmt.argument matches Some(a) && (r->Ok_0).target == a),
        decreases stmt, 1int,
    {
        let ghost s0 = stmt;
        if !str_eq(stmt.keyword.as_str(), "deviation") {
            let msg = String::from_str("Expected \"deviation\" keyword");
            ctx.add_error(stmt.argument_span, msg);
            return Err(());
        }
        let Statement { keyword_span, keyword: _, argument_span, argument, statements } = stmt;
        let mut failed = false;
        let target: Option<String> = match argument {
            Some(a) => match <String as ArgumentMapper>::map_argument(a, argument_span, ctx) {
                Ok(v) => Some(v),
                Err(()) => {
                    failed = true;
                    None
                },
            },
            None => {
                let msg = String::from_str("Expected target argument");
                ctx.add_error(argument_span, msg);
                failed = true;
                None
            },
        };
        let mut specs: Vec<AttrSpec> = Vec::new();
        push_spec(&mut specs, "description", Card::Opt);
        push_spec(&mut specs, "deviate", Card::Many);
        push_spec(&mut specs, "reference", Card::Opt);
        let (mut groups, gc_ok) = group_children(statements, &specs, keyword_span, ctx);
        if !gc_ok {
            failed = true;
        }
        let ghost groups0 = groups@;
        proof {
            assert forall|gg: int, ii: int|
                0 <= gg < groups0.len() && 0 <= ii < groups0[gg]@.len() implies decreases_to!(
                s0 => #[trigger] groups0[gg]@[ii]) by {
                let k = choose|k: int|
                    0 <= k < s0.statements@.len() && groups0[gg]@[ii] == s0.statements@[k];
                assert(decreases_to!(s0 => s0.statements));
                assert(decreases_to!(s0.statements => s0.statements@[k]));
            }
        }
        let attr_description = groups.remove(0);
        proof {
            assert(groups@ =~= groups0.skip(1));
            assert(attr_description == groups0[0]);
        }
        let (got_description, bad_description) = map_single_string(attr_description, ctx);
        if bad_description {
            failed = true;
        }
        let attr_deviate = groups.remove(0);
        proof {
            assert(groups@ =~= groups0.skip(2));
            assert(attr_deviate == groups0[1]);
        }
        let (got_deviate, bad_deviate) = map_many_deviate(attr_deviate, Ghost(s0), ctx);
        if bad_deviate {
            failed = true;
        }
        let attr_reference = groups.remove(0);
        proof {
            assert(groups@ =~= groups0.skip(3));
            assert(attr_reference == groups0[2]);
        }
        let (got_reference, bad_reference) = map_single_string(attr_reference, ctx);
        if bad_reference {
            failed = true;
        }
        if failed {
            return Err(());
        }
        Ok(Deviation {
            target: target.unwrap(),
            description: got_description,
            deviate: got_deviate,
            reference: got_reference,
        })
    }
}

/// Typed node for the `deviate` construct.
#[derive(Debug)]
pub struct Deviate {
    pub aspect: DeviateAspect,
    pub config: Option<bool>,
    pub default: Vec<String>,
    pub mandatory: Option<bool>,
    pub max_elements: Option<String>,
    pub min_elements: Option<String>,
    pub must: Vec<String>,
    pub type_: Option<Type>,
    pub unique: Vec<bool>,
    pub units: Option<String>,
}

impl Deviate {
    pub fn map(stmt: Statement, ctx: &mut ErrorContext) -> (r: Result<Deviate, ()>)
        ensures
            num_errors(final(ctx)@) >= num_errors(old(ctx)@),
            num_warnings(final(ctx)@) >= num_warnings(old(ctx)@),
            r is Err ==> num_errors(final(ctx)@) > num_errors(old(ctx)@),
            r is Ok ==> num_errors(final(ctx)@) == num_errors(old(ctx)@),
            r is Ok ==> stmt.keyword@ == "deviate"@,
        decreases stmt, 1int,
    {
        let ghost s0 = stmt;
        if !str_eq(stmt.keyword.as_str(), "deviate") {
            let msg = String::from_str("Expected \"deviate\" keyword");
            ctx.add_error(stmt.argument_span, msg);
            return Err(());
        }
        let Statement { keyword_span, keyword: _, argument_span, argument, statements } = stmt;
        let mut failed = false;
        let aspect: Option<DeviateAspect> = match argument {
            Some(a) => match <DeviateAspect as ArgumentMapper>::map_argument(a, argument_span, ctx) {
                Ok(v) => Some(v),
                Err(()) => {
                    failed = true;
                    None
                },
            },
            None => {
                let msg = String::from_str("Expected aspect argument");
                ctx.add_error(argument_span, msg);
                failed = true;
                None
            },
        };
        let mut specs: Vec<AttrSpec> = Vec::new();
        push_spec(&mut specs, "config", Card::Opt);
        push_spec(&mut specs, "default", Card::Many);
        push_spec(&mut specs, "mandatory", Card::Opt);
        push_spec(&mut specs, "max-elements", Card::Opt);
        push_spec(&mut specs, "min-elements", Card::Opt);
        push_spec(&mut specs, "must", Card::Many);
        push_spec(&mut specs, "type", Card::Opt);
        push_spec(&mut specs, "unique", Card::Many);
        push_spec(&mut specs, "units", Card::Opt);
        let (mut groups, gc_ok) = group_children(statements, &specs, keyword_span, ctx);
        if !gc_ok {
            failed = true;
        }
        let ghost groups0 = groups@;
        proof {
            assert forall|gg: int, ii: int|
                0 <= gg < groups0.len() && 0 <= ii < groups0[gg]@.len() implies decreases_to!(
                s0 => #[trigger] groups0[gg]@[ii]) by {
                let k = choose|k: int|
                    0 <= k < s0.statements@.len() && groups0[gg]@[ii] == s0.statements@[k];
                assert(decreases_to!(s0 => s0.statements));
                assert(decreases_to!(s0.statements => s0.statements@[k]));
            }
        }
        let attr_config = groups.remove(0);
        proof {
            assert(groups@ =~= groups0.skip(1));
            assert(attr_config == groups0[0]);
        }
        let (got_config, bad_config) = map_single_bool(attr_config, ctx);
        if bad_config {
            failed = true;
        }
        let attr_default = groups.remove(0);
        proof {
            assert(groups@ =~= groups0.skip(2));
            assert(attr_default == groups0[1]);
        }
        let (got_default, bad_default) = map_many_string(attr_default, ctx);
        if bad_default {
            failed = true;
        }
        let attr_mandatory = groups.remove(0);
        proof {
            assert(groups@ =~= groups0.skip(3));
            assert(attr_mandatory == groups0[2]);
        }
        let (got_mandatory, bad_mandatory) = map_single_bool(attr_mandatory, ctx);
        if bad_mandatory {
            failed = true;
        }
        let attr_max_elements = groups.remove(0);
        proof {
            assert(groups@ =~= groups0.skip(4));
            assert(attr_max_elements == groups0[3]);
        }
        let (got_max_elements, bad_max_elements) = map_single_string(attr_max_elements, ctx);
        if bad_max_elements {
            failed = true;
        }
        let attr_min_elements = groups.remove(0);
        proof {
            assert(groups@ =~= groups0.skip(5));
            assert(attr_min_elements == groups0[4]);
        }
        let (got_min_elements, bad_min_elements) = map_single_string(attr_min_elements, ctx);
        if bad_min_elements {
            failed = true;
        }
        let attr_must = groups.remove(0);
        proof {
            assert(groups@ =~= groups0.skip(6));
            assert(attr_must == groups0[5]);
        }
        let (got_must, bad_must) = map_many_string(attr_must, ctx);
        if bad_must {
            failed = true;
        }
        let attr_type_ = groups.remove(0);
        proof {
            assert(groups@ =~= groups0.skip(7));
            assert(attr_type_ == groups0[6]);
        }
        let (got_type_, bad_type_) = map_single_type(attr_type_, Ghost(s0), ctx);
        if bad_type_ {
            failed = true;
        }
        let attr_unique = groups.remove(0);
        proof {
            assert(groups@ =~= groups0.skip(8));
            assert(attr_unique == groups0[7]);
        }
        let (got_unique, bad_unique) = map_many_bool(attr_unique, ctx);
        if bad_unique {
            failed = true;
        }
        let attr_units = groups.remove(0);
        proof {
            assert(groups@ =~= groups0.skip(9));
            assert(attr_units == groups0[8]);
        }
        let (got_units, bad_units) = map_single_string(attr_units, ctx);
        if bad_units {
            failed = true;
        }
        if failed {
            return Err(());
        }
        Ok(Deviate {
            aspect: aspect.unwrap(),
            config: got_config,
            default: got_default,
            mandatory: got_mandatory,
            max_elements: got_max_elements,
            min_elements: got_min_elements,
            must: got_must,
            type_: got_type_,
            unique: got_unique,
            units: got_units,
        })
    }
}

/// Typed node for the `module` construct.
#[derive(Debug)]
pub struct Module {
    pub name: String,
    pub yang_version: Option<String>,
    pub import: Vec<Import>,
    pub include_: Vec<Include>,
    pub organization: Option<String>,
    pub contact: Option<String>,
    pub description: Option<String>,
    pub reference: Option<String>,
    pub revision: Option<Revision>,
    pub namespace: String,
    pub prefix: String,
    pub anydata: Vec<AnyDataOrXml>,
    pub anyxml: Vec<AnyDataOrXml>,
    pub augment: Vec<Augment>,
    pub choice: Vec<Choice>,
    pub container: Vec<Container>,
    pub deviation: Vec<Deviation>,
    pub grouping: Vec<Grouping>,
    pub identity: Vec<Identity>,
    pub leaf: Vec<Leaf>,
    pub leaf_list: Vec<LeafList>,
    pub list: Vec<List>,
    pub notification: Vec<Notification>,
    pub rpc: Vec<ActionOrRpc>,
    pub typedef: Vec<Typedef>,
    pub uses: Vec<Uses>,
}

impl Module {
    pub fn map(stmt: Statement, ctx: &mut ErrorContext) -> (r: Result<Module, ()>)
        ensures
            num_errors(final(ctx)@) >= num_errors(old(ctx)@),
            num_warnings(final(ctx)@) >= num_warnings(old(ctx)@),
            r is Err ==> num_errors(final(ctx)@) > num_errors(old(ctx)@),
            r is Ok ==> num_errors(final(ctx)@) == num_errors(old(ctx)@),
            r is Ok ==> stmt.keyword@ == "module"@,
            r is Ok ==> (stmt.argument matches Some(a) && (r->Ok_0).name == a),
        decreases stmt, 1int,
    {
        let ghost s0 = stmt;
        if !str_eq(stmt.keyword.as_str(), "module") {
            let msg = String::from_str("Expected \"module\" keyword");
            ctx.add_error(stmt.argument_span, msg);
            return Err(());
        }
        let Statement { keyword_span, keyword: _, argument_span, argument, statements } = stmt;
        let mut failed = false;
        let name: Option<String> = match argument {
            Some(a) => match <String as ArgumentMapper>::map_argument(a, argument_span, ctx) {
                Ok(v) => Some(v),
                Err(()) => {
                    failed = true;
                    None
                },
            },
            None => {
                let msg = String::from_str("Expected name argument");
                ctx.add_error(argument_span, msg);
                failed = true;
                None
            },
        };
        let mut specs: Vec<AttrSpec> = Vec::new();
        push_spec(&mut specs, "yang-version", Card::Opt);
        push_spec(&mut specs, "import", Card::Many);
        push_spec(&mut specs, "include", Card::Many);
        push_spec(&mut specs, "organization", Card::Opt);
        push_spec(&mut specs, "contact", Card::Opt);
        push_spec(&mut specs, "description", Card::Opt);
        push_spec(&mut specs, "reference", Card::Opt);
        push_spec(&mut specs, "revision", Card::Opt);
        push_spec(&mut specs, "namespace", Card::One);
        push_spec(&mut specs, "prefix", Card::One);
        push_spec(&mut specs, "anydata", Card::Many);
        push_spec(&mut specs, "anyxml", Card::Many);
        push_spec(&mut specs, "augment", Card::Many);
        push_spec(&mut specs, "choice", Card::Many);
        push_spec(&mut specs, "container", Card::Many);
        push_spec(&mut specs, "deviation", Card::Many);
        push_spec(&mut specs, "grouping", Card::Many);
        push_spec(&mut specs, "identity", Card::Many);
        push_spec(&mut specs, "leaf", Card::Many);
        push_spec(&mut specs, "leaf-list", Card::Many);
        push_spec(&mut specs, "list", Card::Many);
        push_spec(&mut specs, "notification", Card::Many);
        push_spec(&mut specs, "rpc", Card::Many);
        push_spec(&mut specs, "typedef", Card::Many);
        push_spec(&mut specs, "uses", Card::Many);
        let (mut groups, gc_ok) = group_children(statements, &specs, keyword_span, ctx);
        if !gc_ok {
            failed = true;
        }
        let ghost groups0 = groups@;
        proof {
            assert forall|gg: int, ii: int|
                0 <= gg < groups0.len() && 0 <= ii < groups0[gg]@.len() implies decreases_to!(
                s0 => #[trigger] groups0[gg]@[ii]) by {
                let k = choose|k: int|
                    0 <= k < s0.statements@.len() && groups0[gg]@[ii] == s0.statements@[k];
                assert(decreases_to!(s0 => s0.statements));
                assert(decreases_to!(s0.statements => s0.statements@[k]));
            }
        }
        let attr_yang_version = groups.remove(0);
        proof {
            assert(groups@ =~= groups0.skip(1));
            assert(attr_yang_version == groups0[0]);
        }
        let (got_yang_version, bad_yang_version) = map_single_string(attr_yang_version, ctx);
        if bad_yang_version {
            failed = true;
        }
        let attr_import = groups.remove(0);
        proof {
            assert(groups@ =~= groups0.skip(2));
            assert(attr_import == groups0[1]);
        }
        let (got_import, bad_import) = map_many_import(attr_import, Ghost(s0), ctx);
        if bad_import {
            failed = true;
        }
        let attr_include_ = groups.remove(0);
        proof {
            assert(groups@ =~= groups0.skip(3));
            assert(attr_include_ == groups0[2]);
        }
        let (got_include_, bad_include_) = map_many_include(attr_include_, Ghost(s0), ctx);
        if bad_include_ {
            failed = true;
        }
        let attr_organization = groups.remove(0);
        proof {
            assert(groups@ =~= groups0.skip(4));
            assert(attr_organization == groups0[3]);
        }
        let (got_organization, bad_organization) = map_single_string(attr_organization, ctx);
        if bad_organization {
            failed = true;
        }
        let attr_contact = groups.remove(0);
        proof {
            assert(groups@ =~= groups0.skip(5));
            assert(attr_contact == groups0[4]);
        }
        let (got_contact, bad_contact) = map_single_string(attr_contact, ctx);
        if bad_contact {
            failed = true;
        }
        let attr_description = groups.remove(0);
        proof {
            assert(groups@ =~= groups0.skip(6));
            assert(attr_description == groups0[5]);
        }
        let (got_description, bad_description) = map_single_string(attr_description, ctx);
        if bad_description {
            failed = true;
        }
        let attr_reference = groups.remove(0);
        proof {
            assert(groups@ =~= groups0.skip(7));
            assert(attr_reference == groups0[6]);
        }
        let (got_reference, bad_reference) = map_single_string(attr_reference, ctx);
        if bad_reference {
            failed = true;
        }
        let attr_revision = groups.remove(0);
        proof {
            assert(groups@ =~= groups0.skip(8));
            assert(attr_revision == groups0[7]);
        }
        let (got_revision, bad_revision) = map_single_revision(attr_revision, Ghost(s0), ctx);
        if bad_revision {
            failed = true;
        }
        let attr_namespace = groups.remove(0);
        proof {
            assert(groups@ =~= groups0.skip(9));
            assert(attr_namespace == groups0[8]);
        }
        let (got_namespace, bad_namespace) = map_single_string(attr_namespace, ctx);
        if bad_namespace {
            failed = true;
        }
        let attr_prefix = groups.remove(0);
        proof {
            assert(groups@ =~= groups0.skip(10));
            assert(attr_prefix == groups0[9]);
        }
        let (got_prefix, bad_prefix) = map_single_string(attr_prefix, ctx);
        if bad_prefix {
            failed = true;
        }
        let attr_anydata = groups.remove(0);
        proof {
            assert(groups@ =~= groups0.skip(11));
            assert(attr_anydata == groups0[10]);
        }
        let (got_anydata, bad_anydata) = map_many_any_data_or_xml(attr_anydata, Ghost(s0), ctx);
        if bad_anydata {
            failed = true;
        }
        let attr_anyxml = groups.remove(0);
        proof {
            assert(groups@ =~= groups0.skip(12));
            assert(attr_anyxml == groups0[11]);
        }
        let (got_anyxml, bad_anyxml) = map_many_any_data_or_xml(attr_anyxml, Ghost(s0), ctx);
        if bad_anyxml {
            failed = true;
        }
        let attr_augment = groups.remove(0);
        proof {
            assert(groups@ =~= groups0.skip(13));
            assert(attr_augment == groups0[12]);
        }
        let (got_augment, bad_augment) = map_many_augment(attr_augment, Ghost(s0), ctx);
        if bad_augment {
            failed = true;
        }
        let attr_choice = groups.remove(0);
        proof {
            assert(groups@ =~= groups0.skip(14));
            assert(attr_choice == groups0[13]);
        }
        let (got_choice, bad_choice) = map_many_choice(attr_choice, Ghost(s0), ctx);
        if bad_choice {
            failed = true;
        }
        let attr_container = groups.remove(0);
        proof {
            assert(groups@ =~= groups0.skip(15));
            assert(attr_container == groups0[14]);
        }
        let (got_container, bad_container) = map_many_container(attr_container, Ghost(s0), ctx);
        if bad_container {
            failed = true;
        }
        let attr_deviation = groups.remove(0);
        proof {
            assert(groups@ =~= groups0.skip(16));
            assert(attr_deviation == groups0[15]);
        }
        let (got_deviation, bad_deviation) = map_many_deviation(attr_deviation, Ghost(s0), ctx);
        if bad_deviation {
            failed = true;
        }
        let attr_grouping = groups.remove(0);
        proof {
            assert(groups@ =~= groups0.skip(17));
            assert(attr_grouping == groups0[16]);
        }
        let (got_grouping, bad_grouping) = map_many_grouping(attr_grouping, Ghost(s0), ctx);
        if bad_grouping {
            failed = true;
        }
        let attr_identity = groups.remove(0);
        proof {
            assert(groups@ =~= groups0.skip(18));
            assert(attr_identity == groups0[17]);
        }
        let (got_identity, bad_identity) = map_many_identity(attr_identity, Ghost(s0), ctx);
        if bad_identity {
            failed = true;
        }
        let attr_leaf = groups.remove(0);
        proof {
            assert(groups@ =~= groups0.skip(19));
            assert(attr_leaf == groups0[18]);
        }
        let (got_leaf, bad_leaf) = map_many_leaf(attr_leaf, Ghost(s0), ctx);
        if bad_leaf {
            failed = true;
        }
        let attr_leaf_list = groups.remove(0);
        proof {
            assert(groups@ =~= groups0.skip(20));
            assert(attr_leaf_list == groups0[19]);
        }
        let (got_leaf_list, bad_leaf_list) = map_many_leaf_list(attr_leaf_list, Ghost(s0), ctx);
        if bad_leaf_list {
            failed = true;
        }
        let attr_list = groups.remove(0);
        proof {
            assert(groups@ =~= groups0.skip(21));
            assert(attr_list == groups0[20]);
        }
        let (got_list, bad_list) = map_many_list(attr_list, Ghost(s0), ctx);
        if bad_list {
            failed = true;
        }
        let attr_notification = groups.remove(0);
        proof {
            assert(groups@ =~= groups0.skip(22));
            assert(attr_notification == groups0[21]);
        }
        let (got_notification, bad_notification) = map_many_notification(attr_notification, Ghost(s0), ctx);
        if bad_notification {
            failed = true;
        }
        let attr_rpc = groups.remove(0);
        proof {
            assert(groups@ =~= groups0.skip(23));
            assert(attr_rpc == groups0[22]);
        }
        let (got_rpc, bad_rpc) = map_many_action_or_rpc(attr_rpc, Ghost(s0), ctx);
        if bad_rpc {
            failed = true;
        }
        let attr_typedef = groups.remove(0);
        proof {
            assert(groups@ =~= groups0.skip(24));
            assert(attr_typedef == groups0[23]);
        }
        let (got_typedef, bad_typedef) = map_many_typedef(attr_typedef, Ghost(s0), ctx);
        if bad_typedef {
            failed = true;
        }
        let attr_uses = groups.remove(0);
        proof {
            assert(groups@ =~= groups0.skip(25));
            assert(attr_uses == groups0[24]);
        }
        let (got_uses, bad_uses) = map_many_uses(attr_uses, Ghost(s0), ctx);
        if bad_uses {
            failed = true;
        }
        if failed {
            return Err(());
        }
        Ok(Module {
            name: name.unwrap(),
            yang_version: got_yang_version,
            import: got_import,
            include_: got_include_,
            organization: got_organization,
            contact: got_contact,
            description: got_description,
            reference: got_reference,
            revision: got_revision,
            namespace: got_namespace.unwrap(),
            prefix: got_prefix.unwrap(),
            anydata: got_anydata,
            anyxml: got_anyxml,
            augment: got_augment,
            choice: got_choice,
            container: got_container,
            deviation: got_deviation,
            grouping: got_grouping,
            identity: got_identity,
            leaf: got_leaf,
            leaf_list: got_leaf_list,
            list: got_list,
            notification: got_notification,
            rpc: got_rpc,
            typedef: got_typedef,
            uses: got_uses,
        })
    }
}

/// Typed node for the `submodule` construct.
#[derive(Debug)]
pub struct SubModule {
    pub name: String,
    pub yang_version: Option<String>,
    pub import: Vec<Import>,
    pub include_: Vec<Include>,
    pub organization: Option<String>,
    pub contact: Option<String>,
    pub description: Option<String>,
    pub reference: Option<String>,
    pub revision: Option<Revision>,
    pub belongs_to: BelongsTo,
    pub anydata: Vec<AnyDataOrXml>,
    pub anyxml: Vec<AnyDataOrXml>,
    pub augment: Vec<Augment>,
    pub choice: Vec<Choice>,
    pub container: Vec<Container>,
    pub deviation: Vec<Deviation>,
    pub grouping: Vec<Grouping>,
    pub identity: Vec<Identity>,
    pub leaf: Vec<Leaf>,
    pub leaf_list: Vec<LeafList>,
    pub list: Vec<List>,
    pub notification: Vec<Notification>,
    pub rpc: Vec<ActionOrRpc>,
    pub typedef: Vec<Typedef>,
    pub uses: Vec<Uses>,
}

impl SubModule {
    pub fn map(stmt: Statement, ctx: &mut ErrorContext) -> (r: Result<SubModule, ()>)
        ensures
            num_errors(final(ctx)@) >= num_errors(old(ctx)@),
            num_warnings(final(ctx)@) >= num_warnings(old(ctx)@),
            r is Err ==> num_errors(final(ctx)@) > num_errors(old(ctx)@),
            r is Ok ==> num_errors(final(ctx)@) == num_errors(old(ctx)@),
            r is Ok ==> stmt.keyword@ == "submodule"@,
            r is Ok ==> (stmt.argument matches Some(a) && (r->Ok_0).name == a),
        decreases stmt, 1int,
    {
        let ghost s0 = stmt;
        if !str_eq(stmt.keyword.as_str(), "submodule") {
            let msg = String::from_str("Expected \"submodule\" keyword");
            ctx.add_error(stmt.argument_span, msg);
            return Err(());
        }
        let Statement { keyword_span, keyword: _, argument_span, argument, statements } = stmt;
        let mut failed = false;
        let name: Option<String> = match argument {
            Some(a) => match <String as ArgumentMapper>::map_argument(a, argument_span, ctx) {
                Ok(v) => Some(v),
                Err(()) => {
                    failed = true;
                    None
                },
            },
            None => {
                let msg = String::from_str("Expected name argument");
                ctx.add_error(argument_span, msg);
                failed = true;
                None
            },
        };
        let mut specs: Vec<AttrSpec> = Vec::new();
        push_spec(&mut specs, "yang-version", Card::Opt);
        push_spec(&mut specs, "import", Card::Many);
        push_spec(&mut specs, "include", Card::Many);
        push_spec(&mut specs, "organization", Card::Opt);
        push_spec(&mut specs, "contact", Card::Opt);
        push_spec(&mut specs, "description", Card::Opt);
        push_spec(&mut specs, "reference", Card::Opt);
        push_spec(&mut specs, "revision", Card::Opt);
        push_spec(&mut specs, "belongs-to", Card::One);
        push_spec(&mut specs, "anydata", Card::Many);
        push_spec(&mut specs, "anyxml", Card::Many);
        push_spec(&mut specs, "augment", Card::Many);
        push_spec(&mut specs, "choice", Card::Many);
        push_spec(&mut specs, "container", Card::Many);
        push_spec(&mut specs, "deviation", Card::Many);
        push_spec(&mut specs, "grouping", Card::Many);
        push_spec(&mut specs, "identity", Card::Many);
        push_spec(&mut specs, "leaf", Card::Many);
        push_spec(&mut specs, "leaf-list", Card::Many);
        push_spec(&mut specs, "list", Card::Many);
        push_spec(&mut specs, "notification", Card::Many);
        push_spec(&mut specs, "rpc", Card::Many);
        push_spec(&mut specs, "typedef", Card::Many);
        push_spec(&mut specs, "uses", Card::Many);
        let (mut groups, gc_ok) = group_children(statements, &specs, keyword_span, ctx);
        if !gc_ok {
            failed = true;
        }
        let ghost groups0 = groups@;
        proof {
            assert forall|gg: int, ii: int|
                0 <= gg < groups0.len() && 0 <= ii < groups0[gg]@.len() implies decreases_to!(
                s0 => #[trigger] groups0[gg]@[ii]) by {
                let k = choose|k: int|
                    0 <= k < s0.statements@.len() && groups0[gg]@[ii] == s0.statements@[k];
                assert(decreases_to!(s0 => s0.statements));
                assert(decreases_to!(s0.statements => s0.statements@[k]));
            }
        }
        let attr_yang_version = groups.remove(0);
        proof {
            assert(groups@ =~= groups0.skip(1));
            assert(attr_yang_version == groups0[0]);
        }
        let (got_yang_version, bad_yang_version) = map_single_string(attr_yang_version, ctx);
        if bad_yang_version {
            failed = true;
        }
        let attr_import = groups.remove(0);
        proof {
            assert(groups@ =~= groups0.skip(2));
            assert(attr_import == groups0[1]);
        }
        let (got_import, bad_import) = map_many_import(attr_import, Ghost(s0), ctx);
        if bad_import {
            failed = true;
        }
        let attr_include_ = groups.remove(0);
        proof {
            assert(groups@ =~= groups0.skip(3));
            assert(attr_include_ == groups0[2]);
        }
        let (got_include_, bad_include_) = map_many_include(attr_include_, Ghost(s0), ctx);
        if bad_include_ {
            failed = true;
        }
        let attr_organization = groups.remove(0);
        proof {
            assert(groups@ =~= groups0.skip(4));
            assert(attr_organization == groups0[3]);
        }
        let (got_organization, bad_organization) = map_single_string(attr_organization, ctx);
        if bad_organization {
            failed = true;
        }
        let attr_contact = groups.remove(0);
        proof {
            assert(groups@ =~= groups0.skip(5));
            assert(attr_contact == groups0[4]);
        }
        let (got_contact, bad_contact) = map_single_string(attr_contact, ctx);
        if bad_contact {
            failed = true;
        }
        let attr_description = groups.remove(0);
        proof {
            assert(groups@ =~= groups0.skip(6));
            assert(attr_description == groups0[5]);
        }
        let (got_description, bad_description) = map_single_string(attr_description, ctx);
        if bad_description {
            failed = true;
        }
        let attr_reference = groups.remove(0);
        proof {
            assert(groups@ =~= groups0.skip(7));
            assert(attr_reference == groups0[6]);
        }
        let (got_reference, bad_reference) = map_single_string(attr_reference, ctx);
        if bad_reference {
            failed = true;
        }
        let attr_revision = groups.remove(0);
        proof {
            assert(groups@ =~= groups0.skip(8));
            assert(attr_revision == groups0[7]);
        }
        let (got_revision, bad_revision) = map_single_revision(attr_revision, Ghost(s0), ctx);
        if bad_revision {
            failed = true;
        }
        let attr_belongs_to = groups.remove(0);
        proof {
            assert(groups@ =~= groups0.skip(9));
            assert(attr_belongs_to == groups0[8]);
        }
        let (got_belongs_to, bad_belongs_to) = map_single_belongs_to(attr_belongs_to, Ghost(s0), ctx);
        if bad_belongs_to {
            failed = true;
        }
        let attr_anydata = groups.remove(0);
        proof {
            assert(groups@ =~= groups0.skip(10));
            assert(attr_anydata == groups0[9]);
        }
        let (got_anydata, bad_anydata) = map_many_any_data_or_xml(attr_anydata, Ghost(s0), ctx);
        if bad_anydata {
            failed = true;
        }
        let attr_anyxml = groups.remove(0);
        proof {
            assert(groups@ =~= groups0.skip(11));
            assert(attr_anyxml == groups0[10]);
        }
        let (got_anyxml, bad_anyxml) = map_many_any_data_or_xml(attr_anyxml, Ghost(s0), ctx);
        if bad_anyxml {
            failed = true;
        }
        let attr_augment = groups.remove(0);
        proof {
            assert(groups@ =~= groups0.skip(12));
            assert(attr_augment == groups0[11]);
        }
        let (got_augment, bad_augment) = map_many_augment(attr_augment, Ghost(s0), ctx);
        if bad_augment {
            failed = true;
        }
        let attr_choice = groups.remove(0);
        proof {
            assert(groups@ =~= groups0.skip(13));
            assert(attr_choice == groups0[12]);
        }
        let (got_choice, bad_choice) = map_many_choice(attr_choice, Ghost(s0), ctx);
        if bad_choice {
            failed = true;
        }
        let attr_container = groups.remove(0);
        proof {
            assert(groups@ =~= groups0.skip(14));
            assert(attr_container == groups0[13]);
        }
        let (got_container, bad_container) = map_many_container(attr_container, Ghost(s0), ctx);
        if bad_container {
            failed = true;
        }
        let attr_deviation = groups.remove(0);
        proof {
            assert(groups@ =~= groups0.skip(15));
            assert(attr_deviation == groups0[14]);
        }
        let (got_deviation, bad_deviation) = map_many_deviation(attr_deviation, Ghost(s0), ctx);
        if bad_deviation {
            failed = true;
        }
        let attr_grouping = groups.remove(0);
        proof {
            assert(groups@ =~= groups0.skip(16));
            assert(attr_grouping == groups0[15]);
        }
        let (got_grouping, bad_grouping) = map_many_grouping(attr_grouping, Ghost(s0), ctx);
        if bad_grouping {
            failed = true;
        }
        let attr_identity = groups.remove(0);
        proof {
            assert(groups@ =~= groups0.skip(17));
            assert(attr_identity == groups0[16]);
        }
        let (got_identity, bad_identity) = map_many_identity(attr_identity, Ghost(s0), ctx);
        if bad_identity {
            failed = true;
        }
        let attr_leaf = groups.remove(0);
        proof {
            assert(groups@ =~= groups0.skip(18));
            assert(attr_leaf == groups0[17]);
        }
        let (got_leaf, bad_leaf) = map_many_leaf(attr_leaf, Ghost(s0), ctx);
        if bad_leaf {
            failed = true;
        }
        let attr_leaf_list = groups.remove(0);
        proof {
            assert(groups@ =~= groups0.skip(19));
            assert(attr_leaf_list == groups0[18]);
        }
        let (got_leaf_list, bad_leaf_list) = map_many_leaf_list(attr_leaf_list, Ghost(s0), ctx);
        if bad_leaf_list {
            failed = true;
        }
        let attr_list = groups.remove(0);
        proof {
            assert(groups@ =~= groups0.skip(20));
            assert(attr_list == groups0[19]);
        }
        let (got_list, bad_list) = map_many_list(attr_list, Ghost(s0), ctx);
        if bad_list {
            failed = true;
        }
        let attr_notification = groups.remove(0);
        proof {
            assert(groups@ =~= groups0.skip(21));
            assert(attr_notification == groups0[20]);
        }
        let (got_notification, bad_notification) = map_many_notification(attr_notification, Ghost(s0), ctx);
        if bad_notification {
            failed = true;
        }
        let attr_rpc = groups.remove(0);
        proof {
            assert(groups@ =~= groups0.skip(22));
            assert(attr_rpc == groups0[21]);
        }
        let (got_rpc, bad_rpc) = map_many_action_or_rpc(attr_rpc, Ghost(s0), ctx);
        if bad_rpc {
            failed = true;
        }
        let attr_typedef = groups.remove(0);
        proof {
            assert(groups@ =~= groups0.skip(23));
            assert(attr_typedef == groups0[22]);
        }
        let (got_typedef, bad_typedef) = map_many_typedef(attr_typedef, Ghost(s0), ctx);
        if bad_typedef {
            failed = true;
        }
        let attr_uses = groups.remove(0);
        proof {
            assert(groups@ =~= groups0.skip(24));
            assert(attr_uses == groups0[23]);
        }
        let (got_uses, bad_uses) = map_many_uses(attr_uses, Ghost(s0), ctx);
        if bad_uses {
            failed = true;
        }
        if failed {
            return Err(());
        }
        Ok(SubModule {
            name: name.unwrap(),
            yang_version: got_yang_version,
            import: got_import,
            include_: got_include_,
            organization: got_organization,
            contact: got_contact,
            description: got_description,
            reference: got_reference,
            revision: got_revision,
            belongs_to: got_belongs_to.unwrap(),
            anydata: got_anydata,
            anyxml: got_anyxml,
            augment: got_augment,
            choice: got_choice,
            container: got_container,
            deviation: got_deviation,
            grouping: got_grouping,
            identity: got_identity,
            leaf: got_leaf,
            leaf_list: got_leaf_list,
            list: got_list,
            notification: got_notification,
            rpc: got_rpc,
            typedef: got_typedef,
            uses: got_uses,
        })
    }
}

} // verus!
