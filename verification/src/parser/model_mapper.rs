//! The generic statement-to-typed-node machinery: child grouping with
//! cardinality checking, duplicate detection, unknown-keyword tolerance and
//! error accumulation, shared by every schema construct.

use vstd::prelude::*;
use crate::Span;
use crate::errors::{num_errors, num_warnings};
use crate::parser::parser::Statement;
use crate::text::{str_eq, str_concat, str_concat3};

pub use crate::errors::ErrorContext;

verus! {

/// Maps one generic statement to a typed value, recording diagnostics.
/// A failed mapping always leaves at least one freshly recorded error.
pub trait Mapper: Sized {
    fn map(statement: Statement, error_context: &mut ErrorContext) -> (r: Result<Self, ()>)
        ensures
            num_errors(final(error_context)@) >= num_errors(old(error_context)@),
            num_warnings(final(error_context)@) >= num_warnings(old(error_context)@),
            r is Err ==> num_errors(final(error_context)@) > num_errors(old(error_context)@),
            r is Ok ==> num_errors(final(error_context)@) == num_errors(old(error_context)@),
    ;
}

/// Maps a statement's argument string to a typed value, recording
/// diagnostics. A failed mapping always records an error.
pub trait ArgumentMapper: Sized {
    fn map_argument(argument: String, argument_span: Span, error_context: &mut ErrorContext) -> (r:
        Result<Self, ()>)
        ensures
            num_errors(final(error_context)@) >= num_errors(old(error_context)@),
            num_warnings(final(error_context)@) >= num_warnings(old(error_context)@),
            r is Err ==> num_errors(final(error_context)@) > num_errors(old(error_context)@),
            r is Ok ==> num_errors(final(error_context)@) == num_errors(old(error_context)@),
    ;
}

impl ArgumentMapper for String {
    fn map_argument(argument: String, _argument_span: Span, _error_context: &mut ErrorContext)
        -> (r: Result<String, ()>)
        ensures
            r == Ok::<String, ()>(argument),
    {
        Ok(argument)
    }
}

impl Mapper for String {
    fn map(statement: Statement, error_context: &mut ErrorContext) -> (r: Result<String, ()>)
        ensures
            statement.argument matches Some(a) ==> r == Ok::<String, ()>(a),
            statement.argument is None ==> r is Err,
            num_warnings(final(error_context)@) == num_warnings(old(error_context)@)
                + if statement.statements@.len() > 0 {
                1int
            } else {
                0int
            },
    {
        if statement.statements.len() > 0 {
            error_context.add_warning(
                statement.keyword_span,
                String::from_str("Unexpected statements"),
            );
        }
        match statement.argument {
            Some(arg) => Ok(arg),
            None => {
                error_context.add_error(
                    statement.argument_span,
                    String::from_str("Expected argument"),
                );
                Err(())
            },
        }
    }
}

/// How often a child attribute may occur under its construct.
#[derive(Debug, Clone, Copy, PartialEq, Eq, Structural)]
pub enum Card {
    One,
    Opt,
    Many,
}

/// One declared child attribute of a construct: its schema keyword and its
/// cardinality.
pub struct AttrSpec {
    pub name: String,
    pub card: Card,
}

pub fn push_spec(specs: &mut Vec<AttrSpec>, name: &str, card: Card)
    ensures
        final(specs)@.len() == old(specs)@.len() + 1,
        final(specs)@.drop_last() == old(specs)@,
        final(specs)@.last().name@ == name@,
        final(specs)@.last().card == card,
{
    let spec = AttrSpec { name: String::from_str(name), card };
    specs.push(spec);
    proof {
        assert(specs@.drop_last() =~= old(specs)@);
    }
}

/// Whether `kw` names one of the declared attributes.
pub open spec fn known_attr(specs: Seq<AttrSpec>, kw: Seq<char>) -> bool {
    exists|j: int| 0 <= j < specs.len() && (#[trigger] specs[j]).name@ == kw
}

/// Number of children whose keyword names no declared attribute.
pub open spec fn count_unknown(children: Seq<Statement>, specs: Seq<AttrSpec>) -> int
    decreases children.len(),
{
    if children.len() == 0 {
        0
    } else {
        count_unknown(children.drop_last(), specs) + if known_attr(specs, children.last().keyword@) {
            0int
        } else {
            1int
        }
    }
}

pub proof fn lemma_count_unknown_bounds(children: Seq<Statement>, specs: Seq<AttrSpec>)
    ensures
        0 <= count_unknown(children, specs) <= children.len(),
    decreases children.len(),
{
    if children.len() > 0 {
        lemma_count_unknown_bounds(children.drop_last(), specs);
    }
}

/// Reverses a vector.
pub fn reverse_vec<T>(v: Vec<T>) -> (r: Vec<T>)
    ensures
        r@.len() == v@.len(),
        forall|i: int| 0 <= i < v@.len() ==> r@[i] == v@[v@.len() - 1 - i],
{
    let mut rest = v;
    let mut out: Vec<T> = Vec::new();
    let ghost v0 = rest@;
    while rest.len() > 0
        invariant
            rest@ == v0.take(v0.len() - out@.len()),
            out@.len() <= v0.len(),
            forall|i: int| 0 <= i < out@.len() ==> out@[i] == v0[v0.len() - 1 - i],
        decreases rest@.len(),
    {
        let x = rest.pop().unwrap();
        out.push(x);
        proof {
            assert(rest@ =~= v0.take(v0.len() - out@.len()));
        }
    }
    out
}

/// Total number of statements distributed over the groups.
pub open spec fn groups_total(gs: Seq<Vec<Statement>>) -> int
    decreases gs.len(),
{
    if gs.len() == 0 {
        0
    } else {
        groups_total(gs.drop_last()) + gs.last()@.len()
    }
}

proof fn lemma_groups_total_remove(gs: Seq<Vec<Statement>>, i: int)
    requires
        0 <= i < gs.len(),
    ensures
        groups_total(gs.remove(i)) == groups_total(gs) - gs[i]@.len(),
    decreases gs.len(),
{
    if i == gs.len() - 1 {
        assert(gs.remove(i) =~= gs.drop_last());
    } else {
        assert(gs.remove(i).drop_last() =~= gs.drop_last().remove(i));
        assert(gs.remove(i).last() == gs.last());
        lemma_groups_total_remove(gs.drop_last(), i);
    }
}

proof fn lemma_groups_total_insert(gs: Seq<Vec<Statement>>, i: int, v: Vec<Statement>)
    requires
        0 <= i <= gs.len(),
    ensures
        groups_total(gs.insert(i, v)) == groups_total(gs) + v@.len(),
    decreases gs.len(),
{
    if i == gs.len() {
        assert(gs.insert(i, v).drop_last() =~= gs);
        assert(gs.insert(i, v).last() == v);
    } else {
        assert(gs.insert(i, v).drop_last() =~= gs.drop_last().insert(i, v));
        assert(gs.insert(i, v).last() == gs.last());
        lemma_groups_total_insert(gs.drop_last(), i, v);
    }
}

/// Distributes a statement's children over its declared attributes, in
/// document order.
///
/// - a child whose keyword matches no attribute is dropped with exactly one
///   warning (unknown-keyword tolerance);
/// - a second occurrence of a singular attribute is dropped with an error;
/// - a mandatory attribute with no occurrence is an error at `parent_span`.
///
/// Every statement in a group carries that attribute's keyword; when no
/// error occurred, every child was either placed in its group or warned
/// about as unknown. The second result is true exactly when no error was
/// recorded; warnings alone never fail the grouping.
pub fn group_children(
    children: Vec<Statement>,
    specs: &Vec<AttrSpec>,
    parent_span: Span,
    ctx: &mut ErrorContext,
) -> (r: (Vec<Vec<Statement>>, bool))
    ensures
        r.0@.len() == specs@.len(),
        forall|g: int, i: int|
            0 <= g < r.0@.len() && 0 <= i < r.0@[g]@.len() ==> exists|k: int|
                0 <= k < children@.len() && (#[trigger] r.0@[g]@[i]) == children@[k],
        forall|g: int, i: int|
            0 <= g < r.0@.len() && 0 <= i < r.0@[g]@.len() ==> (#[trigger] r.0@[g]@[i]).keyword@
                == specs@[g].name@,
        forall|g: int|
            0 <= g < specs@.len() && (#[trigger] specs@[g]).card != Card::Many ==> r.0@[g]@.len()
                <= 1,
        r.1 ==> forall|g: int|
            0 <= g < specs@.len() && (#[trigger] specs@[g]).card == Card::One ==> r.0@[g]@.len()
                == 1,
        r.1 ==> groups_total(r.0@) + count_unknown(children@, specs@) == children@.len(),
        num_warnings(final(ctx)@) == num_warnings(old(ctx)@) + count_unknown(children@, specs@),
        num_warnings(final(ctx)@) >= num_warnings(old(ctx)@),
        num_errors(final(ctx)@) >= num_errors(old(ctx)@),
        r.1 <==> num_errors(final(ctx)@) == num_errors(old(ctx)@),
{
    let ghost c0 = children@;
    let mut groups: Vec<Vec<Statement>> = Vec::new();
    let mut gi: usize = 0;
    while gi < specs.len()
        invariant
            groups@.len() == gi <= specs@.len(),
            forall|g: int| 0 <= g < gi ==> (#[trigger] groups@[g])@.len() == 0,
            groups_total(groups@) == 0,
        decreases specs@.len() - gi,
    {
        let ghost gp = groups@;
        groups.push(Vec::new());
        proof {
            assert(groups@.drop_last() =~= gp);
            assert(groups@.last()@.len() == 0);
        }
        gi = gi + 1;
    }
    let mut ok = true;
    let mut rest = reverse_vec(children);
    while rest.len() > 0
        invariant
            groups@.len() == specs@.len(),
            rest@.len() <= c0.len(),
            forall|i: int| 0 <= i < rest@.len() ==> rest@[i] == c0[c0.len() - 1 - i],
            forall|g: int, i: int|
                0 <= g < groups@.len() && 0 <= i < groups@[g]@.len() ==> exists|k: int|
                    0 <= k < c0.len() && (#[trigger] groups@[g]@[i]) == c0[k],
            forall|g: int, i: int|
                0 <= g < groups@.len() && 0 <= i < groups@[g]@.len() ==> (#[trigger] groups@[g]@[
                    i]).keyword@ == specs@[g].name@,
            forall|g: int|
                0 <= g < specs@.len() && (#[trigger] specs@[g]).card != Card::Many
                    ==> groups@[g]@.len() <= 1,
            ok ==> groups_total(groups@) + count_unknown(
                c0.take(c0.len() - rest@.len()),
                specs@,
            ) == c0.len() - rest@.len(),
            num_warnings(ctx@) == num_warnings(old(ctx)@) + count_unknown(
                c0.take(c0.len() - rest@.len()),
                specs@,
            ),
            num_errors(ctx@) >= num_errors(old(ctx)@),
            ok <==> num_errors(ctx@) == num_errors(old(ctx)@),
        decreases rest@.len(),
    {
        let ghost processed = c0.take(c0.len() - rest@.len());
        let child = rest.pop().unwrap();
        proof {
            assert(child == c0[processed.len() as int]);
            assert(c0.take(c0.len() - rest@.len()).drop_last() =~= processed);
            assert(c0.take(c0.len() - rest@.len()).last() == child);
        }
        let mut j: usize = 0;
        let mut found = false;
        let mut idx: usize = 0;
        while j < specs.len()
            invariant
                0 <= j <= specs@.len(),
                !found ==> forall|q: int|
                    0 <= q < j ==> (#[trigger] specs@[q]).name@ != child.keyword@,
                found ==> idx < specs@.len() && specs@[idx as int].name@ == child.keyword@,
            decreases specs@.len() - j,
        {
            if str_eq(child.keyword.as_str(), specs[j].name.as_str()) {
                found = true;
                idx = j;
                j = specs.len();
            } else {
                j = j + 1;
            }
        }
        if !found {
            let msg = str_concat("Unexpected keyword ", child.keyword.as_str());
            ctx.add_warning(child.keyword_span, msg);
            proof {
                assert(!known_attr(specs@, child.keyword@));
            }
        } else {
            proof {
                assert(known_attr(specs@, child.keyword@));
            }
            let not_many = !matches!(specs[idx].card, Card::Many);
            if not_many && groups[idx].len() > 0 {
                let msg = str_concat("Unexpected multiple ", specs[idx].name.as_str());
                ctx.add_error(child.keyword_span, msg);
                ok = false;
            } else {
                let ghost gpre = groups@;
                let mut g = groups.remove(idx);
                g.push(child);
                groups.insert(idx, g);
                proof {
                    assert(groups@[idx as int]@ =~= gpre[idx as int]@.push(child));
                    assert(forall|q: int|
                        0 <= q < groups@.len() && q != idx ==> groups@[q] == gpre[q]);
                    lemma_groups_total_remove(gpre, idx as int);
                    lemma_groups_total_insert(gpre.remove(idx as int), idx as int, g);
                    assert(groups@ =~= gpre.remove(idx as int).insert(idx as int, g));
                }
            }
        }
    }
    proof {
        assert(c0.take(c0.len() as int) =~= c0);
        lemma_count_unknown_bounds(c0, specs@);
    }
    let mut j: usize = 0;
    while j < specs.len()
        invariant
            0 <= j <= specs@.len(),
            groups@.len() == specs@.len(),
            forall|g: int, i: int|
                0 <= g < groups@.len() && 0 <= i < groups@[g]@.len() ==> exists|k: int|
                    0 <= k < c0.len() && (#[trigger] groups@[g]@[i]) == c0[k],
            forall|g: int, i: int|
                0 <= g < groups@.len() && 0 <= i < groups@[g]@.len() ==> (#[trigger] groups@[g]@[
                    i]).keyword@ == specs@[g].name@,
            forall|g: int|
                0 <= g < specs@.len() && (#[trigger] specs@[g]).card != Card::Many
                    ==> groups@[g]@.len() <= 1,
            ok ==> forall|g: int|
                0 <= g < j && (#[trigger] specs@[g]).card == Card::One ==> groups@[g]@.len()
                    >= 1,
            ok ==> groups_total(groups@) + count_unknown(c0, specs@) == c0.len(),
            num_warnings(ctx@) == num_warnings(old(ctx)@) + count_unknown(c0, specs@),
            num_errors(ctx@) >= num_errors(old(ctx)@),
            ok <==> num_errors(ctx@) == num_errors(old(ctx)@),
        decreases specs@.len() - j,
    {
        if matches!(specs[j].card, Card::One) && groups[j].len() == 0 {
            let msg = str_concat3("Expected ", specs[j].name.as_str(), " attribute");
            ctx.add_error(parent_span, msg);
            ok = false;
        }
        j = j + 1;
    }
    (groups, ok)
}

} // verus!
