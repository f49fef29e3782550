//! The string type descriptor: a length range and an accumulated set of
//! regular-expression patterns, compiled through the regex crate.

use vstd::prelude::*;
use crate::errors::{num_errors, num_warnings, ErrorContext};
use crate::parser::model;
use crate::parser::model::{LengthBoundary, LengthRangePattern, LengthRangePatternPart};
use crate::typing::number::lemma_contained_in_self;
use crate::typing::range::{
    contained_in, copy_range, derive_range, lemma_derive_range_containment,
    lemma_derive_range_ordering, range_wf, spec_derive, Bound, RangePart,
};
use crate::typing::warn_unused;
use crate::Span;

verus! {

#[verifier::external_type_specification]
#[verifier::external_body]
pub struct ExRegexSet(regex::RegexSet);

/// The pattern texts a compiled regex set was built from, in order; a
/// function of the set alone.
pub uninterp spec fn regex_set_patterns(rs: regex::RegexSet) -> Seq<Seq<char>>;

/// Whether the regex crate compiles these pattern texts as a set; a
/// function of the texts alone.
pub uninterp spec fn regex_compiles(patterns: Seq<Seq<char>>) -> bool;

/// Relies on regex::RegexSet::new: on success the compiled set holds
/// exactly the given patterns, in the given order, as
/// regex::RegexSet::patterns documents; compilation fails exactly when some
/// pattern is not a valid regular expression, which depends on the pattern
/// texts alone. The error is rendered to its display text.
#[verifier::external_body]
fn regex_set_new(patterns: &Vec<String>) -> (r: Result<regex::RegexSet, String>)
    ensures
        r is Ok <==> regex_compiles(patterns.deep_view()),
        r matches Ok(rs) ==> regex_set_patterns(rs) == patterns.deep_view(),
{
    match regex::RegexSet::new(patterns) {
        Ok(rs) => Ok(rs),
        Err(e) => Err(e.to_string()),
    }
}

/// Relies on regex::RegexSet::patterns: hands back the pattern texts the
/// set was built from, in order.
#[verifier::external_body]
fn regex_set_pattern_vec(rs: &regex::RegexSet) -> (r: Vec<String>)
    ensures
        r.deep_view() == regex_set_patterns(*rs),
{
    rs.patterns().to_vec()
}

/// Relies on regex::RegexSet's Clone: a clone holds the same patterns.
pub assume_specification[ <regex::RegexSet as Clone>::clone ](rs: &regex::RegexSet) -> (r:
    regex::RegexSet)
    ensures
        regex_set_patterns(r) == regex_set_patterns(*rs),
;

/// The texts of the `pattern` children of a type statement.
pub open spec fn pattern_texts(ps: Seq<model::Pattern>) -> Seq<Seq<char>> {
    Seq::new(ps.len(), |i: int| ps[i].regex@)
}

/// The patterns a string descriptor carries.
pub open spec fn spec_patterns(p: Option<regex::RegexSet>) -> Seq<Seq<char>> {
    match p {
        Some(rs) => regex_set_patterns(rs),
        None => Seq::empty(),
    }
}

/// Maps a parsed length boundary into the shared domain.
pub open spec fn lift_length_bound(b: LengthBoundary) -> Bound {
    match b {
        LengthBoundary::Min => Bound::Min,
        LengthBoundary::Max => Bound::Max,
        LengthBoundary::Value(v) => Bound::Lit(v as i128),
    }
}

/// The resolved boundary pairs of a whole length expression; length
/// boundaries always have a value in the shared domain.
pub open spec fn spec_resolve_length_parts(ps: Seq<LengthRangePatternPart<LengthBoundary>>) -> Seq<
    (Bound, Option<Bound>),
> {
    Seq::new(
        ps.len(),
        |i: int|
            (
                lift_length_bound(ps[i].lower_boundary),
                match ps[i].upper_boundary {
                    Some(u) => Some(lift_length_bound(u)),
                    None => None,
                },
            ),
    )
}

/// Resolves the parsed boundaries of a length expression into the shared
/// domain.
fn resolve_length_parts(p: &LengthRangePattern<LengthBoundary>) -> (r: Vec<(Bound, Option<Bound>)>)
    ensures
        r@ == spec_resolve_length_parts(p.0@),
{
    let mut out: Vec<(Bound, Option<Bound>)> = Vec::new();
    let mut i: usize = 0;
    while i < p.0.len()
        invariant
            out@.len() == i <= p.0@.len(),
            forall|q: int|
                0 <= q < i ==> (#[trigger] out@[q]) == spec_resolve_length_parts(p.0@)[q],
        decreases p.0@.len() - i,
    {
        let part = p.0[i];
        let lb = part.lower_boundary.resolve();
        let ub = match part.upper_boundary {
            Some(u) => Some(u.resolve()),
            None => None,
        };
        out.push((lb, ub));
        i = i + 1;
    }
    proof {
        assert(out@ =~= spec_resolve_length_parts(p.0@));
    }
    out
}

/// Whether the model carries a child that a string type does not consume.
pub open spec fn spec_string_unused(model: &model::Type) -> bool {
    model.base is Some || model.bit@.len() > 0 || model.enum_@.len() > 0
        || model.fraction_digits is Some || model.range is Some || model.path is Some
        || model.require_instance is Some || model.type_@.len() > 0
}

/// A string type: its length range over the length domain, and the set of
/// patterns accumulated along the restriction chain.
///
/// The descriptor stores the union of all inherited and declared patterns
/// as one compiled set; restrictions only ever add patterns. A value
/// conforms to the type when it matches every pattern of the set (their
/// conjunction), which a consumer checks by asking the set for all matches
/// rather than for any one; the core itself never evaluates values against
/// the set.
#[derive(Debug, Clone)]
pub struct StringType {
    pub length: Vec<RangePart>,
    pub pattern: Option<regex::RegexSet>,
}

impl StringType {
    /// A usable string descriptor: a non-empty, well-formed length range.
    pub open spec fn wf(&self) -> bool {
        self.length@.len() > 0 && range_wf(self.length@)
    }

    pub fn get_rust_type(&self) -> (r: &str)
        ensures
            r@ == "String"@,
    {
        "String"
    }

    /// Narrows this string type: a `length` child restricts the length
    /// range within the base range; `pattern` children add patterns to the
    /// inherited set, never removing any; other populated children are
    /// inapplicable and only warned about.
    pub fn derive(&self, model: &model::Type, ctx: &mut ErrorContext) -> (r: Result<
        StringType,
        (),
    >)
        requires
            self.wf(),
        ensures
            num_errors(final(ctx)@) >= num_errors(old(ctx)@),
            num_warnings(final(ctx)@) == num_warnings(old(ctx)@) + if spec_string_unused(model) {
                1int
            } else {
                0int
            },
            r is Err ==> num_errors(final(ctx)@) > num_errors(old(ctx)@),
            r is Ok ==> num_errors(final(ctx)@) == num_errors(old(ctx)@),
            r is Ok ==> range_wf((r->Ok_0).length@) && contained_in(
                (r->Ok_0).length@,
                self.length@,
            ),
            r is Ok ==> spec_patterns((r->Ok_0).pattern) == spec_patterns(self.pattern)
                + pattern_texts(model.pattern@),
            r is Ok ==> match model.length {
                None => (r->Ok_0).length@ == self.length@,
                Some(lg) => spec_derive(
                    self.length@,
                    spec_resolve_length_parts(lg.length_expression.0@),
                ) == Some((r->Ok_0).length@),
            },
            ({
                let length_ok = match model.length {
                    None => true,
                    Some(lg) => spec_derive(
                        self.length@,
                        spec_resolve_length_parts(lg.length_expression.0@),
                    ) is Some,
                };
                let patterns_ok = model.pattern@.len() == 0 || regex_compiles(
                    spec_patterns(self.pattern) + pattern_texts(model.pattern@),
                );
                (length_ok && patterns_ok <==> r is Ok)
            }),
    {
        let zero_span = Span { start: 0, end: 0 };
        let mut unused: Vec<String> = Vec::new();
        if model.base.is_some() {
            unused.push(String::from_str("base"));
        }
        if model.bit.len() > 0 {
            unused.push(String::from_str("bit"));
        }
        if model.enum_.len() > 0 {
            unused.push(String::from_str("enum"));
        }
        if model.fraction_digits.is_some() {
            unused.push(String::from_str("fraction-digits"));
        }
        if model.range.is_some() {
            unused.push(String::from_str("range"));
        }
        if model.path.is_some() {
            unused.push(String::from_str("path"));
        }
        if model.require_instance.is_some() {
            unused.push(String::from_str("require-instance"));
        }
        if model.type_.len() > 0 {
            unused.push(String::from_str("type"));
        }
        warn_unused(unused, ctx);

        let length = match &model.length {
            Some(lg) => {
                let parts = resolve_length_parts(&lg.length_expression);
                match derive_range(&self.length, Some(&parts), ctx) {
                    Ok(out) => {
                        proof {
                            lemma_derive_range_ordering(self.length@, parts@, out@);
                            lemma_derive_range_containment(self.length@, parts@, out@);
                        }
                        out
                    },
                    Err(()) => {
                        return Err(());
                    },
                }
            },
            None => {
                proof {
                    lemma_contained_in_self(self.length@);
                }
                copy_range(&self.length)
            },
        };

        let pattern: Option<regex::RegexSet> = if model.pattern.len() == 0 {
            match &self.pattern {
                Some(rs) => {
                    proof {
                        assert(spec_patterns(self.pattern) + pattern_texts(model.pattern@)
                            =~= spec_patterns(self.pattern));
                    }
                    Some(rs.clone())
                },
                None => {
                    proof {
                        assert(spec_patterns(self.pattern) + pattern_texts(model.pattern@)
                            =~= Seq::<Seq<char>>::empty());
                    }
                    None
                },
            }
        } else {
            let mut pats: Vec<String> = match &self.pattern {
                Some(rs) => regex_set_pattern_vec(rs),
                None => Vec::new(),
            };
            let ghost inherited = pats.deep_view();
            proof {
                assert(pats.deep_view() =~= inherited + pattern_texts(
                    model.pattern@.take(0),
                ));
            }
            let mut i: usize = 0;
            while i < model.pattern.len()
                invariant
                    0 <= i <= model.pattern@.len(),
                    pats.deep_view() == inherited + pattern_texts(model.pattern@.take(i as int)),
                decreases model.pattern@.len() - i,
            {
                let ghost pre = pats@;
                let ghost pre_dv = pats.deep_view();
                proof {
                    assert(pre_dv == inherited + pattern_texts(model.pattern@.take(i as int)));
                    assert(pre_dv.len() == pre.len());
                }
                pats.push(model.pattern[i].regex.clone());
                proof {
                    assert(pats@ =~= pre.push(model.pattern@[i as int].regex));
                    assert(pre.len() == inherited.len() + i);
                    assert forall|t: int| 0 <= t < pats@.len() implies #[trigger] pats.deep_view()[
                        t] == (inherited + pattern_texts(model.pattern@.take(i + 1)))[t] by {
                        assert(pats.deep_view()[t] == pats@[t]@);
                        if t < pre.len() {
                            assert(pats@[t] == pre[t]);
                            assert(pre[t]@ == (inherited + pattern_texts(
                                model.pattern@.take(i as int),
                            ))[t]);
                        } else {
                            assert(t == pre.len());
                            assert(pats@[t] == model.pattern@[i as int].regex);
                            assert(model.pattern@.take(i + 1)[i as int]
                                == model.pattern@[i as int]);
                            assert(pattern_texts(model.pattern@.take(i + 1))[i as int]
                                == model.pattern@[i as int].regex@);
                        }
                    }
                    assert(pats.deep_view() =~= inherited + pattern_texts(
                        model.pattern@.take(i + 1),
                    ));
                }
                i = i + 1;
            }
            proof {
                assert(model.pattern@.take(model.pattern@.len() as int) =~= model.pattern@);
            }
            match regex_set_new(&pats) {
                Ok(rs) => Some(rs),
                Err(e) => {
                    ctx.add_error(zero_span, e);
                    return Err(());
                },
            }
        };

        Ok(StringType { length, pattern })
    }
}

} // verus!
