//! The enumeration type descriptor: named items with distinct values,
//! auto-numbered when no explicit value is given.

use vstd::prelude::*;
use crate::Span;
use crate::errors::{num_errors, num_warnings, ErrorContext};
use crate::parser::model;
use crate::text::{str_concat, str_eq};
use crate::typing::warn_unused;

verus! {

/// Whether the model carries a child that an enumeration does not consume.
pub open spec fn spec_enum_unused(model: &model::Type) -> bool {
    model.base is Some || model.bit@.len() > 0 || model.fraction_digits is Some
        || model.length is Some || model.range is Some || model.path is Some
        || model.pattern@.len() > 0 || model.require_instance is Some || model.type_@.len() > 0
}

/// The names and explicit values of the declared `enum` children.
pub open spec fn enum_inputs(es: Seq<model::Enum>) -> Seq<(Seq<char>, Option<int>)> {
    Seq::new(
        es.len(),
        |i: int|
            (
                es[i].name@,
                match es[i].value {
                    Some(v) => Some(v as int),
                    None => None,
                },
            ),
    )
}

/// The names and values of resolved enumeration items.
pub open spec fn item_views(items: Seq<(String, i32)>) -> Seq<(Seq<char>, int)> {
    Seq::new(items.len(), |i: int| (items[i].0@, items[i].1 as int))
}

/// No two declared items share a name.
pub open spec fn distinct_names(xs: Seq<(Seq<char>, Option<int>)>) -> bool {
    forall|i: int, j: int| 0 <= i < j < xs.len() ==> (#[trigger] xs[i]).0 != (#[trigger] xs[j]).0
}

/// Auto-numbering of enumeration items: an explicit value must be distinct
/// from every value assigned so far; an item without one receives one more
/// than the running maximum, which starts at minus one. A value outside the
/// 32-bit range rejects the enumeration.
pub open spec fn spec_assign_loop(
    xs: Seq<(Seq<char>, Option<int>)>,
    i: int,
    acc: Seq<(Seq<char>, int)>,
    maxv: int,
) -> Option<Seq<(Seq<char>, int)>>
    decreases xs.len() - i,
{
    if i < 0 || i >= xs.len() {
        Some(acc)
    } else {
        match xs[i].1 {
            Some(v) => {
                if exists|k: int| 0 <= k < acc.len() && (#[trigger] acc[k]).1 == v {
                    None
                } else {
                    spec_assign_loop(
                        xs,
                        i + 1,
                        acc.push((xs[i].0, v)),
                        if v > maxv {
                            v
                        } else {
                            maxv
                        },
                    )
                }
            },
            None => {
                if maxv + 1 > i32::MAX {
                    None
                } else {
                    spec_assign_loop(xs, i + 1, acc.push((xs[i].0, maxv + 1)), maxv + 1)
                }
            },
        }
    }
}

pub open spec fn spec_assign(xs: Seq<(Seq<char>, Option<int>)>) -> Option<Seq<(Seq<char>, int)>> {
    spec_assign_loop(xs, 0, Seq::empty(), -1)
}

/// A declared item occurs in the base enumeration: same name, and the same
/// value where the declaration gives one.
pub open spec fn item_in_base(e: model::Enum, base: Seq<(String, i32)>) -> bool {
    exists|j: int|
        0 <= j < base.len() && (#[trigger] base[j]).0@ == e.name@ && (match e.value {
            Some(v) => base[j].1 == v,
            None => true,
        })
}

/// Restriction of an already-enumerated base: every declared item matches a
/// base item by name, carries that base item's value, and any declared
/// value agrees with it.
pub open spec fn subtype_items_ok(
    es: Seq<model::Enum>,
    base: Seq<(String, i32)>,
    its: Seq<(String, i32)>,
) -> bool {
    &&& its.len() == es.len()
    &&& forall|i: int|
        0 <= i < its.len() ==> (#[trigger] its[i]).0@ == es[i].name@ && (exists|j: int|
            0 <= j < base.len() && (#[trigger] base[j]).0@ == its[i].0@ && base[j].1 == its[i].1)
            && (match es[i].value {
            Some(v) => its[i].1 == v,
            None => true,
        })
}

/// An enumeration type: its items, or nothing while still abstract.
#[derive(Debug, Clone)]
pub struct EnumerationType {
    pub items: Option<Vec<(String, i32)>>,
}

impl EnumerationType {
    pub fn get_rust_type(&self) -> (r: &str)
        ensures
            r@ == "i32"@,
    {
        "i32"
    }

    /// An enumeration stays abstract until it has items.
    pub fn is_abstract_type(&self) -> (r: bool)
        ensures
            r == (self.items is None),
    {
        self.items.is_none()
    }

    /// Derives an enumeration. Duplicate item names are always an error.
    /// On the abstract primitive, items are assigned by auto-numbering, and
    /// duplicate explicit values are an error. On a base with concrete
    /// items, every declared item must match a base item by name, and
    /// carries that base item's value, which any declared value must equal.
    #[verifier::rlimit(60)]
    pub fn derive(&self, model: &model::Type, ctx: &mut ErrorContext) -> (r: Result<
        EnumerationType,
        (),
    >)
        ensures
            num_errors(final(ctx)@) >= num_errors(old(ctx)@),
            num_warnings(final(ctx)@) == num_warnings(old(ctx)@) + if spec_enum_unused(model) {
                1int
            } else {
                0int
            },
            r is Err ==> num_errors(final(ctx)@) > num_errors(old(ctx)@),
            r is Ok ==> num_errors(final(ctx)@) == num_errors(old(ctx)@),
            r is Ok ==> (r->Ok_0).items is Some,
            !distinct_names(enum_inputs(model.enum_@)) ==> r is Err,
            self.items is None ==> match spec_assign(enum_inputs(model.enum_@)) {
                Some(assigned) => distinct_names(enum_inputs(model.enum_@)) ==> r is Ok
                    && item_views((r->Ok_0).items->Some_0@) == assigned,
                None => r is Err,
            },
            self.items is Some && r is Ok ==> subtype_items_ok(
                model.enum_@,
                self.items->Some_0@,
                (r->Ok_0).items->Some_0@,
            ),
            (self.items matches Some(base) && distinct_names(enum_inputs(model.enum_@)) && (
            forall|i: int|
                0 <= i < model.enum_@.len() ==> item_in_base(
                    #[trigger] model.enum_@[i],
                    base@,
                ))) ==> r is Ok,
    {
        let zero_span = Span { start: 0, end: 0 };
        let mut unused: Vec<String> = Vec::new();
        if model.base.is_some() {
            unused.push(String::from_str("base"));
        }
        if model.bit.len() > 0 {
            unused.push(String::from_str("bit"));
        }
        if model.fraction_digits.is_some() {
            unused.push(String::from_str("fraction-digits"));
        }
        if model.length.is_some() {
            unused.push(String::from_str("length"));
        }
        if model.range.is_some() {
            unused.push(String::from_str("range"));
        }
        if model.path.is_some() {
            unused.push(String::from_str("path"));
        }
        if model.pattern.len() > 0 {
            unused.push(String::from_str("pattern"));
        }
        if model.require_instance.is_some() {
            unused.push(String::from_str("require-instance"));
        }
        if model.type_.len() > 0 {
            unused.push(String::from_str("type"));
        }
        warn_unused(unused, ctx);

        let es = &model.enum_;
        let n = es.len();
        let ghost xs = enum_inputs(model.enum_@);

        // duplicate names are rejected whatever the base
        let mut i: usize = 0;
        while i < n
            invariant
                0 <= i <= n,
                n == es@.len(),
                xs == enum_inputs(es@),
                es@ == model.enum_@,
                num_errors(ctx@) == num_errors(old(ctx)@),
                num_warnings(ctx@) == num_warnings(old(ctx)@) + if spec_enum_unused(model) { 1int } else { 0int },
                forall|a: int, b: int|
                    0 <= a < b < i ==> (#[trigger] xs[a]).0 != (#[trigger] xs[b]).0,
            decreases n - i,
        {
            let mut j: usize = 0;
            while j < i
                invariant
                    0 <= j <= i < n,
                    n == es@.len(),
                    xs == enum_inputs(es@),
                    es@ == model.enum_@,
                    num_errors(ctx@) == num_errors(old(ctx)@),
                    num_warnings(ctx@) == num_warnings(old(ctx)@) + if spec_enum_unused(model) { 1int } else { 0int },
                    forall|b: int| 0 <= b < j ==> (#[trigger] xs[b]).0 != xs[i as int].0,
                decreases i - j,
            {
                if str_eq(es[j].name.as_str(), es[i].name.as_str()) {
                    ctx.add_error(zero_span, String::from_str("Duplicate enum item names"));
                    proof {
                        assert(xs[j as int].0 == xs[i as int].0);
                        assert(!distinct_names(xs));
                    }
                    return Err(());
                }
                j = j + 1;
            }
            i = i + 1;
        }
        proof {
            assert(distinct_names(xs));
        }

        let mut items: Vec<(String, i32)> = Vec::new();
        if self.items.is_none() {
            proof {
                assert(item_views(items@) =~= Seq::<(Seq<char>, int)>::empty());
            }
            let mut max_value: i64 = -1;
            let mut i2: usize = 0;
            while i2 < n
                invariant
                    0 <= i2 <= n,
                    n == es@.len(),
                    self.items is None,
                    xs == enum_inputs(es@),
                    es@ == model.enum_@,
                    num_errors(ctx@) == num_errors(old(ctx)@),
                    num_warnings(ctx@) == num_warnings(old(ctx)@) + if spec_enum_unused(model) { 1int } else { 0int },
                    -1 <= max_value <= i32::MAX,
                    spec_assign_loop(xs, i2 as int, item_views(items@), max_value as int)
                        == spec_assign(xs),
                decreases n - i2,
            {
                let ghost acc0 = item_views(items@);
                let e = &es[i2];
                proof {
                    assert(xs[i2 as int].0 == es@[i2 as int].name@);
                }
                let value: i32 = match e.value {
                    Some(v) => {
                        proof {
                            assert(xs[i2 as int].1 == Some(v as int));
                        }
                        let mut k: usize = 0;
                        while k < items.len()
                            invariant
                                0 <= k <= items@.len(),
                                0 <= i2 < n,
                                n == es@.len(),
                                self.items is None,
                                xs == enum_inputs(es@),
                                es@ == model.enum_@,
                                es@[i2 as int].value == Some(v),
                                num_errors(ctx@) == num_errors(old(ctx)@),
                                num_warnings(ctx@) == num_warnings(old(ctx)@) + if spec_enum_unused(model) { 1int } else { 0int },
                                -1 <= max_value <= i32::MAX,
                                spec_assign_loop(
                                    xs,
                                    i2 as int,
                                    item_views(items@),
                                    max_value as int,
                                ) == spec_assign(xs),
                                forall|q: int| 0 <= q < k ==> (#[trigger] items@[q]).1 != v,
                            decreases items@.len() - k,
                        {
                            if items[k].1 == v {
                                let msg = str_concat(
                                    "Duplicate value for enum item ",
                                    e.name.as_str(),
                                );
                                ctx.add_error(zero_span, msg);
                                proof {
                                    assert(xs[i2 as int].1 == Some(v as int));
                                    assert(item_views(items@)[k as int].1 == v as int);
                                    assert(spec_assign(xs) is None);
                                }
                                return Err(());
                            }
                            k = k + 1;
                        }
                        proof {
                            assert forall|q: int| 0 <= q < acc0.len() implies (#[trigger] acc0[
                                q]).1 != v as int by {
                                assert(items@[q].1 != v);
                            }
                        }
                        if v as i64 > max_value {
                            max_value = v as i64;
                        }
                        v
                    },
                    None => {
                        if max_value >= i32::MAX as i64 {
                            ctx.add_error(zero_span, String::from_str("Enum value out of range"));
                            proof {
                                assert(spec_assign(xs) is None);
                            }
                            return Err(());
                        }
                        max_value = max_value + 1;
                        max_value as i32
                    },
                };
                items.push((e.name.clone(), value));
                proof {
                    assert(item_views(items@) =~= acc0.push(
                        (es@[i2 as int].name@, value as int),
                    ));
                }
                i2 = i2 + 1;
            }
            proof {
                assert(spec_assign(xs) == Some(item_views(items@)));
            }
        } else {
            let base_items = self.items.as_ref().unwrap();
            let mut i3: usize = 0;
            while i3 < n
                invariant
                    0 <= i3 <= n,
                    n == es@.len(),
                    es@ == model.enum_@,
                    xs == enum_inputs(es@),
                    self.items is Some && base_items == self.items->Some_0,
                    num_errors(ctx@) == num_errors(old(ctx)@),
                    num_warnings(ctx@) == num_warnings(old(ctx)@) + if spec_enum_unused(model) { 1int } else { 0int },
                    items@.len() == i3,
                    forall|q: int|
                        0 <= q < i3 ==> (#[trigger] items@[q]).0@ == es@[q].name@ && (exists|j: int|
                            0 <= j < base_items@.len() && (#[trigger] base_items@[j]).0@
                                == items@[q].0@ && base_items@[j].1 == items@[q].1) && (match es@[
                            q].value {
                            Some(v) => items@[q].1 == v,
                            None => true,
                        }),
                decreases n - i3,
            {
                let e = &es[i3];
                let mut found = false;
                let mut fv: i32 = 0;
                let mut j: usize = 0;
                while j < base_items.len()
                    invariant
                        0 <= j <= base_items@.len(),
                        0 <= i3 < n,
                        n == es@.len(),
                        e.name@ == es@[i3 as int].name@,
                        e.value == es@[i3 as int].value,
                        !found ==> forall|q: int|
                            0 <= q < j ==> !((#[trigger] base_items@[q]).0@ == es@[i3 as int].name@
                                && (match es@[i3 as int].value {
                                Some(v) => base_items@[q].1 == v,
                                None => true,
                            })),
                        found ==> exists|q: int|
                            0 <= q < base_items@.len() && (#[trigger] base_items@[q]).0@
                                == es@[i3 as int].name@ && base_items@[q].1 == fv && (match es@[
                                i3 as int].value {
                                Some(v) => fv == v,
                                None => true,
                            }),
                    decreases base_items@.len() - j,
                {
                    let bi = &base_items[j];
                    let value_matches = match e.value {
                        Some(v) => v == bi.1,
                        None => true,
                    };
                    if str_eq(bi.0.as_str(), e.name.as_str()) && value_matches {
                        found = true;
                        fv = bi.1;
                        proof {
                            assert(0 <= j < base_items@.len() && base_items@[j as int].0@
                                == es@[i3 as int].name@ && base_items@[j as int].1 == fv);
                        }
                        j = base_items.len();
                    } else {
                        j = j + 1;
                    }
                }
                if !found {
                    proof {
                        assert(!item_in_base(es@[i3 as int], base_items@));
                    }
                    let msg = str_concat("Enum not in base enum ", e.name.as_str());
                    ctx.add_error(zero_span, msg);
                    return Err(());
                }
                items.push((e.name.clone(), fv));
                i3 = i3 + 1;
            }
            proof {
                assert(base_items@ == self.items->Some_0@);
                assert forall|q: int| 0 <= q < items@.len() implies ((#[trigger] items@[q]).0@
                    == model.enum_@[q].name@ && (exists|j: int|
                    0 <= j < self.items->Some_0@.len() && (#[trigger] self.items->Some_0@[j]).0@
                        == items@[q].0@ && self.items->Some_0@[j].1 == items@[q].1) && (match model
                    .enum_@[q].value {
                    Some(v) => items@[q].1 == v,
                    None => true,
                })) by {
                    assert((items@[q]).0@ == es@[q].name@);
                    let w = choose|j: int|
                        0 <= j < base_items@.len() && (#[trigger] base_items@[j]).0@
                            == items@[q].0@ && base_items@[j].1 == items@[q].1;
                    assert(0 <= w < self.items->Some_0@.len() && self.items->Some_0@[w].0@
                        == items@[q].0@ && self.items->Some_0@[w].1 == items@[q].1);
                }
                assert(items@.len() == model.enum_@.len());
                assert(subtype_items_ok(model.enum_@, self.items->Some_0@, items@));
            }
        }

        let result = EnumerationType { items: Some(items) };
        proof {
            assert(result.items->Some_0@ == items@);
        }
        Ok(result)
    }
}

} // verus!
