//! Accumulation of spanned diagnostics for a whole compilation pass.

use vstd::prelude::*;
use vstd::string::StrSliceExecFns;
use vstd::string::StringExecFns;
use vstd::seq_lib::lemma_multiset_commutative;
use vstd::multiset::Multiset;
use crate::Span;

verus! {

#[derive(Debug, Clone, Copy, PartialEq, Eq, Structural)]
pub enum Severity {
    Error,
    Warning,
}

/// One error or warning, tied to a source span.
#[derive(Debug, Clone)]
pub struct Diagnostic {
    pub span: Span,
    pub message: String,
    pub severity: Severity,
}

/// Number of diagnostics of the given severity in `s`.
pub open spec fn count_sev(s: Seq<Diagnostic>, sev: Severity) -> int
    decreases s.len(),
{
    if s.len() == 0 {
        0
    } else {
        count_sev(s.drop_last(), sev) + if s.last().severity == sev {
            1int
        } else {
            0int
        }
    }
}

pub open spec fn num_errors(s: Seq<Diagnostic>) -> int {
    count_sev(s, Severity::Error)
}

pub open spec fn num_warnings(s: Seq<Diagnostic>) -> int {
    count_sev(s, Severity::Warning)
}

pub broadcast proof fn lemma_count_sev_push(s: Seq<Diagnostic>, d: Diagnostic, sev: Severity)
    ensures
        #[trigger] count_sev(s.push(d), sev) == count_sev(s, sev) + if d.severity == sev {
            1int
        } else {
            0int
        },
{
    assert(s.push(d).drop_last() =~= s);
}

/// Diagnostics ordered by the start offset of their spans.
pub open spec fn sorted_by_start(s: Seq<Diagnostic>) -> bool {
    forall|i: int, j: int|
        0 <= i < j < s.len() ==> (#[trigger] s[i]).span.start <= (#[trigger] s[j]).span.start
}

/// Insertion of `d` behind every already-sorted element whose span does
/// not start later: the position a stable insertion gives it.
pub open spec fn stable_insert(s: Seq<Diagnostic>, d: Diagnostic) -> Seq<Diagnostic>
    decreases s.len(),
{
    if s.len() > 0 && s.last().span.start > d.span.start {
        stable_insert(s.drop_last(), d).push(s.last())
    } else {
        s.push(d)
    }
}

/// The stable sort of `s` by span start: diagnostics with equal starts keep
/// their original order.
pub open spec fn spec_stable_sort(s: Seq<Diagnostic>) -> Seq<Diagnostic>
    decreases s.len(),
{
    if s.len() == 0 {
        Seq::empty()
    } else {
        stable_insert(spec_stable_sort(s.drop_last()), s.last())
    }
}

/// A stable insertion lands exactly at the scan position: after the last
/// element that does not start later.
proof fn lemma_stable_insert_at(p: Seq<Diagnostic>, x: Diagnostic, j: int)
    requires
        sorted_by_start(p),
        0 <= j <= p.len(),
        forall|k: int| j <= k < p.len() ==> (#[trigger] p[k]).span.start > x.span.start,
        j == 0 || p[j - 1].span.start <= x.span.start,
    ensures
        stable_insert(p, x) =~= p.take(j) + seq![x] + p.skip(j),
    decreases p.len() - j,
{
    if j == p.len() {
        assert(p.take(j) =~= p);
        assert(p.skip(j) =~= Seq::<Diagnostic>::empty());
    } else {
        assert(p.last().span.start > x.span.start);
        assert(forall|k: int| j <= k < p.drop_last().len() ==> (#[trigger] p.drop_last()[
            k]).span.start > x.span.start);
        lemma_stable_insert_at(p.drop_last(), x, j);
        assert(p.drop_last().take(j) =~= p.take(j));
        assert(p.drop_last().skip(j).push(p.last()) =~= p.skip(j));
    }
}

/// Append-only collector of errors and warnings for one compilation.
#[derive(Debug, Default)]
pub struct ErrorContext {
    diagnostics: Vec<Diagnostic>,
}

impl View for ErrorContext {
    type V = Seq<Diagnostic>;

    closed spec fn view(&self) -> Seq<Diagnostic> {
        self.diagnostics@
    }
}

impl ErrorContext {
    pub fn new() -> (r: ErrorContext)
        ensures
            r@ == Seq::<Diagnostic>::empty(),
    {
        ErrorContext { diagnostics: Vec::new() }
    }

    /// Appends one diagnostic; everything recorded before stays in place.
    pub fn add_diagnostics(&mut self, loc: Span, message: String, severity: Severity)
        ensures
            final(self)@ == old(self)@.push(
                Diagnostic { span: loc, message, severity },
            ),
    {
        self.diagnostics.push(Diagnostic { span: loc, message, severity });
    }

    pub fn add_error(&mut self, loc: Span, error: String)
        ensures
            final(self)@ == old(self)@.push(
                Diagnostic { span: loc, message: error, severity: Severity::Error },
            ),
            num_errors(final(self)@) == num_errors(old(self)@) + 1,
            num_warnings(final(self)@) == num_warnings(old(self)@),
    {
        proof {
            broadcast use lemma_count_sev_push;

        }
        self.add_diagnostics(loc, error, Severity::Error);
    }

    pub fn add_warning(&mut self, loc: Span, warning: String)
        ensures
            final(self)@ == old(self)@.push(
                Diagnostic { span: loc, message: warning, severity: Severity::Warning },
            ),
            num_errors(final(self)@) == num_errors(old(self)@),
            num_warnings(final(self)@) == num_warnings(old(self)@) + 1,
    {
        proof {
            broadcast use lemma_count_sev_push;

        }
        self.add_diagnostics(loc, warning, Severity::Warning);
    }

    pub fn len(&self) -> (r: usize)
        ensures
            r == self@.len(),
    {
        self.diagnostics.len()
    }

    pub fn get(&self, i: usize) -> (r: &Diagnostic)
        requires
            i < self@.len(),
        ensures
            *r == self@[i as int],
    {
        &self.diagnostics[i]
    }

    fn count_of(&self, sev: Severity) -> (r: usize)
        ensures
            r == count_sev(self@, sev),
    {
        let n = self.diagnostics.len();
        let mut cnt: usize = 0;
        let mut i: usize = 0;
        while i < n
            invariant
                0 <= i <= n,
                n == self@.len(),
                cnt == count_sev(self@.take(i as int), sev),
                cnt <= i,
            decreases n - i,
        {
            proof {
                assert(self@.take(i + 1).drop_last() =~= self@.take(i as int));
            }
            if self.diagnostics[i].severity == sev {
                cnt = cnt + 1;
            }
            i = i + 1;
        }
        proof {
            assert(self@.take(n as int) =~= self@);
        }
        cnt
    }

    pub fn error_count(&self) -> (r: usize)
        ensures
            r == num_errors(self@),
    {
        self.count_of(Severity::Error)
    }

    pub fn warning_count(&self) -> (r: usize)
        ensures
            r == num_warnings(self@),
    {
        self.count_of(Severity::Warning)
    }

    /// A stable sort by span start: the result is the stable insertion
    /// sort of the input, so it is sorted, holds exactly the same
    /// diagnostics, and diagnostics with equal starts keep their order.
    pub fn sort_errors(&mut self)
        ensures
            final(self)@ == spec_stable_sort(old(self)@),
            sorted_by_start(final(self)@),
            final(self)@.to_multiset() == old(self)@.to_multiset(),
            final(self)@.len() == old(self)@.len(),
    {
        let n = self.diagnostics.len();
        if n <= 1 {
            proof {
                if n == 1 {
                    let d = old(self)@.last();
                    assert(old(self)@.drop_last() =~= Seq::<Diagnostic>::empty());
                    assert(spec_stable_sort(Seq::<Diagnostic>::empty())
                        == Seq::<Diagnostic>::empty());
                    assert(stable_insert(Seq::<Diagnostic>::empty(), d)
                        == Seq::<Diagnostic>::empty().push(d));
                    assert(old(self)@ =~= Seq::<Diagnostic>::empty().push(d));
                }
            }
            return;
        }
        let mut i: usize = 1;
        proof {
            let d = old(self)@[0];
            assert(old(self)@.take(1).drop_last() =~= Seq::<Diagnostic>::empty());
            assert(old(self)@.take(1).last() == d);
            assert(spec_stable_sort(Seq::<Diagnostic>::empty()) == Seq::<Diagnostic>::empty());
            assert(stable_insert(Seq::<Diagnostic>::empty(), d) == Seq::<Diagnostic>::empty().push(
                d,
            ));
            assert(self.diagnostics@.take(1) =~= Seq::<Diagnostic>::empty().push(d));
        }
        while i < n
            invariant
                1 <= i <= n,
                n == self.diagnostics@.len(),
                n == old(self)@.len(),
                sorted_by_start(self.diagnostics@.take(i as int)),
                self.diagnostics@.take(i as int) == spec_stable_sort(old(self)@.take(i as int)),
                self.diagnostics@.skip(i as int) == old(self)@.skip(i as int),
                self.diagnostics@.to_multiset() == old(self)@.to_multiset(),
            decreases n - i,
        {
            let key = self.diagnostics[i].span.start;
            let mut j: usize = i;
            while j > 0 && self.diagnostics[j - 1].span.start > key
                invariant
                    0 <= j <= i < n,
                    n == self.diagnostics@.len(),
                    key == self.diagnostics@[i as int].span.start,
                    forall|k: int|
                        j <= k < i ==> (#[trigger] self.diagnostics@[k]).span.start > key,
                decreases j,
            {
                j = j - 1;
            }
            let ghost pre = self.diagnostics@;
            let x = self.diagnostics.remove(i);
            let ghost mid = self.diagnostics@;
            self.diagnostics.insert(j, x);
            proof {
                lemma_insertion_step(pre, mid, self.diagnostics@, i as int, j as int);
                // the scan position is exactly where a stable insertion lands
                assert(x == old(self)@[i as int]) by {
                    assert(pre.skip(i as int)[0] == old(self)@.skip(i as int)[0]);
                }
                lemma_stable_insert_at(pre.take(i as int), x, j as int);
                assert(self.diagnostics@.take(i + 1) =~= pre.take(i as int).take(j as int) + seq![
                    x,
                ] + pre.take(i as int).skip(j as int));
                assert(old(self)@.take(i + 1).drop_last() =~= old(self)@.take(i as int));
                assert(old(self)@.take(i + 1).last() == x);
                assert(self.diagnostics@.take(i + 1) == spec_stable_sort(
                    old(self)@.take(i + 1),
                ));
                assert(self.diagnostics@.skip(i + 1) =~= old(self)@.skip(i + 1)) by {
                    assert(forall|k: int|
                        i + 1 <= k < n ==> (#[trigger] self.diagnostics@[k]) == pre[k]);
                    assert(pre.skip(i as int).skip(1) =~= pre.skip(i + 1));
                    assert(old(self)@.skip(i as int).skip(1) =~= old(self)@.skip(i + 1));
                }
            }
            i = i + 1;
        }
        proof {
            assert(old(self)@.take(n as int) =~= old(self)@);
        }
        proof {
            assert(self.diagnostics@.take(n as int) =~= self.diagnostics@);
        }
    }
}

/// One step of the insertion sort: removing the element at `i` and
/// re-inserting it at `j <= i` keeps the multiset, and extends the sorted
/// prefix by one when the scan conditions hold.
#[verifier::rlimit(100)]
#[verifier::spinoff_prover]
proof fn lemma_insertion_step(pre: Seq<Diagnostic>, mid: Seq<Diagnostic>, post: Seq<Diagnostic>, i: int, j: int)
    requires
        0 <= j <= i < pre.len(),
        mid == pre.remove(i),
        post == mid.insert(j, pre[i]),
        sorted_by_start(pre.take(i)),
        forall|k: int| j <= k < i ==> (#[trigger] pre[k]).span.start > pre[i].span.start,
        j > 0 ==> pre[j - 1].span.start <= pre[i].span.start,
    ensures
        post.len() == pre.len(),
        post.to_multiset() == pre.to_multiset(),
        sorted_by_start(post.take(i + 1)),
{
    broadcast use vstd::seq_lib::group_seq_properties;

    let x = pre[i];
    // multiset preservation
    pre.to_multiset_ensures();
    mid.to_multiset_ensures();
    assert(mid.to_multiset() =~= pre.to_multiset().remove(x));
    assert(post =~= mid.take(j) + seq![x] + mid.skip(j));
    assert(mid =~= mid.take(j) + mid.skip(j));
    lemma_multiset_commutative(mid.take(j), mid.skip(j));
    lemma_multiset_commutative(mid.take(j) + seq![x], mid.skip(j));
    lemma_multiset_commutative(mid.take(j), seq![x]);
    assert(seq![x].to_multiset() =~= Multiset::empty().insert(x)) by {
        assert(seq![x].drop_first() =~= Seq::<Diagnostic>::empty());
    }
    assert(post.to_multiset() =~= mid.to_multiset().insert(x));
    assert(pre.contains(x));
    assert(pre.to_multiset().count(x) > 0);
    assert(post.to_multiset() =~= pre.to_multiset().remove(x).insert(x));
    assert(post.to_multiset() =~= pre.to_multiset());
    // sortedness of the extended prefix
    assert forall|a: int, b: int| 0 <= a < b < i + 1 implies (#[trigger] post.take(i + 1)[a]).span.start
        <= (#[trigger] post.take(i + 1)[b]).span.start by {
        assert(forall|k: int| 0 <= k < j ==> post[k] == pre[k]);
        assert(forall|k: int| j < k <= i ==> post[k] == pre[k - 1]);
        assert(post[j as int] == x);
    }
}

// ---------------------------------------------------------------------------
// Rendering against the original source text
// ---------------------------------------------------------------------------

/// The rendering of the span `[start, end)` against `source`, with the
/// spanned text underlined; a function of the span and the text alone.
pub uninterp spec fn highlighted(start: int, end: int, source: Seq<char>) -> Seq<char>;

/// Relies on highlight_error::highlight_error: renders a byte span against
/// the source text with the spanned region underlined; the result depends
/// only on the two indices and the text. It asserts `start <= end`, which the
/// requires excludes.
#[verifier::external_body]
fn highlight_span(start: usize, end: usize, source: &str) -> (r: String)
    requires
        start <= end,
    ensures
        r@ == highlighted(start as int, end as int, source@),
{
    highlight_error::highlight_error(start, end, source)
}

impl ErrorContext {
    /// Renders every diagnostic against the source text, one string each:
    /// the highlighted span, a line break, then the message.
    pub fn render(&self, source: &str) -> (r: Vec<String>)
        ensures
            r@.len() == self@.len(),
            forall|i: int|
                0 <= i < self@.len() && (#[trigger] self@[i]).span.start <= self@[i].span.end
                    ==> r@[i]@ == highlighted(
                    self@[i].span.start as int,
                    self@[i].span.end as int,
                    source@,
                ) + "\n"@ + self@[i].message@,
    {
        let n = self.diagnostics.len();
        let mut out: Vec<String> = Vec::new();
        let mut i: usize = 0;
        while i < n
            invariant
                0 <= i <= n,
                n == self@.len(),
                out@.len() == i,
                forall|k: int|
                    0 <= k < i && (#[trigger] self@[k]).span.start <= self@[k].span.end
                        ==> out@[k]@ == highlighted(
                        self@[k].span.start as int,
                        self@[k].span.end as int,
                        source@,
                    ) + "\n"@ + self@[k].message@,
            decreases n - i,
        {
            let d = &self.diagnostics[i];
            let mut line: String = if d.span.start <= d.span.end {
                highlight_span(d.span.start, d.span.end, source)
            } else {
                String::new()
            };
            line.append("\n");
            line.append(d.message.as_str());
            out.push(line);
            i = i + 1;
        }
        out
    }
}

} // verus!
