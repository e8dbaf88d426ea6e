//! Column scoring: the multiplicity-weighted sum of a column's three slots.

use itertools::Itertools;
use vstd::prelude::*;

verus! {

/// One run of equal neighbours: how many there are, and the value they share.
pub type Run = (usize, usize);

/// 1 if the two values are equal, else 0.
pub open spec fn same(a: usize, b: usize) -> int {
    if a == b { 1 } else { 0 }
}

/// In how many of the three slots of `column` the value `v` stands.
pub open spec fn multiplicity(column: Seq<usize>, v: usize) -> int {
    same(column[0], v) + same(column[1], v) + same(column[2], v)
}

/// The score of a column of three slots: every slot counts its value once for
/// each slot of the column that holds the same value. A value that stands in
/// `k` slots therefore adds `k * k` times itself. Empty slots hold 0 and are
/// grouped like any other value.
pub open spec fn column_score(column: Seq<usize>) -> int {
    column[0] * multiplicity(column, column[0])
        + column[1] * multiplicity(column, column[1])
        + column[2] * multiplicity(column, column[2])
}

/// Whether the three slots stand in ascending order.
pub open spec fn ascending(column: Seq<usize>) -> bool {
    column[0] <= column[1] && column[1] <= column[2]
}

/// The sequence that a list of runs stands for: each run written out as
/// `count` copies of its value, in order.
pub open spec fn expand(runs: Seq<Run>) -> Seq<usize>
    decreases runs.len(),
{
    if runs.len() == 0 {
        Seq::empty()
    } else {
        expand(runs.drop_last()) + Seq::new(runs.last().0 as nat, |i: int| runs.last().1)
    }
}

/// Whether `runs` is the run-length encoding of `items`: it expands to
/// `items`, no run is empty, and neighbouring runs hold different values.
pub open spec fn encodes(runs: Seq<Run>, items: Seq<usize>) -> bool {
    &&& expand(runs) =~= items
    &&& forall|i: int| 0 <= i < runs.len() ==> (#[trigger] runs[i]).0 >= 1
    &&& forall|i: int| 0 <= i < runs.len() - 1 ==> (#[trigger] runs[i]).1 != runs[i + 1].1
}

/// The sum over the runs of `value * count * count`.
pub open spec fn runs_score(runs: Seq<Run>) -> int
    decreases runs.len(),
{
    if runs.len() == 0 {
        0
    } else {
        runs_score(runs.drop_last()) + run_score(runs.last())
    }
}

/// What one run adds to a score: its value times the square of its length.
pub open spec fn run_score(run: Run) -> int {
    run.1 * (run.0 * run.0)
}

/// What a run of one, two or three slots adds, without a product of unknowns.
pub(crate) proof fn lemma_run_score(run: Run)
    requires
        1 <= run.0 <= 3,
    ensures
        run.0 == 1 ==> run_score(run) == run.1,
        run.0 == 2 ==> run_score(run) == 4 * run.1,
        run.0 == 3 ==> run_score(run) == 9 * run.1,
        run.0 * run.0 <= 9,
        0 <= run_score(run),
{
    assert(run.0 == 1 ==> run.1 * (run.0 * run.0) == run.1) by (nonlinear_arith);
    assert(run.0 == 2 ==> run.1 * (run.0 * run.0) == 4 * run.1) by (nonlinear_arith);
    assert(run.0 == 3 ==> run.1 * (run.0 * run.0) == 9 * run.1) by (nonlinear_arith);
    assert(run.0 * run.0 <= 9) by (nonlinear_arith)
        requires
            1 <= run.0 <= 3,
    ;
}

/// Sorts a column with `sort_unstable` of std's slices. Trusted: the result
/// is in ascending order and holds every value as often as `column` does.
#[verifier::external_body]
pub(crate) fn sort_column(column: [usize; 3]) -> (sorted: [usize; 3])
    ensures
        ascending(sorted@),
        forall|v: usize| multiplicity(sorted@, v) == multiplicity(column@, v),
{
    let mut sorted = column;
    sorted.sort_unstable();
    sorted
}

/// Run-length encodes a column with `Itertools::dedup_with_count`, gathered
/// by `Itertools::collect_vec`. Trusted: neighbouring equal values are merged
/// into one pair of their count and their value, in order, so the pairs
/// expand to `column`, no count is 0, and neighbouring pairs differ in value.
#[verifier::external_body]
pub(crate) fn dedup_with_count(column: &[usize; 3]) -> (runs: Vec<Run>)
    ensures
        encodes(runs@, column@),
{
    column.iter().copied().dedup_with_count().collect_vec()
}

/// The expansion of runs that are not empty is at least as long as the list
/// of runs.
proof fn lemma_expand_len(runs: Seq<Run>)
    requires
        forall|i: int| 0 <= i < runs.len() ==> (#[trigger] runs[i]).0 >= 1,
    ensures
        expand(runs).len() >= runs.len(),
    decreases runs.len(),
{
    if runs.len() > 0 {
        let front = runs.drop_last();
        assert forall|i: int| 0 <= i < front.len() implies (#[trigger] front[i]).0 >= 1 by {
            assert(front[i] == runs[i]);
        }
        lemma_expand_len(front);
    }
}

/// What a slot adds to its column's score, without a product of unknowns.
proof fn lemma_slot_score(column: Seq<usize>, i: int)
    requires
        column.len() == 3,
        0 <= i < 3,
    ensures
        1 <= multiplicity(column, column[i]) <= 3,
        multiplicity(column, column[i]) == 1 ==> column[i] * multiplicity(column, column[i])
            == column[i],
        multiplicity(column, column[i]) == 2 ==> column[i] * multiplicity(column, column[i]) == 2
            * column[i],
        multiplicity(column, column[i]) == 3 ==> column[i] * multiplicity(column, column[i]) == 3
            * column[i],
{
    let v = column[i];
    let m = multiplicity(column, v);
    assert(m == 1 ==> v * m == v) by (nonlinear_arith);
    assert(m == 2 ==> v * m == 2 * v) by (nonlinear_arith);
    assert(m == 3 ==> v * m == 3 * v) by (nonlinear_arith);
}

/// No run is longer than the sequence that the runs expand to.
proof fn lemma_count_bound(runs: Seq<Run>, i: int)
    requires
        0 <= i < runs.len(),
    ensures
        runs[i].0 <= expand(runs).len(),
    decreases runs.len(),
{
    if i < runs.len() - 1 {
        lemma_count_bound(runs.drop_last(), i);
    }
}

/// The runs of a sorted column of three slots score what the column scores,
/// and there are at most three of them, none longer than three.
pub proof fn lemma_runs_score(runs: Seq<Run>, column: Seq<usize>)
    requires
        column.len() == 3,
        ascending(column),
        encodes(runs, column),
    ensures
        runs_score(runs) == column_score(column),
        1 <= runs.len() <= 3,
        forall|i: int| 0 <= i < runs.len() ==> 1 <= (#[trigger] runs[i]).0 <= 3,
{
    lemma_expand_len(runs);
    lemma_slot_score(column, 0);
    lemma_slot_score(column, 1);
    lemma_slot_score(column, 2);
    let e = expand(runs);
    assert(e.len() == 3);
    assert(expand(Seq::<Run>::empty()) =~= Seq::<usize>::empty());
    assert(runs_score(Seq::<Run>::empty()) == 0);
    assert forall|i: int| 0 <= i < runs.len() implies 1 <= (#[trigger] runs[i]).0 <= 3 by {
        lemma_count_bound(runs, i);
    }
    if runs.len() == 1 {
        let a = runs[0];
        assert(runs.drop_last() =~= Seq::<Run>::empty());
        assert(a.0 == 3);
        assert(e[0] == a.1 && e[1] == a.1 && e[2] == a.1);
        lemma_run_score(a);
        assert(runs_score(runs) == 9 * a.1);
    } else if runs.len() == 2 {
        let a = runs[0];
        let b = runs[1];
        let front = runs.drop_last();
        assert(front =~= seq![a]);
        assert(front.drop_last() =~= Seq::<Run>::empty());
        assert(expand(front) =~= Seq::new(a.0 as nat, |i: int| a.1));
        assert(a.0 + b.0 == 3);
        assert(a.1 != b.1);
        lemma_run_score(a);
        lemma_run_score(b);
        assert(runs_score(front) == run_score(a));
        assert(runs_score(runs) == run_score(a) + run_score(b));
        if a.0 == 1 {
            assert(e[0] == a.1 && e[1] == b.1 && e[2] == b.1);
        } else {
            assert(a.0 == 2 && b.0 == 1);
            assert(e[0] == a.1 && e[1] == a.1 && e[2] == b.1);
        }
    } else {
        assert(runs.len() == 3);
        let a = runs[0];
        let b = runs[1];
        let c = runs[2];
        let front = runs.drop_last();
        let first = front.drop_last();
        assert(front =~= seq![a, b]);
        assert(first =~= seq![a]);
        assert(first.drop_last() =~= Seq::<Run>::empty());
        assert(expand(first) =~= Seq::new(a.0 as nat, |i: int| a.1));
        assert(expand(front) =~= expand(first) + Seq::new(b.0 as nat, |i: int| b.1));
        assert(a.0 + b.0 + c.0 == 3);
        assert(a.0 == 1 && b.0 == 1 && c.0 == 1);
        assert(e[0] == a.1 && e[1] == b.1 && e[2] == c.1);
        assert(a.1 != b.1 && b.1 != c.1);
        lemma_run_score(a);
        lemma_run_score(b);
        lemma_run_score(c);
        assert(runs_score(first) == run_score(a));
        assert(runs_score(front) == run_score(a) + run_score(b));
        assert(runs_score(runs) == run_score(a) + run_score(b) + run_score(c));
    }
}

/// Three equal values score nine times the value.
pub proof fn lemma_three_of_a_kind(v: usize)
    ensures
        column_score(seq![v, v, v]) == 9 * v,
{
    lemma_slot_score(seq![v, v, v], 0);
}

/// A column whose values are at most `bound` scores at most nine times
/// `bound`.
pub proof fn lemma_column_score_bound(column: Seq<usize>, bound: int)
    requires
        column.len() == 3,
        forall|i: int| 0 <= i < 3 ==> column[i] <= bound,
    ensures
        0 <= column_score(column) <= 9 * bound,
{
    lemma_slot_score(column, 0);
    lemma_slot_score(column, 1);
    lemma_slot_score(column, 2);
}

/// A column scores the same in any order of its slots.
pub proof fn lemma_score_of_permutation(a: Seq<usize>, b: Seq<usize>)
    requires
        a.len() == 3,
        b.len() == 3,
        forall|v: usize| multiplicity(a, v) == multiplicity(b, v),
    ensures
        column_score(a) == column_score(b),
{
    assert(multiplicity(a, a[0]) == multiplicity(b, a[0]));
    assert(multiplicity(a, a[1]) == multiplicity(b, a[1]));
    assert(multiplicity(a, a[2]) == multiplicity(b, a[2]));
    assert(multiplicity(a, b[0]) == multiplicity(b, b[0]));
    assert(multiplicity(a, b[1]) == multiplicity(b, b[1]));
    assert(multiplicity(a, b[2]) == multiplicity(b, b[2]));
}

/// Scoring by groups: sort the column, merge equal neighbours into runs, and
/// add for each run its value times the square of its length. The sum is the
/// score of the column as it stood.
pub proof fn lemma_grouped_score(column: Seq<usize>, sorted: Seq<usize>, runs: Seq<Run>)
    requires
        column.len() == 3,
        sorted.len() == 3,
        ascending(sorted),
        forall|v: usize| multiplicity(sorted, v) == multiplicity(column, v),
        encodes(runs, sorted),
    ensures
        runs_score(runs) == column_score(column),
{
    lemma_score_of_permutation(sorted, column);
    lemma_runs_score(runs, sorted);
}

/// No prefix of a list of runs scores more than the whole list.
pub(crate) proof fn lemma_runs_score_prefix(runs: Seq<Run>, n: int)
    requires
        0 <= n <= runs.len(),
    ensures
        0 <= runs_score(runs.take(n)) <= runs_score(runs),
    decreases runs.len(),
{
    lemma_runs_score_nonnegative(runs.take(n));
    if n == runs.len() {
        assert(runs.take(n) =~= runs);
    } else {
        let front = runs.drop_last();
        lemma_runs_score_prefix(front, n);
        assert(front.take(n) =~= runs.take(n));
        lemma_run_score_nonnegative(runs.last());
    }
}

/// No run adds a negative amount.
proof fn lemma_run_score_nonnegative(run: Run)
    ensures
        run_score(run) >= 0,
{
    assert(run.1 * (run.0 * run.0) >= 0) by (nonlinear_arith)
        requires
            run.0 >= 0,
            run.1 >= 0,
    ;
}

/// The score of a list of runs is never negative.
proof fn lemma_runs_score_nonnegative(runs: Seq<Run>)
    ensures
        runs_score(runs) >= 0,
    decreases runs.len(),
{
    if runs.len() > 0 {
        lemma_runs_score_nonnegative(runs.drop_last());
        lemma_run_score_nonnegative(runs.last());
    }
}

} // verus!
