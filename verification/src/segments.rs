//! Maximal runs of equal consecutive labels.
//!
//! A label sequence of length `N > 0` splits in exactly one way into
//! half-open index ranges on each of which the label is constant and none of
//! which can be extended. `runs_of` computes that split; the lemmas below
//! say what it is without reference to how it is computed.
use crate::arrays::{label_at, label_items, label_shape, shape_of_labels, LabelArray};
use vstd::prelude::*;

verus! {

/// A half-open index range `[start, end)`.
#[derive(Clone, Copy, Debug, PartialEq, Eq, Structural)]
pub struct Segment {
    pub start: usize,
    pub end: usize,
}

/// The maximal runs of `labels`, in input order.
pub open spec fn runs_of(labels: Seq<i64>) -> Seq<Segment>
    decreases labels.len(),
{
    let n = labels.len();
    if n == 0 {
        Seq::empty()
    } else if n == 1 {
        seq![Segment { start: 0, end: 1 }]
    } else {
        let before = runs_of(labels.drop_last());
        if labels[n - 1] == labels[n - 2] {
            before.drop_last().push(Segment { start: before.last().start, end: n as usize })
        } else {
            before.push(Segment { start: (n - 1) as usize, end: n as usize })
        }
    }
}

/// Every segment is a non-empty range inside `[0, n)`.
pub open spec fn segments_in_range(segs: Seq<Segment>, n: nat) -> bool {
    forall|k: int| 0 <= k < segs.len() ==> (#[trigger] segs[k]).start < segs[k].end <= n
}

/// Each segment starts where the one before it ends.
pub open spec fn segments_contiguous(segs: Seq<Segment>) -> bool {
    forall|k: int| 0 <= k < segs.len() - 1 ==> (#[trigger] segs[k]).end == segs[k + 1].start
}

/// The segments are contiguous non-empty ranges that begin at 0 and end at `n`:
/// they do not overlap, come in increasing order, and together cover `[0, n)`.
pub open spec fn is_partition(segs: Seq<Segment>, n: nat) -> bool {
    &&& segs.len() > 0
    &&& segs[0].start == 0
    &&& segs.last().end == n
    &&& segments_in_range(segs, n)
    &&& segments_contiguous(segs)
}

/// The label is the same all over each segment.
pub open spec fn segments_uniform(labels: Seq<i64>, segs: Seq<Segment>) -> bool {
    forall|k: int, i: int|
        0 <= k < segs.len() && segs[k].start <= i < segs[k].end ==> #[trigger] labels[i] == labels[(
        #[trigger] segs[k]).start as int]
}

/// No segment can be extended: the label changes at every inner boundary.
pub open spec fn segments_maximal(labels: Seq<i64>, segs: Seq<Segment>) -> bool {
    forall|k: int|
        0 <= k < segs.len() - 1 ==> labels[(#[trigger] segs[k]).end - 1] != labels[segs[k].end as int]
}

/// `segs` splits `labels` into its maximal runs.
pub open spec fn is_run_partition(labels: Seq<i64>, segs: Seq<Segment>) -> bool {
    &&& is_partition(segs, labels.len())
    &&& segments_uniform(labels, segs)
    &&& segments_maximal(labels, segs)
}

/// `i` lies in the segment.
pub open spec fn segment_holds(seg: Segment, i: int) -> bool {
    seg.start <= i < seg.end
}

/// The positions at which the label differs from the one before.
pub open spec fn change_points(labels: Seq<i64>) -> Set<int> {
    Set::new(|i: int| 0 < i < labels.len() && labels[i] != labels[i - 1])
}

/// Lengthening the last run by one position that repeats its label keeps a
/// split into maximal runs one.
proof fn lemma_extend_last_run(labels: Seq<i64>, before: Seq<Segment>)
    requires
        2 <= labels.len() <= usize::MAX,
        is_run_partition(labels.drop_last(), before),
        labels[labels.len() - 1] == labels[labels.len() - 2],
    ensures
        is_run_partition(
            labels,
            before.drop_last().push(
                Segment { start: before.last().start, end: labels.len() as usize },
            ),
        ),
{
    let n = labels.len();
    let shorter = labels.drop_last();
    let last = before.len() - 1;
    let runs = before.drop_last().push(Segment { start: before[last].start, end: n as usize });
    assert(forall|i: int| 0 <= i < n - 1 ==> shorter[i] == labels[i]);
    assert(before[last].start < before[last].end);
    assert(forall|k: int| 0 <= k < last ==> runs[k] == before[k]);
    assert(runs[last].start == before[last].start && runs[last].end == n);
    assert(segments_in_range(runs, n)) by {
        assert forall|k: int| 0 <= k < runs.len() implies (#[trigger] runs[k]).start
            < runs[k].end <= n by {
            assert(before[k].start < before[k].end);
        }
    }
    assert(segments_contiguous(runs)) by {
        assert forall|k: int| 0 <= k < runs.len() - 1 implies (#[trigger] runs[k]).end == runs[k
            + 1].start by {
            assert(before[k].end == before[k + 1].start);
        }
    }
    assert(segments_uniform(labels, runs)) by {
        assert forall|k: int, i: int|
            0 <= k < runs.len() && runs[k].start <= i < runs[k].end implies #[trigger] labels[i]
            == labels[(#[trigger] runs[k]).start as int] by {
            if i < n - 1 {
                assert(shorter[i] == shorter[before[k].start as int]);
            } else {
                assert(shorter[n - 2] == shorter[before[k].start as int]);
            }
        }
    }
    assert(segments_maximal(labels, runs)) by {
        assert forall|k: int| 0 <= k < runs.len() - 1 implies labels[(#[trigger] runs[k]).end - 1]
            != labels[runs[k].end as int] by {
            assert(before[k].end == before[k + 1].start);
            assert(before[k + 1].start < before[k + 1].end);
            assert(shorter[before[k].end - 1] != shorter[before[k].end as int]);
        }
    }
}

/// A last position whose label differs from the one before it is a run of
/// its own after the runs of what comes before.
proof fn lemma_append_run(labels: Seq<i64>, before: Seq<Segment>)
    requires
        2 <= labels.len() <= usize::MAX,
        is_run_partition(labels.drop_last(), before),
        labels[labels.len() - 1] != labels[labels.len() - 2],
    ensures
        is_run_partition(
            labels,
            before.push(
                Segment { start: (labels.len() - 1) as usize, end: labels.len() as usize },
            ),
        ),
{
    let n = labels.len();
    let shorter = labels.drop_last();
    let last = before.len() - 1;
    let runs = before.push(Segment { start: (n - 1) as usize, end: n as usize });
    assert(forall|i: int| 0 <= i < n - 1 ==> shorter[i] == labels[i]);
    assert(forall|k: int| 0 <= k <= last ==> runs[k] == before[k]);
    assert(runs[last + 1].start == n - 1 && runs[last + 1].end == n);
    assert(segments_in_range(runs, n)) by {
        assert forall|k: int| 0 <= k < runs.len() implies (#[trigger] runs[k]).start
            < runs[k].end <= n by {
            if k <= last {
                assert(before[k].start < before[k].end);
            }
        }
    }
    assert(segments_contiguous(runs)) by {
        assert forall|k: int| 0 <= k < runs.len() - 1 implies (#[trigger] runs[k]).end == runs[k
            + 1].start by {
            if k < last {
                assert(before[k].end == before[k + 1].start);
            }
        }
    }
    assert(segments_uniform(labels, runs)) by {
        assert forall|k: int, i: int|
            0 <= k < runs.len() && runs[k].start <= i < runs[k].end implies #[trigger] labels[i]
            == labels[(#[trigger] runs[k]).start as int] by {
            if k <= last {
                assert(before[k].start < before[k].end);
                assert(shorter[i] == shorter[before[k].start as int]);
            }
        }
    }
    assert(segments_maximal(labels, runs)) by {
        assert forall|k: int| 0 <= k < runs.len() - 1 implies labels[(#[trigger] runs[k]).end - 1]
            != labels[runs[k].end as int] by {
            if k < last {
                assert(before[k].end == before[k + 1].start);
                assert(before[k + 1].start < before[k + 1].end);
                assert(shorter[before[k].end - 1] != shorter[before[k].end as int]);
            }
        }
    }
}

/// `runs_of` yields the maximal runs: contiguous, non-overlapping, in
/// increasing order, covering `[0, N)` exactly, each uniform in its label
/// and none extendable.
pub proof fn lemma_runs_partition(labels: Seq<i64>)
    requires
        0 < labels.len() <= usize::MAX,
    ensures
        is_run_partition(labels, runs_of(labels)),
    decreases labels.len(),
{
    let n = labels.len();
    if n > 1 {
        lemma_runs_partition(labels.drop_last());
        if labels[n - 1] == labels[n - 2] {
            lemma_extend_last_run(labels, runs_of(labels.drop_last()));
        } else {
            lemma_append_run(labels, runs_of(labels.drop_last()));
        }
    }
}

proof fn lemma_partitions_agree(labels: Seq<i64>, a: Seq<Segment>, b: Seq<Segment>, k: int)
    requires
        is_run_partition(labels, a),
        is_run_partition(labels, b),
        0 <= k < a.len(),
    ensures
        k < b.len(),
        a[k] == b[k],
    decreases k,
{
    let n = labels.len();
    if k > 0 {
        lemma_partitions_agree(labels, a, b, k - 1);
        assert(a[k - 1].end == a[k].start);
        assert(a[k].start < a[k].end <= n);
        assert(b[k - 1].end < n);
        assert(b[k - 1].end == b[k].start);
    }
    assert(a[k].start == b[k].start);
    assert(a[k].start < a[k].end <= n);
    assert(b[k].start < b[k].end <= n);
    if a[k].end < b[k].end {
        assert(a[k].end == a[k + 1].start);
        assert(labels[a[k].end - 1] != labels[a[k].end as int]);
        assert(labels[a[k].end - 1] == labels[b[k].start as int]);
        assert(labels[a[k].end as int] == labels[b[k].start as int]);
    } else if b[k].end < a[k].end {
        assert(b[k].end == b[k + 1].start);
        assert(labels[b[k].end - 1] != labels[b[k].end as int]);
        assert(labels[b[k].end - 1] == labels[a[k].start as int]);
        assert(labels[b[k].end as int] == labels[a[k].start as int]);
    }
}

/// A label sequence has only one split into maximal runs: two sequences of
/// segments that both are one are equal.
pub proof fn lemma_run_partition_unique(labels: Seq<i64>, a: Seq<Segment>, b: Seq<Segment>)
    requires
        is_run_partition(labels, a),
        is_run_partition(labels, b),
    ensures
        a == b,
{
    lemma_partitions_agree(labels, a, b, a.len() - 1);
    lemma_partitions_agree(labels, b, a, b.len() - 1);
    assert forall|k: int| 0 <= k < a.len() implies a[k] == b[k] by {
        lemma_partitions_agree(labels, a, b, k);
    }
    assert(a =~= b);
}

/// In a partition a segment ends no later than any later one starts.
pub proof fn lemma_partition_ordered(segs: Seq<Segment>, n: nat)
    requires
        is_partition(segs, n),
    ensures
        forall|j: int, k: int|
            0 <= j < k < segs.len() ==> (#[trigger] segs[j]).end <= (#[trigger] segs[k]).start,
{
    assert forall|j: int, k: int| 0 <= j < k < segs.len() implies (#[trigger] segs[j]).end <= (
    #[trigger] segs[k]).start by {
        lemma_ordered_pair(segs, n, j, k);
    }
}

proof fn lemma_ordered_pair(segs: Seq<Segment>, n: nat, j: int, k: int)
    requires
        is_partition(segs, n),
        0 <= j < k < segs.len(),
    ensures
        segs[j].end <= segs[k].start,
    decreases k - j,
{
    assert(segs[k - 1].end == segs[k].start);
    if j < k - 1 {
        lemma_ordered_pair(segs, n, j, k - 1);
        assert(segs[k - 1].start < segs[k - 1].end);
    }
}

proof fn lemma_partition_reaches(segs: Seq<Segment>, n: nat, i: int, upto: int)
    requires
        is_partition(segs, n),
        0 <= upto < segs.len(),
        0 <= i < segs[upto].end,
    ensures
        exists|k: int| 0 <= k <= upto && segment_holds(segs[k], i),
    decreases upto,
{
    if segs[upto].start <= i {
        assert(segment_holds(segs[upto], i));
    } else {
        assert(upto > 0);
        assert(segs[upto - 1].end == segs[upto].start);
        lemma_partition_reaches(segs, n, i, upto - 1);
        let k = choose|k: int| 0 <= k <= upto - 1 && segment_holds(segs[k], i);
        assert(0 <= k <= upto && segment_holds(segs[k], i));
    }
}

/// Every index of `[0, N)` lies in exactly one of the maximal runs.
pub proof fn lemma_runs_cover(labels: Seq<i64>, i: int)
    requires
        0 <= i < labels.len() <= usize::MAX,
    ensures
        exists|k: int| 0 <= k < runs_of(labels).len() && segment_holds(runs_of(labels)[k], i),
        forall|j: int, k: int|
            0 <= j < runs_of(labels).len() && 0 <= k < runs_of(labels).len() && segment_holds(
                #[trigger] runs_of(labels)[j],
                i,
            ) && segment_holds(#[trigger] runs_of(labels)[k], i) ==> j == k,
{
    let runs = runs_of(labels);
    lemma_runs_partition(labels);
    lemma_partition_ordered(runs, labels.len());
    lemma_partition_reaches(runs, labels.len(), i, runs.len() - 1);
    assert forall|j: int, k: int|
        0 <= j < runs.len() && 0 <= k < runs.len() && segment_holds(#[trigger] runs[j], i)
            && segment_holds(#[trigger] runs[k], i) implies j == k by {
        if j < k {
            assert(runs[j].end <= runs[k].start);
        } else if k < j {
            assert(runs[k].end <= runs[j].start);
        }
    }
}

/// The number of maximal runs is one more than the number of positions at
/// which the label changes.
pub proof fn lemma_run_count(labels: Seq<i64>)
    requires
        0 < labels.len(),
    ensures
        change_points(labels).finite(),
        runs_of(labels).len() == change_points(labels).len() + 1,
    decreases labels.len(),
{
    let n = labels.len() as int;
    if n == 1 {
        assert(change_points(labels) =~= Set::<int>::empty());
    } else {
        let shorter = labels.drop_last();
        lemma_run_count(shorter);
        assert(runs_of(shorter).len() > 0);
        assert(forall|i: int| 0 <= i < n - 1 ==> shorter[i] == labels[i]);
        if labels[n - 1] == labels[n - 2] {
            assert(change_points(labels) =~= change_points(shorter));
        } else {
            assert(!change_points(shorter).contains(n - 1));
            assert(change_points(labels) =~= change_points(shorter).insert(n - 1));
        }
    }
}

/// Where every label is the same, there is one run, and it covers all of
/// `[0, N)`.
pub proof fn lemma_constant_labels(labels: Seq<i64>)
    requires
        0 < labels.len() <= usize::MAX,
        forall|i: int, j: int| 0 <= i < labels.len() && 0 <= j < labels.len() ==> labels[i] == labels[j],
    ensures
        runs_of(labels) == seq![Segment { start: 0, end: labels.len() as usize }],
{
    let whole = seq![Segment { start: 0, end: labels.len() as usize }];
    assert(is_run_partition(labels, whole));
    lemma_runs_partition(labels);
    lemma_run_partition_unique(labels, runs_of(labels), whole);
}

/// Scans the labels once and gives their maximal runs, in input order.
pub fn segments(classes: &LabelArray) -> (runs: Vec<Segment>)
    requires
        label_shape(*classes).len() == 1,
        label_shape(*classes)[0] >= 1,
    ensures
        runs@ == runs_of(label_items(*classes)),
        is_run_partition(label_items(*classes), runs@),
{
    let n = shape_of_labels(classes)[0];
    let ghost labels = label_items(*classes);
    let mut runs: Vec<Segment> = Vec::new();
    let mut tail: usize = 0;
    let mut tag = label_at(classes, 0);
    let mut lead: usize = 1;
    assert(labels.take(1).len() == 1);
    while lead < n
        invariant
            label_shape(*classes).len() == 1,
            label_shape(*classes)[0] == n,
            labels == label_items(*classes),
            labels.len() == n,
            tail < lead <= n,
            tag == labels[lead - 1],
            runs@.push(Segment { start: tail, end: lead }) == runs_of(labels.take(lead as int)),
        decreases n - lead,
    {
        let label = label_at(classes, lead);
        proof {
            let longer = labels.take(lead + 1);
            let before = runs@.push(Segment { start: tail, end: lead });
            assert(longer.drop_last() == labels.take(lead as int));
            assert(longer[lead as int] == label && longer[lead - 1] == tag);
            assert(before.drop_last() == runs@);
        }
        if label != tag {
            runs.push(Segment { start: tail, end: lead });
            tail = lead;
            tag = label;
        }
        lead = lead + 1;
    }
    proof {
        assert(labels.take(n as int) == labels);
        lemma_runs_partition(labels);
    }
    runs.push(Segment { start: tail, end: n });
    runs
}

} // verus!
