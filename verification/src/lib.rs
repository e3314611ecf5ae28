//! Labelled point series to WKT `LINESTRING` texts: one text for each
//! maximal run of equal consecutive labels.
//!
//! The inputs are checked (`validate`), the labels are split into their
//! maximal runs (`segments`), and each run is rendered
//! (`linestring::render_into_linestring`). Coordinates come in as texts,
//! already rendered as fixed-point decimals.
use crate::arrays::{
    label_items, label_shape, text_items, text_shape, texts_of, LabelArray, TextArray,
};
use crate::error::WktError;
use crate::linestring::{linestring_text, render_into_linestring};
use crate::segments::{
    change_points, lemma_constant_labels, lemma_run_count, runs_of, segments, segments_in_range,
    Segment,
};
use crate::validate::{shape_fault, validate};
use vstd::prelude::*;

pub mod arrays;
pub mod error;
pub mod linestring;
pub mod segments;
pub mod validate;

verus! {

/// The texts of the maximal runs of `labels`, in input order.
pub open spec fn linestrings_of(xs: Seq<Seq<char>>, ys: Seq<Seq<char>>, labels: Seq<i64>) -> Seq<
    Seq<char>,
> {
    let runs = runs_of(labels);
    Seq::new(
        runs.len(),
        |k: int| linestring_text(xs, ys, runs[k].start as int, runs[k].end as int),
    )
}

/// Renders labelled points as `LINESTRING` texts, one for each maximal run of
/// equal consecutive labels, in input order.
///
/// `x` and `y` hold the coordinates as texts, each a fixed-point decimal with
/// `precision` digits after the point; `classes` holds one label per point.
/// Where the shapes of the inputs are at fault, the first fault is returned
/// and nothing is rendered.
pub fn linestring(x: &TextArray, y: &TextArray, classes: &LabelArray, precision: usize) -> (rendered:
    Result<Vec<String>, WktError>)
    ensures
        match rendered {
            Ok(texts) => {
                &&& shape_fault(text_shape(*x), text_shape(*y), label_shape(*classes)) is None
                &&& texts_of(texts@) == linestrings_of(
                    text_items(*x),
                    text_items(*y),
                    label_items(*classes),
                )
                &&& texts@.len() == change_points(label_items(*classes)).len() + 1
            },
            Err(fault) => shape_fault(text_shape(*x), text_shape(*y), label_shape(*classes))
                == Some(fault),
        },
{
    let n = match validate(x, y, classes) {
        Ok(n) => n,
        Err(fault) => {
            return Err(fault);
        },
    };
    let runs = segments(classes);
    let ghost xs = text_items(*x);
    let ghost ys = text_items(*y);
    proof {
        lemma_run_count(label_items(*classes));
    }
    let mut results: Vec<String> = Vec::new();
    let mut k: usize = 0;
    while k < runs.len()
        invariant
            text_shape(*x) =~= seq![n],
            text_shape(*y) =~= seq![n],
            xs == text_items(*x),
            ys == text_items(*y),
            segments_in_range(runs@, n as nat),
            k <= runs.len(),
            results.len() == k,
            forall|j: int|
                0 <= j < k ==> (#[trigger] results@[j])@ == linestring_text(
                    xs,
                    ys,
                    runs@[j].start as int,
                    runs@[j].end as int,
                ),
        decreases runs.len() - k,
    {
        let run = runs[k];
        assert(runs@[k as int].start < runs@[k as int].end <= n);
        let text = render_into_linestring(run.end, run.start, x, y, precision);
        results.push(text);
        k = k + 1;
    }
    assert(texts_of(results@) =~= linestrings_of(xs, ys, label_items(*classes)));
    Ok(results)
}

/// As many texts are rendered as the labels have maximal runs: one more than
/// the number of positions at which the label changes.
pub proof fn lemma_one_text_per_run(xs: Seq<Seq<char>>, ys: Seq<Seq<char>>, labels: Seq<i64>)
    requires
        0 < labels.len(),
    ensures
        change_points(labels).finite(),
        linestrings_of(xs, ys, labels).len() == change_points(labels).len() + 1,
{
    lemma_run_count(labels);
}

/// Where every label is the same, exactly one text is rendered, and it holds
/// all `N` points.
pub proof fn lemma_constant_labels_one_text(
    xs: Seq<Seq<char>>,
    ys: Seq<Seq<char>>,
    labels: Seq<i64>,
)
    requires
        0 < labels.len() <= usize::MAX,
        forall|i: int, j: int|
            0 <= i < labels.len() && 0 <= j < labels.len() ==> labels[i] == labels[j],
    ensures
        linestrings_of(xs, ys, labels) == seq![linestring_text(xs, ys, 0, labels.len() as int)],
{
    lemma_constant_labels(labels);
    assert(runs_of(labels)[0] == Segment { start: 0, end: labels.len() as usize });
    assert(linestrings_of(xs, ys, labels) =~= seq![
        linestring_text(xs, ys, 0, labels.len() as int),
    ]);
}

} // verus!
