//! One `LINESTRING` per segment.
use crate::arrays::{text_at, text_items, text_shape, TextArray};
use vstd::prelude::*;
use vstd::string::StringExecFns;

verus! {

/// One point: its two coordinates with a space between them.
pub open spec fn pair_text(x: Seq<char>, y: Seq<char>) -> Seq<char> {
    x + " "@ + y
}

/// The points of `[start, end)` in input order, with `", "` between one and
/// the next and nothing after the last.
pub open spec fn pairs_text(xs: Seq<Seq<char>>, ys: Seq<Seq<char>>, start: int, end: int) -> Seq<
    char,
>
    decreases end - start,
{
    if end <= start {
        Seq::empty()
    } else if end == start + 1 {
        pair_text(xs[start], ys[start])
    } else {
        pairs_text(xs, ys, start, end - 1) + ", "@ + pair_text(xs[end - 1], ys[end - 1])
    }
}

/// The text of the segment `[start, end)`:
/// `LINESTRING (x[start] y[start], ..., x[end-1] y[end-1])`.
pub open spec fn linestring_text(
    xs: Seq<Seq<char>>,
    ys: Seq<Seq<char>>,
    start: int,
    end: int,
) -> Seq<char> {
    "LINESTRING ("@ + pairs_text(xs, ys, start, end) + ")"@
}

/// A segment of one point is rendered with that point alone between the
/// brackets, and no separator.
pub proof fn lemma_single_point(xs: Seq<Seq<char>>, ys: Seq<Seq<char>>, at: int)
    ensures
        linestring_text(xs, ys, at, at + 1) == "LINESTRING ("@ + xs[at] + " "@ + ys[at] + ")"@,
{
    assert("LINESTRING ("@ + (xs[at] + " "@ + ys[at]) + ")"@ =~= "LINESTRING ("@ + xs[at] + " "@
        + ys[at] + ")"@);
}

/// The size to which the buffer of one segment is set up: 13 bytes and, for
/// each of its `count` points, 10 more than `precision`; `usize::MAX` where
/// that is beyond a `usize`.
pub open spec fn estimated_size(precision: usize, count: usize) -> int {
    let estimate = 13 + (10 + precision) * count;
    if estimate <= usize::MAX {
        estimate
    } else {
        usize::MAX as int
    }
}

fn capacity_estimate(precision: usize, count: usize) -> (estimate: usize)
    ensures
        estimate == estimated_size(precision, count),
{
    if count == 0 {
        return 13;
    }
    assert(10 + precision > usize::MAX ==> (10 + precision) * count > usize::MAX)
        by (nonlinear_arith)
        requires
            count >= 1,
    ;
    match precision.checked_add(10) {
        Some(each) => match each.checked_mul(count) {
            Some(points) => match points.checked_add(13) {
                Some(estimate) => estimate,
                None => usize::MAX,
            },
            None => usize::MAX,
        },
        None => usize::MAX,
    }
}

/// Calls `String::try_reserve` and drops its answer: room is made where it
/// can be, and the text is trusted to stay as it was either way.
#[verifier::external_body]
fn reserve(text: &mut String, additional: usize)
    ensures
        final(text)@ == old(text)@,
{
    let _ = text.try_reserve(additional);
}

/// Renders the points of the segment `[tail, lead)` as one `LINESTRING`.
///
/// `points_a` and `points_b` hold the X and Y coordinates as texts, each a
/// fixed-point decimal with `precision` digits after the point. Here
/// `precision` only sizes the buffer; the result does not depend on it.
pub fn render_into_linestring(
    lead: usize,
    tail: usize,
    points_a: &TextArray,
    points_b: &TextArray,
    precision: usize,
) -> (text: String)
    requires
        text_shape(*points_a).len() == 1,
        text_shape(*points_b).len() == 1,
        tail < lead,
        lead <= text_shape(*points_a)[0],
        lead <= text_shape(*points_b)[0],
    ensures
        text@ == linestring_text(
            text_items(*points_a),
            text_items(*points_b),
            tail as int,
            lead as int,
        ),
{
    let ghost xs = text_items(*points_a);
    let ghost ys = text_items(*points_b);
    let mut text = String::new();
    reserve(&mut text, capacity_estimate(precision, lead - tail));
    text.append("LINESTRING (");
    let mut position = tail;
    while position < lead
        invariant
            text_shape(*points_a).len() == 1,
            text_shape(*points_b).len() == 1,
            lead <= text_shape(*points_a)[0],
            lead <= text_shape(*points_b)[0],
            xs == text_items(*points_a),
            ys == text_items(*points_b),
            tail <= position <= lead,
            text@ == "LINESTRING ("@ + pairs_text(xs, ys, tail as int, position as int),
        decreases lead - position,
    {
        let ghost so_far = pairs_text(xs, ys, tail as int, position as int);
        if position > tail {
            text.append(", ");
        }
        text.append(text_at(points_a, position));
        text.append(" ");
        text.append(text_at(points_b, position));
        proof {
            let pair = pair_text(xs[position as int], ys[position as int]);
            if position > tail {
                assert(text@ =~= "LINESTRING ("@ + (so_far + ", "@ + pair));
            } else {
                assert(text@ =~= "LINESTRING ("@ + pair);
            }
        }
        position = position + 1;
    }
    text.append(")");
    text
}

} // verus!
