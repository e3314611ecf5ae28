//! Checks on the shapes of the three inputs.
use crate::arrays::{label_items, label_shape, text_items, text_shape, LabelArray, TextArray};
use crate::error::{Input, WktError};
use vstd::prelude::*;

verus! {

/// The first fault in the shapes of the three inputs, if there is one. The
/// checks come in a fixed order: each input has exactly one axis (x, then y,
/// then the labels); the three lengths are equal; there are at least two
/// points.
pub open spec fn shape_fault(x: Seq<usize>, y: Seq<usize>, classes: Seq<usize>) -> Option<
    WktError,
> {
    if x.len() != 1 {
        Some(WktError::Dimension { input: Input::X, rank: x.len() as usize })
    } else if y.len() != 1 {
        Some(WktError::Dimension { input: Input::Y, rank: y.len() as usize })
    } else if classes.len() != 1 {
        Some(WktError::Dimension { input: Input::Classes, rank: classes.len() as usize })
    } else if x[0] != y[0] || x[0] != classes[0] {
        Some(WktError::LengthMismatch { x: x[0], y: y[0], classes: classes[0] })
    } else if x[0] < 2 {
        Some(WktError::InsufficientLength { length: x[0] })
    } else {
        None
    }
}

/// Checks three shapes and gives the common length `N`, or the first fault.
pub fn check_shapes(x: &[usize], y: &[usize], classes: &[usize]) -> (checked: Result<
    usize,
    WktError,
>)
    ensures
        match checked {
            Ok(n) => shape_fault(x@, y@, classes@) is None && n == x@[0],
            Err(fault) => shape_fault(x@, y@, classes@) == Some(fault),
        },
{
    if x.len() != 1 {
        return Err(WktError::Dimension { input: Input::X, rank: x.len() });
    }
    if y.len() != 1 {
        return Err(WktError::Dimension { input: Input::Y, rank: y.len() });
    }
    if classes.len() != 1 {
        return Err(WktError::Dimension { input: Input::Classes, rank: classes.len() });
    }
    let length_x = x[0];
    let length_y = y[0];
    let length_classes = classes[0];
    if length_x != length_y || length_x != length_classes {
        return Err(WktError::LengthMismatch { x: length_x, y: length_y, classes: length_classes });
    }
    if length_x < 2 {
        return Err(WktError::InsufficientLength { length: length_x });
    }
    Ok(length_x)
}

/// Checks the three inputs before anything is grouped or rendered, and gives
/// the number of points `N`, or the first fault in their shapes. Inputs that
/// pass each hold `N` items along their one axis.
pub fn validate(x: &TextArray, y: &TextArray, classes: &LabelArray) -> (checked: Result<
    usize,
    WktError,
>)
    ensures
        match checked {
            Ok(n) => {
                &&& shape_fault(text_shape(*x), text_shape(*y), label_shape(*classes)) is None
                &&& n == text_shape(*x)[0]
                &&& text_items(*x).len() == n
                &&& text_items(*y).len() == n
                &&& label_items(*classes).len() == n
            },
            Err(fault) => shape_fault(text_shape(*x), text_shape(*y), label_shape(*classes))
                == Some(fault),
        },
{
    check_shapes(x.shape(), y.shape(), classes.shape())
}

} // verus!
