//! The arrays that the encoder reads.
//!
//! Labels and coordinate texts are kept in dynamic-dimensional `ndarray`
//! arrays. Verus cannot look into such an array, so each kind is an opaque
//! struct with two uninterpreted descriptions, its shape and its items, and
//! a handful of unverified wrappers whose contracts tie `ndarray`'s methods to
//! those descriptions. Coordinates are held as texts, already rendered as
//! fixed-point decimals by the caller.
use vstd::prelude::*;

verus! {

/// A dynamic-dimensional array of class labels, held in an
/// `ndarray::ArrayD<i64>`. Opaque to the verifier: all that is known of it is
/// what the wrappers in this module state.
#[verifier::external_body]
pub struct LabelArray {
    inner: ndarray::ArrayD<i64>,
}

/// A dynamic-dimensional array of coordinate texts, held in an
/// `ndarray::ArrayD<String>`. Opaque to the verifier, as `LabelArray` is.
#[verifier::external_body]
pub struct TextArray {
    inner: ndarray::ArrayD<String>,
}

/// The lengths of the axes of a label array, outermost first.
pub uninterp spec fn label_shape(a: LabelArray) -> Seq<usize>;

/// The labels that a label array holds, in logical (row-major) order.
pub uninterp spec fn label_items(a: LabelArray) -> Seq<i64>;

/// The lengths of the axes of a text array, outermost first.
pub uninterp spec fn text_shape(a: TextArray) -> Seq<usize>;

/// The texts that a text array holds, in logical (row-major) order.
pub uninterp spec fn text_items(a: TextArray) -> Seq<Seq<char>>;

/// The number of items that a shape asks for: the product of its axis
/// lengths.
pub open spec fn shape_size(shape: Seq<usize>) -> nat
    decreases shape.len(),
{
    if shape.len() == 0 {
        1
    } else {
        shape_size(shape.drop_last()) * (shape.last() as nat)
    }
}

/// The product of those axis lengths that are not zero.
pub open spec fn nonzero_shape_size(shape: Seq<usize>) -> nat
    decreases shape.len(),
{
    if shape.len() == 0 {
        1
    } else if shape.last() == 0 {
        nonzero_shape_size(shape.drop_last())
    } else {
        nonzero_shape_size(shape.drop_last()) * (shape.last() as nat)
    }
}

/// Whether an array of this shape can be made of `count` items: the shape
/// asks for exactly that many, and its non-zero axis lengths multiply to no
/// more than `isize::MAX`.
pub open spec fn shape_fits(shape: Seq<usize>, count: nat) -> bool {
    nonzero_shape_size(shape) <= isize::MAX && shape_size(shape) == count
}

/// The contents of each string of a sequence.
pub open spec fn texts_of(items: Seq<String>) -> Seq<Seq<char>> {
    Seq::new(items.len(), |i: int| items[i]@)
}

/// Calls `ndarray::ArrayD::from_shape_vec` with the row-major shape
/// `IxDyn(shape)`. It is trusted to succeed exactly where the shape fits the
/// number of items, and then to give an array of that shape that holds the
/// items in the order given.
#[verifier::external_body]
pub(crate) fn build_labels(shape: &[usize], items: Vec<i64>) -> (built: Option<LabelArray>)
    ensures
        built is Some <==> shape_fits(shape@, items@.len()),
        built matches Some(a) ==> label_shape(a) == shape@ && label_items(a) == items@,
{
    ndarray::ArrayD::from_shape_vec(ndarray::IxDyn(shape), items).ok().map(
        |inner| LabelArray { inner },
    )
}

/// Calls `ndarray::ArrayBase::shape`. It is trusted to give the axis lengths,
/// and an array of one axis is trusted to hold as many items as that axis is
/// long.
#[verifier::external_body]
pub(crate) fn shape_of_labels(a: &LabelArray) -> (shape: &[usize])
    ensures
        shape@ == label_shape(*a),
        shape@.len() == 1 ==> label_items(*a).len() == shape@[0],
{
    a.inner.shape()
}

/// Indexes an `ndarray::ArrayD` with a `usize`, which panics unless the array
/// has one axis and the index is below its length. It is trusted to give the
/// item at that position.
#[verifier::external_body]
pub(crate) fn label_at(a: &LabelArray, i: usize) -> (label: i64)
    requires
        label_shape(*a).len() == 1,
        i < label_shape(*a)[0],
    ensures
        label == label_items(*a)[i as int],
{
    a.inner[i]
}

/// Calls `ndarray::ArrayD::from_shape_vec` with the row-major shape
/// `IxDyn(shape)`. It is trusted to succeed exactly where the shape fits the
/// number of items, and then to give an array of that shape that holds the
/// items in the order given.
#[verifier::external_body]
pub(crate) fn build_texts(shape: &[usize], items: Vec<String>) -> (built: Option<TextArray>)
    ensures
        built is Some <==> shape_fits(shape@, items@.len()),
        built matches Some(a) ==> text_shape(a) == shape@ && text_items(a) == texts_of(items@),
{
    ndarray::ArrayD::from_shape_vec(ndarray::IxDyn(shape), items).ok().map(
        |inner| TextArray { inner },
    )
}

/// Calls `ndarray::ArrayBase::shape`. It is trusted to give the axis lengths,
/// and an array of one axis is trusted to hold as many items as that axis is
/// long.
#[verifier::external_body]
pub(crate) fn shape_of_texts(a: &TextArray) -> (shape: &[usize])
    ensures
        shape@ == text_shape(*a),
        shape@.len() == 1 ==> text_items(*a).len() == shape@[0],
{
    a.inner.shape()
}

/// Indexes an `ndarray::ArrayD` with a `usize`, which panics unless the array
/// has one axis and the index is below its length. It is trusted to give the
/// item at that position.
#[verifier::external_body]
pub(crate) fn text_at(a: &TextArray, i: usize) -> (text: &str)
    requires
        text_shape(*a).len() == 1,
        i < text_shape(*a)[0],
    ensures
        text@ == text_items(*a)[i as int],
{
    a.inner[i].as_str()
}

impl LabelArray {
    /// An array of the given shape that holds `items` in row-major order, or
    /// `None` where the shape does not fit the number of items.
    pub fn from_shape_vec(shape: &[usize], items: Vec<i64>) -> (built: Option<LabelArray>)
        ensures
            built is Some <==> shape_fits(shape@, items@.len()),
            built matches Some(a) ==> label_shape(a) == shape@ && label_items(a) == items@,
    {
        build_labels(shape, items)
    }

    /// The lengths of the axes.
    pub fn shape(&self) -> (shape: &[usize])
        ensures
            shape@ == label_shape(*self),
            shape@.len() == 1 ==> label_items(*self).len() == shape@[0],
    {
        shape_of_labels(self)
    }
}

impl TextArray {
    /// An array of the given shape that holds `items` in row-major order, or
    /// `None` where the shape does not fit the number of items.
    pub fn from_shape_vec(shape: &[usize], items: Vec<String>) -> (built: Option<TextArray>)
        ensures
            built is Some <==> shape_fits(shape@, items@.len()),
            built matches Some(a) ==> text_shape(a) == shape@ && text_items(a) == texts_of(items@),
    {
        build_texts(shape, items)
    }

    /// The lengths of the axes.
    pub fn shape(&self) -> (shape: &[usize])
        ensures
            shape@ == text_shape(*self),
            shape@.len() == 1 ==> text_items(*self).len() == shape@[0],
    {
        shape_of_texts(self)
    }
}

} // verus!
