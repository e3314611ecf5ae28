use custom_wkt::arrays::{LabelArray, TextArray};
use custom_wkt::error::{decimal, Input, WktError};
use custom_wkt::segments::{segments, Segment};
use custom_wkt::validate::{check_shapes, validate};

fn labels(values: &[i64]) -> LabelArray {
    LabelArray::from_shape_vec(&[values.len()], values.to_vec()).unwrap()
}

fn texts(count: usize) -> TextArray {
    TextArray::from_shape_vec(&[count], vec!["0".to_string(); count]).unwrap()
}

#[test]
fn segments_of_two_runs() {
    assert_eq!(
        segments(&labels(&[0, 0, 1, 1])),
        vec![Segment { start: 0, end: 2 }, Segment { start: 2, end: 4 }]
    );
}

#[test]
fn segments_of_one_label() {
    assert_eq!(segments(&labels(&[5])), vec![Segment { start: 0, end: 1 }]);
    assert_eq!(segments(&labels(&[5, 5, 5])), vec![Segment { start: 0, end: 3 }]);
}

#[test]
fn segments_of_alternating_labels() {
    assert_eq!(
        segments(&labels(&[1, 2, 1, 2])),
        vec![
            Segment { start: 0, end: 1 },
            Segment { start: 1, end: 2 },
            Segment { start: 2, end: 3 },
            Segment { start: 3, end: 4 },
        ]
    );
}

#[test]
fn segments_end_with_a_lone_point() {
    assert_eq!(
        segments(&labels(&[4, 4, 4, -4])),
        vec![Segment { start: 0, end: 3 }, Segment { start: 3, end: 4 }]
    );
}

#[test]
fn segments_partition_the_range() {
    let classes = [9, 9, 1, 1, 1, 9, 2, 2, 2, 2, 3];
    let runs = segments(&labels(&classes));
    assert_eq!(runs[0].start, 0);
    assert_eq!(runs[runs.len() - 1].end, classes.len());
    for k in 0..runs.len() {
        assert!(runs[k].start < runs[k].end);
        for i in runs[k].start..runs[k].end {
            assert_eq!(classes[i], classes[runs[k].start]);
        }
        if k + 1 < runs.len() {
            assert_eq!(runs[k].end, runs[k + 1].start);
            assert_ne!(classes[runs[k].end - 1], classes[runs[k].end]);
        }
    }
    assert_eq!(runs.len(), 5);
}

#[test]
fn shapes_are_checked_in_order() {
    assert_eq!(check_shapes(&[4], &[4], &[4]), Ok(4));
    assert_eq!(check_shapes(&[2], &[2], &[2]), Ok(2));
    assert_eq!(
        check_shapes(&[2, 2], &[], &[1, 1, 1]),
        Err(WktError::Dimension { input: Input::X, rank: 2 })
    );
    assert_eq!(
        check_shapes(&[4], &[], &[1, 1, 1]),
        Err(WktError::Dimension { input: Input::Y, rank: 0 })
    );
    assert_eq!(
        check_shapes(&[4], &[3], &[1, 1, 1]),
        Err(WktError::Dimension { input: Input::Classes, rank: 3 })
    );
    assert_eq!(
        check_shapes(&[4], &[3], &[4]),
        Err(WktError::LengthMismatch { x: 4, y: 3, classes: 4 })
    );
    assert_eq!(
        check_shapes(&[1], &[1], &[0]),
        Err(WktError::LengthMismatch { x: 1, y: 1, classes: 0 })
    );
    assert_eq!(check_shapes(&[1], &[1], &[1]), Err(WktError::InsufficientLength { length: 1 }));
    assert_eq!(check_shapes(&[0], &[0], &[0]), Err(WktError::InsufficientLength { length: 0 }));
}

#[test]
fn validate_reads_the_shapes_of_the_arrays() {
    assert_eq!(validate(&texts(3), &texts(3), &labels(&[1, 2, 3])), Ok(3));
    assert_eq!(
        validate(&texts(3), &texts(2), &labels(&[1, 2, 3])),
        Err(WktError::LengthMismatch { x: 3, y: 2, classes: 3 })
    );
    let grid = LabelArray::from_shape_vec(&[3, 1], vec![1, 2, 3]).unwrap();
    assert_eq!(
        validate(&texts(3), &texts(3), &grid),
        Err(WktError::Dimension { input: Input::Classes, rank: 2 })
    );
}

#[test]
fn arrays_report_the_shape_they_were_made_with() {
    let grid = LabelArray::from_shape_vec(&[2, 3], vec![1, 2, 3, 4, 5, 6]).unwrap();
    assert_eq!(grid.shape(), &[2, 3]);
    let line = TextArray::from_shape_vec(&[2], vec!["a".to_string(), "b".to_string()]).unwrap();
    assert_eq!(line.shape(), &[2]);
    let point = TextArray::from_shape_vec(&[], vec!["a".to_string()]).unwrap();
    assert_eq!(point.shape().len(), 0);
    let none = LabelArray::from_shape_vec(&[0, 5], vec![]).unwrap();
    assert_eq!(none.shape(), &[0, 5]);
}

#[test]
fn a_shape_must_fit_the_items() {
    assert!(LabelArray::from_shape_vec(&[3], vec![1, 2]).is_none());
    assert!(LabelArray::from_shape_vec(&[2, 2], vec![1, 2, 3]).is_none());
    assert!(LabelArray::from_shape_vec(&[], vec![]).is_none());
    assert!(LabelArray::from_shape_vec(&[1], vec![]).is_none());
    assert!(LabelArray::from_shape_vec(&[usize::MAX, 0], vec![]).is_none());
    assert!(LabelArray::from_shape_vec(&[usize::MAX, usize::MAX, 0], vec![]).is_none());
    assert!(LabelArray::from_shape_vec(&[isize::MAX as usize, 0], vec![]).is_some());
    assert!(TextArray::from_shape_vec(&[2], vec!["a".to_string()]).is_none());
    assert!(TextArray::from_shape_vec(&[0], vec![]).is_some());
}

#[test]
fn numbers_are_written_in_decimal() {
    assert_eq!(decimal(0), "0");
    assert_eq!(decimal(7), "7");
    assert_eq!(decimal(10), "10");
    assert_eq!(decimal(1234567890), "1234567890");
    assert_eq!(decimal(usize::MAX), usize::MAX.to_string());
}

#[test]
fn messages_name_what_was_found() {
    assert_eq!(
        WktError::Dimension { input: Input::X, rank: 12 }.message(),
        "Expected 1d array for x, but found 12"
    );
    assert_eq!(
        WktError::Dimension { input: Input::Y, rank: 0 }.message(),
        "Expected 1d array for y, but found 0"
    );
    assert_eq!(
        WktError::Dimension { input: Input::Classes, rank: 3 }.message(),
        "Expected 1d array for classes, but found 3"
    );
    assert_eq!(
        WktError::LengthMismatch { x: 4, y: 3, classes: 4 }.message(),
        "Array lengths mismatch 4 3 4"
    );
    assert_eq!(
        WktError::LengthMismatch { x: 100, y: 20, classes: 3 }.message(),
        "Array lengths mismatch 100 20 3"
    );
    assert_eq!(
        WktError::InsufficientLength { length: 1 }.message(),
        "Insufficient array length 1"
    );
    assert_eq!(Input::X.name(), "x");
    assert_eq!(Input::Y.name(), "y");
    assert_eq!(Input::Classes.name(), "classes");
}
