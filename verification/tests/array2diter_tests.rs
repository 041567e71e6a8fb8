use minigolf::array2diter::{Array2DIterator, Array2DRangeIterator};

#[test]
fn items_come_with_column_and_row() {
    let data = [10, 11, 12, 13, 14, 15, 16];
    let mut it = Array2DIterator::new(&data, 3);
    let mut seen = Vec::new();
    while let Some((item, x, y)) = it.next() {
        seen.push((*item, x, y));
    }
    assert_eq!(
        seen,
        vec![
            (10, 0, 0),
            (11, 1, 0),
            (12, 2, 0),
            (13, 0, 1),
            (14, 1, 1),
            (15, 2, 1),
            (16, 0, 2),
        ]
    );
    assert_eq!(it.next(), None);
    let empty: [u8; 0] = [];
    assert_eq!(Array2DIterator::new(&empty, 4).next(), None);
}

#[test]
fn range_positions_cover_whole_rows_only() {
    let mut it = Array2DRangeIterator::<u8>::new(5..12, 3);
    let mut seen = Vec::new();
    while let Some(step) = it.next() {
        seen.push(step);
    }
    // seven positions in rows of three: two whole rows
    assert_eq!(
        seen,
        vec![(5, 0, 0), (6, 1, 0), (7, 2, 0), (8, 0, 1), (9, 1, 1), (10, 2, 1)]
    );
    assert_eq!(it.next(), None);
    assert_eq!(Array2DRangeIterator::<u8>::new(0..2, 3).next(), None);
    assert_eq!(Array2DRangeIterator::<u8>::new(0..0, 3).next(), None);
    let mut backwards = Array2DRangeIterator::<u8>::new(9..2, 3);
    assert_eq!(backwards.next(), None);
    let mut one = Array2DRangeIterator::<u8>::new(0..3, 1);
    assert_eq!(one.next(), Some((0, 0, 0)));
    assert_eq!(one.next(), Some((1, 0, 1)));
    assert_eq!(one.next(), Some((2, 0, 2)));
    assert_eq!(one.next(), None);
}
