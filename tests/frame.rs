use raytrace::frame::{pixel_at, pixel_count, scan_order, slot_of, Pixel};

#[test]
fn pixel_count_of_small_image() {
    assert_eq!(pixel_count(4, 3), Some(12));
    assert_eq!(pixel_count(0, 7), Some(0));
}

#[test]
fn pixel_count_overflow_is_none() {
    assert_eq!(pixel_count(usize::MAX, 2), None);
}

#[test]
fn slot_zero_is_top_left() {
    // 3 wide, 2 high: slot 0 is the left pixel of the top row (row 1).
    assert_eq!(pixel_at(0, 3, 2), Pixel { col: 0, row: 1 });
    assert_eq!(pixel_at(2, 3, 2), Pixel { col: 2, row: 1 });
    assert_eq!(pixel_at(3, 3, 2), Pixel { col: 0, row: 0 });
    assert_eq!(pixel_at(5, 3, 2), Pixel { col: 2, row: 0 });
}

#[test]
fn slot_of_inverts_pixel_at() {
    for k in 0..12 {
        assert_eq!(slot_of(pixel_at(k, 4, 3), 4, 3), k);
    }
    assert_eq!(slot_of(Pixel { col: 1, row: 0 }, 4, 3), 9);
}

#[test]
fn scan_order_is_row_major_from_top() {
    let order = scan_order(2, 2);
    assert_eq!(
        order,
        vec![
            Pixel { col: 0, row: 1 },
            Pixel { col: 1, row: 1 },
            Pixel { col: 0, row: 0 },
            Pixel { col: 1, row: 0 },
        ]
    );
}

#[test]
fn scan_order_covers_each_pixel_once() {
    let order = scan_order(5, 3);
    assert_eq!(order.len(), 15);
    for row in 0..3 {
        for col in 0..5 {
            let n = order.iter().filter(|p| **p == Pixel { col, row }).count();
            assert_eq!(n, 1);
        }
    }
}

#[test]
fn scan_order_of_empty_image() {
    assert!(scan_order(0, 4).is_empty());
}
