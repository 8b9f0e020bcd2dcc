use conway::calc_idx_periodic;
use conway::index;

#[test]
fn index_inside_the_grid() {
    assert_eq!(calc_idx_periodic(0, 0, 5, 4), 0);
    assert_eq!(calc_idx_periodic(4, 0, 5, 4), 4);
    assert_eq!(calc_idx_periodic(0, 1, 5, 4), 5);
    assert_eq!(calc_idx_periodic(2, 3, 5, 4), 17);
    assert_eq!(calc_idx_periodic(4, 3, 5, 4), 19);
    assert_eq!(index::calc_idx_periodic(2, 3, 5, 4), 17);
}

#[test]
fn index_wraps_beyond_the_edges() {
    assert_eq!(calc_idx_periodic(5, 0, 5, 4), 0);
    assert_eq!(calc_idx_periodic(0, 4, 5, 4), 0);
    assert_eq!(calc_idx_periodic(7, 9, 5, 4), 7);
    assert_eq!(calc_idx_periodic(4 + 4, 3 + 3, 5, 4), 13);
    assert_eq!(calc_idx_periodic(u32::MAX, u32::MAX, 1, 1), 0);
}

#[test]
fn index_of_wrapped_coordinates_is_the_same() {
    for width in 1..6u32 {
        for height in 1..6u32 {
            for col in 0..13u32 {
                for row in 0..13u32 {
                    let idx = calc_idx_periodic(col, row, width, height);
                    assert_eq!(idx, calc_idx_periodic(col % width, row % height, width, height));
                    assert!(idx < (width * height) as usize);
                    assert_eq!(idx, ((col % width) + width * (row % height)) as usize);
                }
            }
        }
    }
}

#[test]
fn index_on_a_large_grid() {
    assert_eq!(calc_idx_periodic(65_534, 65_534, 65_535, 65_535), 4_294_836_224);
    assert_eq!(calc_idx_periodic(u32::MAX, 7, u32::MAX, 1), 0);
    assert_eq!(calc_idx_periodic(u32::MAX - 1, 0, u32::MAX, 1), 4_294_967_294);
}
