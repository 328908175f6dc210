use ascii_spin::build_grid;

#[test]
fn dimensions_are_exactly_as_requested() {
    let samples = vec![0u8; 16];
    let g = build_grid(&samples, 4, 4);
    assert_eq!(g.width, 4);
    assert_eq!(g.height, 4);
    assert_eq!(g.cells.len(), 16);
    for y in 0..4 {
        assert_eq!(g.row_chars(y).len(), 4);
    }
}

#[test]
fn all_black_samples_fill_with_densest() {
    let samples = vec![0u8; 16];
    let g = build_grid(&samples, 4, 4);
    for y in 0..4 {
        for x in 0..4 {
            assert_eq!(g.get(x, y), '@');
        }
    }
}

#[test]
fn samples_are_placed_row_major() {
    let mut samples = vec![0u8; 12];
    samples[5] = 255;
    let g = build_grid(&samples, 4, 3);
    assert_eq!(g.get(1, 1), ' ');
    assert_eq!(g.get(0, 1), '@');
    assert_eq!(g.get(1, 0), '@');
}
