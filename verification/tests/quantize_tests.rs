use ascii_spin::gradient_char;
use ascii_spin::quantize;

#[test]
fn blank_above_cutoff() {
    assert_eq!(quantize(241), ' ');
    assert_eq!(quantize(250), ' ');
    assert_eq!(quantize(255), ' ');
}

#[test]
fn gradient_picks_by_floor_division() {
    assert_eq!(quantize(0), '@');
    assert_eq!(quantize(16), '@');
    assert_eq!(quantize(17), '%');
    assert_eq!(quantize(120), 'B');
    assert_eq!(quantize(239), '.');
    assert_eq!(quantize(240), '.');
}

#[test]
fn density_never_increases_with_luminance() {
    let gradient: Vec<char> = (0..16).map(gradient_char).collect();
    let mut last: usize = 0;
    for s in 0..=240u8 {
        let c = quantize(s);
        let idx = gradient.iter().position(|&g| g == c).expect("gradient char");
        assert!(idx >= last, "sample {} moved back to denser index {}", s, idx);
        last = idx;
    }
}
