use ascii_spin::AnimState;
use ascii_spin::Axis;
use ascii_spin::parse_axis;

#[test]
fn initial_state_matches_defaults() {
    let s = AnimState::new();
    assert_eq!(s.angle_x, 0);
    assert_eq!(s.angle_y, 0);
    assert_eq!(s.angle_z, 0);
    assert_eq!(s.axis, Axis::Z);
    assert_eq!(s.speed_milli, 50);
}

#[test]
fn switching_axis_resets_all_angles() {
    let mut s = AnimState::new();
    s.advance_fixed();
    s.advance_fixed();
    assert!(s.angle_z > 0);
    s.select_axis(Axis::X);
    assert_eq!(s.angle_x, 0);
    assert_eq!(s.angle_y, 0);
    assert_eq!(s.angle_z, 0);
    assert_eq!(s.axis, Axis::X);
    assert_eq!(s.speed_milli, 50);
}

#[test]
fn fixed_tick_advances_selected_axis_only() {
    let mut s = AnimState::new();
    s.advance_fixed();
    assert_eq!(s.angle_z, 50_000);
    assert_eq!(s.angle_x, 0);
    assert_eq!(s.angle_y, 0);
}

#[test]
fn timed_tick_scales_with_elapsed_and_speed() {
    // 0.05 speed over one second at the 60-per-second normalization: 3 rad.
    let mut s = AnimState::new();
    s.advance_timed(1_000_000);
    assert_eq!(s.angle_z, 3_000_000);
    // double the speed over half the time gives the same increment
    let mut s2 = AnimState::new();
    s2.set_speed(100);
    s2.advance_timed(500_000);
    assert_eq!(s2.angle_z, 3_000_000);
}

#[test]
fn angle_wraps_to_zero_past_full_turn() {
    let mut s = AnimState::new();
    for _ in 0..125 {
        s.advance_fixed();
    }
    assert_eq!(s.angle_z, 6_250_000);
    s.advance_fixed();
    assert_eq!(s.angle_z, 0);
    let mut t = AnimState::new();
    for _ in 0..1000 {
        t.advance_fixed();
        assert!(t.angle_z < 6_283_185);
    }
}

#[test]
fn unknown_axis_token_skips_the_tick() {
    let mut s = AnimState::new();
    s.advance_timed_token('q', 1_000_000);
    assert_eq!(s.angle_x, 0);
    assert_eq!(s.angle_y, 0);
    assert_eq!(s.angle_z, 0);
    assert_eq!(s.axis, Axis::Z);
    s.advance_timed_token('x', 1_000_000);
    assert_eq!(s.axis, Axis::X);
    assert_eq!(s.angle_x, 3_000_000);
    assert_eq!(s.angle_z, 0);
}

#[test]
fn parse_axis_accepts_only_xyz() {
    assert_eq!(parse_axis('x'), Some(Axis::X));
    assert_eq!(parse_axis('y'), Some(Axis::Y));
    assert_eq!(parse_axis('z'), Some(Axis::Z));
    assert_eq!(parse_axis('w'), None);
    assert_eq!(parse_axis('X'), None);
}
