use ascii_spin::CharGrid;
use ascii_spin::Trig;
use ascii_spin::Trig3;
use ascii_spin::rotate_grid2;
use ascii_spin::rotate_grid3;

fn trig_of(angle: f64) -> Trig {
    Trig {
        sin: (angle.sin() * 65536.0).round() as i64,
        cos: (angle.cos() * 65536.0).round() as i64,
    }
}

fn trig3_of(ax: f64, ay: f64, az: f64) -> Trig3 {
    Trig3 { x: trig_of(ax), y: trig_of(ay), z: trig_of(az) }
}

#[test]
fn zero_angles_are_identity() {
    let cells: Vec<char> = "@%#MW&8B$*o!;:. ".chars().collect();
    let g = CharGrid { cells, width: 4, height: 4 };
    let r3 = rotate_grid3(&g, &trig3_of(0.0, 0.0, 0.0));
    let r2 = rotate_grid2(&g, &trig_of(0.0));
    for y in 0..4 {
        for x in 0..4 {
            assert_eq!(r3.get(x, y), g.get(x, y));
            assert_eq!(r2.get(x, y), g.get(x, y));
        }
    }
}

#[test]
fn quarter_turn_permutes_cells_exactly() {
    let cells: Vec<char> = (0..25).map(|i| if i == 1 { '@' } else { '.' }).collect();
    let g = CharGrid { cells, width: 5, height: 5 };
    let r = rotate_grid2(&g, &trig_of(std::f64::consts::FRAC_PI_2));
    // A quarter turn about the center sends (x, y) to (4 - y, x); the marked
    // cell (1, 0) lands on (4, 1), and the bijection leaves no holes.
    assert_eq!(r.get(4, 1), '@');
    let mut blanks = 0;
    for y in 0..5 {
        for x in 0..5 {
            if r.get(x, y) == ' ' {
                blanks += 1;
            }
        }
    }
    assert_eq!(blanks, 0);
}

#[test]
fn rotate_then_unrotate_recovers_center() {
    let g = CharGrid { cells: vec!['@'; 21 * 21], width: 21, height: 21 };
    let once = rotate_grid2(&g, &trig_of(0.3));
    let twice = rotate_grid2(&once, &trig_of(-0.3));
    assert_eq!(twice.get(10, 10), '@');
}

#[test]
fn small_rotation_keeps_interior_dense() {
    let g = CharGrid { cells: vec!['@'; 21 * 21], width: 21, height: 21 };
    let r3 = rotate_grid3(&g, &trig3_of(0.0, 0.0, 0.05));
    let r2 = rotate_grid2(&g, &trig_of(0.05));
    for y in 9..=11 {
        for x in 9..=11 {
            assert_eq!(r3.get(x, y), '@');
            assert_eq!(r2.get(x, y), '@');
        }
    }
}

#[test]
fn center_stays_dense_at_large_angles() {
    let g = CharGrid { cells: vec!['@'; 21 * 21], width: 21, height: 21 };
    for a in [0.7, 1.2, 2.9, 4.5] {
        let r = rotate_grid3(&g, &trig3_of(a, a / 2.0, 1.2));
        assert_eq!(r.get(10, 10), '@');
    }
}

#[test]
fn source_grid_is_not_mutated() {
    let cells: Vec<char> = "@%#MW&8B$*o!;:. ".chars().collect();
    let g = CharGrid { cells: cells.clone(), width: 4, height: 4 };
    let _ = rotate_grid3(&g, &trig3_of(0.4, 0.9, 1.3));
    assert_eq!(g.cells, cells);
}
