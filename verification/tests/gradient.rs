use terrain_core::gradient::{gradient2, gradient3, Axis, Gradient, SignedAxis};
use terrain_core::lattice::wrap_cell;

fn apply(g: Gradient, x: f64, y: f64, z: f64) -> f64 {
    let term = |t: SignedAxis| {
        let value = match t.axis {
            Axis::X => x,
            Axis::Y => y,
            Axis::Z => z,
        };
        if t.negate {
            -value
        } else {
            value
        }
    };
    term(g.first) + term(g.second)
}

/// The two-dimensional gradient by the usual bit tests.
fn by_bits2(hash: u8, x: f64, y: f64) -> f64 {
    let h = (hash & 0xF) as usize;
    let u = if h < 8 { x } else { y };
    let v = if h < 8 { y } else { x };
    let sign_u = if (h & 1) == 0 { u } else { -u };
    let sign_v = if (h & 2) == 0 { v } else { -v };
    sign_u + sign_v
}

/// The three-dimensional gradient by the usual bit tests.
fn by_bits3(hash: u8, x: f64, y: f64, z: f64) -> f64 {
    let h = (hash & 0xF) as usize;
    let u = if h < 8 { x } else { y };
    let v = if h < 4 {
        y
    } else if h == 12 || h == 14 {
        x
    } else {
        z
    };
    let sign_u = if (h & 1) == 0 { u } else { -u };
    let sign_v = if (h & 2) == 0 { v } else { -v };
    sign_u + sign_v
}

#[test]
fn gradient2_agrees_with_bit_tests_for_every_hash() {
    for hash in 0..=255u8 {
        let g = gradient2(hash);
        assert_eq!(apply(g, 0.3, -0.7, 9.0), by_bits2(hash, 0.3, -0.7));
        assert!(g.first.axis != Axis::Z && g.second.axis != Axis::Z);
        assert!(g.first.axis != g.second.axis);
        assert_eq!(g, gradient2(hash & 0xF));
    }
}

#[test]
fn gradient3_agrees_with_bit_tests_for_every_hash() {
    for hash in 0..=255u8 {
        let g = gradient3(hash);
        assert_eq!(apply(g, 0.3, -0.7, 0.2), by_bits3(hash, 0.3, -0.7, 0.2));
        assert!(g.first.axis != g.second.axis);
        assert_eq!(g, gradient3(hash & 0xF));
    }
}

#[test]
fn gradient_examples() {
    let plus = |axis| SignedAxis { axis, negate: false };
    let minus = |axis| SignedAxis { axis, negate: true };
    assert_eq!(gradient2(0), Gradient { first: plus(Axis::X), second: plus(Axis::Y) });
    assert_eq!(gradient2(3), Gradient { first: minus(Axis::X), second: minus(Axis::Y) });
    assert_eq!(gradient2(9), Gradient { first: minus(Axis::Y), second: plus(Axis::X) });
    assert_eq!(gradient3(5), Gradient { first: minus(Axis::X), second: plus(Axis::Z) });
    assert_eq!(gradient3(12), Gradient { first: plus(Axis::Y), second: plus(Axis::X) });
    assert_eq!(gradient3(14), Gradient { first: plus(Axis::Y), second: minus(Axis::X) });
    assert_eq!(gradient3(15), Gradient { first: minus(Axis::Y), second: minus(Axis::Z) });
}

#[test]
fn wrap_cell_is_never_negative() {
    assert_eq!(wrap_cell(0), 0);
    assert_eq!(wrap_cell(255), 255);
    assert_eq!(wrap_cell(256), 0);
    assert_eq!(wrap_cell(257), 1);
    assert_eq!(wrap_cell(-1), 255);
    assert_eq!(wrap_cell(-256), 0);
    assert_eq!(wrap_cell(-257), 255);
    assert_eq!(wrap_cell(i32::MAX), 255);
    assert_eq!(wrap_cell(i32::MIN), 0);
    for c in -1000..1000 {
        assert_eq!(wrap_cell(c), c.rem_euclid(256) as usize);
    }
}
