use terrain_core::perm::PermTable;
use terrain_core::reals::{Operations, Reals};
use terrain_core::sampling::{Dimension, NoiseGenerator, SamplerKind, Unsupported};
use terrain_core::simplex2::{direction, Direction, Simplex2D, DIRECTIONS, SIMPLEX2_SALT};

/// The arithmetic of double precision.
fn double() -> impl Reals<f64> {
    Operations {
        sqrt3: 1.732_050_807_568_877_293_5,
        highest: f64::MAX,
        lowest: f64::MIN,
        whole: |n: i32| n as f64,
        count: |n: u64| n as f64,
        floor: |a: f64| a.floor(),
        cell: |a: f64| a as i32,
        byte: |a: f64| a as u8,
        plus: |a: f64, b: f64| a + b,
        minus: |a: f64, b: f64| a - b,
        times: |a: f64, b: f64| a * b,
        over: |a: f64, b: f64| a / b,
        exceeds: |a: f64, b: f64| a > b,
        lower: |a: f64, b: f64| a.min(b),
        upper: |a: f64, b: f64| a.max(b),
        power: |a: f64, b: f64| a.powf(b),
    }
}

fn dot(d: Direction, x: f64, y: f64) -> f64 {
    (d.dx as f64) * x + (d.dy as f64) * y
}

/// One octave at `(xin, yin)`, written out in double precision.
fn raw_noise(s: &Simplex2D<f64>, xin: f64, yin: f64) -> f64 {
    const SQRT_3: f64 = 1.732_050_807_568_877_293_5;
    const F2: f64 = 0.5 * (SQRT_3 - 1.0);
    const G2: f64 = (3.0 - SQRT_3) / 6.0;

    let skew = (xin + yin) * F2;
    let i = (xin + skew).floor() as i32;
    let j = (yin + skew).floor() as i32;
    let t = (i + j) as f64 * G2;
    let x0 = xin - (i as f64 - t);
    let y0 = yin - (j as f64 - t);
    let lower = x0 > y0;
    let (i1, j1) = if lower { (1.0, 0.0) } else { (0.0, 1.0) };
    let x1 = x0 - i1 + G2;
    let y1 = y0 - j1 + G2;
    let x2 = x0 - 1.0 + 2.0 * G2;
    let y2 = y0 - 1.0 + 2.0 * G2;

    let corners = s.corner_gradients(i, j, lower);
    let contribution = |d: Direction, x: f64, y: f64| {
        let t = 0.5 - x * x - y * y;
        if t > 0.0 {
            let t_sq = t * t;
            t_sq * t_sq * dot(d, x, y)
        } else {
            0.0
        }
    };
    let n0 = contribution(corners.origin, x0, y0);
    let n1 = contribution(corners.middle, x1, y1);
    let n2 = contribution(corners.far, x2, y2);
    70.0 * (n0 + n1 + n2)
}

/// The normalised sum of the sampler's octaves at `(x, y)`, written out in
/// double precision.
fn get2(s: &Simplex2D<f64>, x: f64, y: f64) -> f64 {
    let params = s.params();
    let mut amplitude = 1.0;
    let mut freq = params.frequency;
    let mut total = 0.0;
    let mut max_amp = 0.0;
    for _ in 0..params.octaves {
        total += raw_noise(s, x * freq, y * freq) * amplitude;
        max_amp += amplitude;
        amplitude *= params.persistence;
        freq *= 2.0;
    }
    total / max_amp
}

#[test]
fn simplex2_determinism() {
    let s1 = Simplex2D::new(9999, 0.05, 0.5, 4);
    let s2 = Simplex2D::new(9999, 0.05, 0.5, 4);
    let a = s1.get2(&double(), 1.23, 4.56).unwrap();
    let b = s2.get2(&double(), 1.23, 4.56).unwrap();
    assert!((a - b).abs() < 1e-12);
    assert_eq!(a.to_bits(), b.to_bits());
}

#[test]
fn simplex2_range() {
    let s = Simplex2D::new(0, 0.1, 0.5, 6);
    for &(x, y) in &[(0.0, 0.0), (5.5, -5.5), (100.1, 100.1)] {
        let v = s.get2(&double(), x, y).unwrap();
        assert!(v >= -1.0 - 1e-6 && v <= 1.0 + 1e-6);
    }
}

#[test]
fn simplex2_params_are_kept() {
    let s = Simplex2D::new(17, 4.0, 0.5, 2);
    let params = s.params();
    assert_eq!(params.seed, 17);
    assert_eq!(params.frequency, 4.0);
    assert_eq!(params.persistence, 0.5);
    assert_eq!(params.octaves, 2);
}

#[test]
fn simplex2_directions_are_the_fixed_twelve() {
    assert_eq!(DIRECTIONS, 12);
    let expected: [(i8, i8); 12] = [
        (1, 1), (-1, 1), (1, -1), (-1, -1),
        (1, 0), (-1, 0), (0, 1), (0, -1),
        (1, 2), (-1, 2), (1, -2), (-1, -2),
    ];
    for (index, &(dx, dy)) in expected.iter().enumerate() {
        assert_eq!(direction(index), Direction { dx, dy });
    }
}

#[test]
fn simplex2_corner_directions_come_from_the_table() {
    assert_eq!(SIMPLEX2_SALT, 0x123456789ABCDEF0);
    let seed = 9999u64;
    let s = Simplex2D::new(seed, 1.0, 0.5, 1);
    let t = PermTable::new(seed, SIMPLEX2_SALT);
    let at = |x: i64, y: i64| {
        let ii = x.rem_euclid(256) as usize;
        let jj = y.rem_euclid(256) as usize;
        direction(t.get(ii + t.get(jj) as usize) as usize % 12)
    };
    for &(i, j) in &[(0i32, 0i32), (3, -9), (-1, -1), (255, 255), (i32::MAX, i32::MIN)] {
        let (x, y) = (i as i64, j as i64);
        let lower = s.corner_gradients(i, j, true);
        assert_eq!(lower.origin, at(x, y));
        assert_eq!(lower.middle, at(x + 1, y));
        assert_eq!(lower.far, at(x + 1, y + 1));
        let upper = s.corner_gradients(i, j, false);
        assert_eq!(upper.origin, at(x, y));
        assert_eq!(upper.middle, at(x, y + 1));
        assert_eq!(upper.far, at(x + 1, y + 1));
    }
}

#[test]
fn simplex2_neighbouring_cells_share_corners() {
    let s = Simplex2D::new(4, 1.0, 0.5, 1);
    for i in -4..4 {
        for j in -4..4 {
            let here = s.corner_gradients(i, j, true);
            assert_eq!(here.middle, s.corner_gradients(i + 1, j, true).origin);
            assert_eq!(here.far, s.corner_gradients(i + 1, j + 1, false).origin);
            assert_eq!(
                s.corner_gradients(i, j, false).middle,
                s.corner_gradients(i, j + 1, true).origin
            );
        }
    }
}

#[test]
fn simplex2_is_zero_at_the_origin() {
    let s = Simplex2D::new(0, 1.0, 0.5, 1);
    assert_eq!(s.raw_noise(&double(), 0.0, 0.0), 0.0);
}

#[test]
fn simplex2_get3_is_refused() {
    let s = Simplex2D::new(0, 0.1, 0.5, 4);
    assert_eq!(s.kind(), SamplerKind::Simplex2D);
    assert_eq!(
        s.get3(&double(), 1.0, 2.0, 3.0),
        Err(Unsupported { kind: SamplerKind::Simplex2D, dimension: Dimension::Three })
    );
}

#[test]
fn simplex2_noise_is_the_written_out_formula() {
    let s = Simplex2D::new(99, 0.8, 0.55, 5);
    let points = [
        (0.0, 0.0),
        (10.5, -3.7),
        (5.3, -1.2),
        (100.1, 200.2),
        (-0.25, 0.75),
        (255.9, 256.1),
        (1e6, -1e6),
        (0.333, 0.667),
    ];
    for &(x, y) in &points {
        assert_eq!(s.raw_noise(&double(), x, y).to_bits(), raw_noise(&s, x, y).to_bits());
        assert_eq!(s.sample(&double(), x, y).to_bits(), get2(&s, x, y).to_bits());
    }
}

#[test]
fn simplex2_generate_samples_the_unit_square() {
    let s = Simplex2D::new(12, 3.0, 0.5, 2);
    let size = 12usize;
    let data = s.generate(&double(), size);
    assert_eq!(data.len(), size);
    for y in 0..size {
        assert_eq!(data[y].len(), size);
        for x in 0..size {
            let expected = get2(&s, x as f64 / size as f64, y as f64 / size as f64);
            assert_eq!(data[y][x].to_bits(), expected.to_bits());
        }
    }
}

#[test]
fn simplex2_root_of_three_is_the_nearest_double() {
    assert_eq!(3.0f64.sqrt(), 1.732_050_807_568_877_293_5);
}

#[test]
#[should_panic]
fn simplex2_get3_panic() {
    let s = Simplex2D::new(0, 0.1, 0.5, 4);
    let _ = s.get3(&double(), 1.0, 2.0, 3.0).unwrap();
}
