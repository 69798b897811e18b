use terrain_core::gradient::{gradient2, Axis, Gradient, SignedAxis};
use terrain_core::perlin2::{Perlin2D, PERLIN2_SALT};
use terrain_core::perm::PermTable;
use terrain_core::reals::{Operations, Reals};
use terrain_core::sampling::{Dimension, NoiseGenerator, SamplerKind, Unsupported};

/// The arithmetic of double precision.
fn double() -> impl Reals<f64> {
    Operations {
        sqrt3: 1.732_050_807_568_877_293_5,
        highest: f64::MAX,
        lowest: f64::MIN,
        whole: |n: i32| n as f64,
        count: |n: u64| n as f64,
        floor: |a: f64| a.floor(),
        cell: |a: f64| a as i32,
        byte: |a: f64| a as u8,
        plus: |a: f64, b: f64| a + b,
        minus: |a: f64, b: f64| a - b,
        times: |a: f64, b: f64| a * b,
        over: |a: f64, b: f64| a / b,
        exceeds: |a: f64, b: f64| a > b,
        lower: |a: f64, b: f64| a.min(b),
        upper: |a: f64, b: f64| a.max(b),
        power: |a: f64, b: f64| a.powf(b),
    }
}

fn signed(term: SignedAxis, x: f64, y: f64) -> f64 {
    let value = match term.axis {
        Axis::X => x,
        Axis::Y => y,
        Axis::Z => unreachable!(),
    };
    if term.negate {
        -value
    } else {
        value
    }
}

fn grad(g: Gradient, x: f64, y: f64) -> f64 {
    signed(g.first, x, y) + signed(g.second, x, y)
}

fn fade(t: f64) -> f64 {
    t * t * t * (t * (t * 6.0 - 15.0) + 10.0)
}

fn lerp(a: f64, b: f64, t: f64) -> f64 {
    a + t * (b - a)
}

/// One octave at `(x, y)`, written out in double precision.
fn noise(p: &Perlin2D<f64>, x: f64, y: f64) -> f64 {
    let corners = p.corner_hashes(x.floor() as i32, y.floor() as i32);
    let xf = x - x.floor();
    let yf = y - y.floor();
    let u = fade(xf);
    let v = fade(yf);
    let x1 = lerp(
        grad(gradient2(corners.aa), xf, yf),
        grad(gradient2(corners.ba), xf - 1.0, yf),
        u,
    );
    let x2 = lerp(
        grad(gradient2(corners.ab), xf, yf - 1.0),
        grad(gradient2(corners.bb), xf - 1.0, yf - 1.0),
        u,
    );
    lerp(x1, x2, v)
}

/// The normalised sum of the sampler's octaves at `(x, y)`, written out in
/// double precision.
fn get2(p: &Perlin2D<f64>, x: f64, y: f64) -> f64 {
    let params = p.params();
    let mut amplitude = 1.0;
    let mut freq = params.frequency;
    let mut total = 0.0;
    let mut max_amp = 0.0;
    for _ in 0..params.octaves {
        total += noise(p, x * freq, y * freq) * amplitude;
        max_amp += amplitude;
        amplitude *= params.persistence;
        freq *= 2.0;
    }
    total / max_amp
}

#[test]
fn perlin2_determinism() {
    let first = Perlin2D::new(1234, 0.01, 0.5, 4);
    let second = Perlin2D::new(1234, 0.01, 0.5, 4);
    let a = first.get2(&double(), 10.5, -3.7).unwrap();
    let b = second.get2(&double(), 10.5, -3.7).unwrap();
    assert!((a - b).abs() < 1e-12);
    assert_eq!(a.to_bits(), b.to_bits());
}

#[test]
fn perlin2_range() {
    let p = Perlin2D::new(0, 0.1, 0.5, 6);
    for &pt in &[(0.0, 0.0), (5.3, -1.2), (100.1, 200.2)] {
        let v = p.get2(&double(), pt.0, pt.1).unwrap();
        assert!(v >= -1.0 - 1e-6 && v <= 1.0 + 1e-6);
    }
}

#[test]
fn perlin2_range_over_a_grid() {
    let p = Perlin2D::new(77, 3.0, 0.5, 5);
    for y in 0..64 {
        for x in 0..64 {
            let v = p.sample(&double(), x as f64 / 64.0, y as f64 / 64.0);
            assert!(v.is_finite());
            assert!(v >= -1.0 - 1e-6 && v <= 1.0 + 1e-6);
        }
    }
}

#[test]
fn perlin2_is_zero_on_the_lattice() {
    let p = Perlin2D::new(5, 1.0, 0.5, 1);
    for &(x, y) in &[(0.0, 0.0), (1.0, 2.0), (-3.0, 7.0), (255.0, 256.0)] {
        assert_eq!(p.noise(&double(), x, y), 0.0);
    }
}

#[test]
fn perlin2_params_are_kept() {
    let p = Perlin2D::new(9, 0.25, 0.75, 3);
    let params = p.params();
    assert_eq!(params.seed, 9);
    assert_eq!(params.frequency, 0.25);
    assert_eq!(params.persistence, 0.75);
    assert_eq!(params.octaves, 3);
}

#[test]
fn perlin2_corner_hashes_chain_through_the_table() {
    assert_eq!(PERLIN2_SALT, 0xDEADBEEFCAFEBABE);
    let seed = 1234u64;
    let p = Perlin2D::new(seed, 1.0, 0.5, 1);
    let t = PermTable::new(seed, PERLIN2_SALT);
    let hash = |x: i64, y: i64| {
        let xi = x.rem_euclid(256) as usize;
        let yi = y.rem_euclid(256) as usize;
        t.get((t.get(xi) as usize + yi) & 255)
    };
    for &(cx, cy) in &[(0i32, 0i32), (10, -4), (-1, -1), (255, 255), (256, 511), (i32::MAX, i32::MIN)] {
        let c = p.corner_hashes(cx, cy);
        let (x, y) = (cx as i64, cy as i64);
        assert_eq!(c.aa, hash(x, y));
        assert_eq!(c.ab, hash(x, y + 1));
        assert_eq!(c.ba, hash(x + 1, y));
        assert_eq!(c.bb, hash(x + 1, y + 1));
    }
}

#[test]
fn perlin2_neighbouring_cells_share_corners() {
    let p = Perlin2D::new(31, 1.0, 0.5, 1);
    for cx in -5..5 {
        for cy in -5..5 {
            let here = p.corner_hashes(cx, cy);
            let right = p.corner_hashes(cx + 1, cy);
            let below = p.corner_hashes(cx, cy + 1);
            assert_eq!(here.ba, right.aa);
            assert_eq!(here.bb, right.ab);
            assert_eq!(here.ab, below.aa);
            assert_eq!(here.bb, below.ba);
        }
    }
}

#[test]
fn perlin2_hashes_repeat_with_period_256() {
    let p = Perlin2D::new(8, 1.0, 0.5, 1);
    assert_eq!(p.corner_hashes(3, 4), p.corner_hashes(3 + 256, 4 - 512));
}

#[test]
fn perlin2_differs_between_seeds() {
    let a = Perlin2D::new(1, 1.0, 0.5, 1);
    let b = Perlin2D::new(2, 1.0, 0.5, 1);
    assert!((0..256).any(|c| a.corner_hashes(c, 0) != b.corner_hashes(c, 0)));
}

#[test]
fn perlin2_get3_is_refused() {
    let p = Perlin2D::new(0, 0.1, 0.5, 4);
    assert_eq!(p.kind(), SamplerKind::Perlin2D);
    assert_eq!(
        p.get3(&double(), 1.0, 2.0, 3.0),
        Err(Unsupported { kind: SamplerKind::Perlin2D, dimension: Dimension::Three })
    );
}

#[test]
fn perlin2_noise_is_the_written_out_formula() {
    let p = Perlin2D::new(4242, 0.37, 0.6, 5);
    let points = [
        (0.0, 0.0),
        (10.5, -3.7),
        (5.3, -1.2),
        (100.1, 200.2),
        (-0.25, 0.75),
        (255.9, 256.1),
        (1e6, -1e6),
        (0.333, 0.667),
    ];
    for &(x, y) in &points {
        assert_eq!(p.noise(&double(), x, y).to_bits(), noise(&p, x, y).to_bits());
        assert_eq!(p.sample(&double(), x, y).to_bits(), get2(&p, x, y).to_bits());
    }
}

#[test]
fn perlin2_generate_samples_the_unit_square() {
    let p = Perlin2D::new(3, 4.0, 0.5, 3);
    let size = 16usize;
    let data = p.generate(&double(), size);
    assert_eq!(data.len(), size);
    for y in 0..size {
        assert_eq!(data[y].len(), size);
        for x in 0..size {
            let expected = get2(&p, x as f64 / size as f64, y as f64 / size as f64);
            assert_eq!(data[y][x].to_bits(), expected.to_bits());
        }
    }
    assert!(p.generate(&double(), 0).is_empty());
}

#[test]
fn perlin2_without_octaves_has_no_value() {
    let p = Perlin2D::new(3, 1.0, 0.5, 0);
    assert!(p.sample(&double(), 0.3, 0.4).is_nan());
}

#[test]
#[should_panic]
fn perlin2_get3_panic() {
    let p = Perlin2D::new(0, 0.1, 0.5, 4);
    // A planar generator has no value in space: the refusal has nothing to
    // unwrap.
    let _ = p.get3(&double(), 1.0, 2.0, 3.0).unwrap();
}
