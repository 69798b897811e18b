use terrain_core::reals::{Operations, Reals};
use terrain_core::sampling::{Dimension, NoiseGenerator, SamplerKind, Unsupported};
use terrain_core::fractal2::{
    is_valid_size, size_for_exponent, Displacement, Fractal2D, StepKind, Visit, FRACTAL_SALT,
};

fn xorshift(mut x: u64) -> u64 {
    x ^= x << 13;
    x ^= x >> 7;
    x ^= x << 17;
    x
}

fn cells(plan: &[Displacement]) -> Vec<(usize, usize)> {
    plan.iter().map(|d| (d.visit.row, d.visit.col)).collect()
}

/// The schedule written as the nested loops of the textbook algorithm.
fn textbook_visits(size: usize) -> Vec<Visit> {
    let corner = |row, col| Visit { row, col, kind: StepKind::Corner, reach: 0, round: 0 };
    let mut out = vec![
        corner(0, 0),
        corner(0, size - 1),
        corner(size - 1, 0),
        corner(size - 1, size - 1),
    ];
    let mut step = size - 1;
    let mut round = 0;
    while step > 1 {
        let half = step / 2;
        for y in (0..size - 1).step_by(step) {
            for x in (0..size - 1).step_by(step) {
                out.push(Visit {
                    row: y + half,
                    col: x + half,
                    kind: StepKind::Diamond,
                    reach: half,
                    round,
                });
            }
        }
        for y in (0..size).step_by(half) {
            for x in (((y + half) % step)..size).step_by(step) {
                out.push(Visit { row: y, col: x, kind: StepKind::Square, reach: half, round });
            }
        }
        step = half;
        round += 1;
    }
    out
}

/// The arithmetic of single precision.
fn single() -> impl Reals<f32> {
    Operations {
        sqrt3: 1.732_050_8,
        highest: f32::MAX,
        lowest: f32::MIN,
        whole: |n: i32| n as f32,
        count: |n: u64| n as f32,
        floor: |a: f32| a.floor(),
        cell: |a: f32| a as i32,
        byte: |a: f32| a as u8,
        plus: |a: f32, b: f32| a + b,
        minus: |a: f32, b: f32| a - b,
        times: |a: f32, b: f32| a * b,
        over: |a: f32, b: f32| a / b,
        exceeds: |a: f32, b: f32| a > b,
        lower: |a: f32, b: f32| a.min(b),
        upper: |a: f32, b: f32| a.max(b),
        power: |a: f32, b: f32| a.powf(b),
    }
}

fn heights(f: &mut Fractal2D<f32>) -> Vec<Vec<f32>> {
    f.generate(&single())
}

#[test]
fn fractal2_dimensions() {
    let mut f = Fractal2D::new(129, 0, 1.0);
    let m = f.generate(&single());
    assert_eq!(m.len(), 129);
    assert_eq!(m[0].len(), 129);
    assert!(m.iter().all(|row| row.len() == 129 && row.iter().all(|v| v.is_finite())));
}

#[test]
fn fractal2_determinism() {
    let mut f1 = Fractal2D::new(65, 42, 0.8);
    let mut f2 = Fractal2D::new(65, 42, 0.8);
    assert_eq!(f1.generate(&single()), f2.generate(&single()));
    assert_eq!(f1.plan(), f2.plan());
}

#[test]
fn fractal2_value_range() {
    let mut f = Fractal2D::new(33, 7, 0.5);
    let m = f.generate(&single());
    for row in &m {
        for &v in row {
            assert!(v >= -2.0 && v <= 2.0, "value {} out of expected range", v);
        }
    }
}

#[test]
fn try_new_refuses_other_sizes() {
    assert!(Fractal2D::try_new(129, 0, 1.0).is_some());
    assert!(Fractal2D::try_new(3, 0, 1.0).is_some());
    for size in [0usize, 1, 2, 4, 100, 128, 130] {
        assert!(Fractal2D::try_new(size, 0, 1.0).is_none());
    }
    let f = Fractal2D::try_new(9, 4, 1.5).unwrap();
    assert_eq!(f.params().size, 9);
    assert_eq!(f.params().seed, 4);
    assert_eq!(f.params().roughness, 1.5);
}

#[test]
fn valid_sizes_are_powers_of_two_plus_one() {
    for size in [3usize, 5, 9, 17, 33, 65, 129, 257, 513, 1025] {
        assert!(is_valid_size(size));
    }
    for size in [0usize, 1, 2, 4, 6, 7, 8, 10, 16, 32, 64, 100, 128, 130, 256] {
        assert!(!is_valid_size(size));
    }
}

#[test]
fn size_for_exponent_is_two_to_the_n_plus_one() {
    assert_eq!(size_for_exponent(0), None);
    assert_eq!(size_for_exponent(1), Some(3));
    assert_eq!(size_for_exponent(6), Some(65));
    assert_eq!(size_for_exponent(7), Some(129));
    assert_eq!(size_for_exponent(9), Some(513));
    assert_eq!(size_for_exponent(usize::BITS - 1), Some((1usize << (usize::BITS - 1)) + 1));
    assert_eq!(size_for_exponent(usize::BITS), None);
    assert_eq!(size_for_exponent(u32::MAX), None);
}

#[test]
fn fractal_params_are_kept() {
    let f = Fractal2D::new(17, 99, 0.25);
    let p = f.params();
    assert_eq!(p.size, 17);
    assert_eq!(p.seed, 99);
    assert_eq!(p.roughness, 0.25);
}

#[test]
fn plan_for_smallest_grid() {
    let plan = Fractal2D::new(3, 0, 1.0).plan();
    assert_eq!(
        cells(&plan),
        vec![(0, 0), (0, 2), (2, 0), (2, 2), (1, 1), (0, 1), (1, 0), (1, 2), (2, 1)]
    );
    let kinds: Vec<StepKind> = plan.iter().map(|d| d.visit.kind).collect();
    assert_eq!(&kinds[..4], &[StepKind::Corner; 4]);
    assert_eq!(kinds[4], StepKind::Diamond);
    assert_eq!(&kinds[5..], &[StepKind::Square; 4]);
    assert!(plan[..4].iter().all(|d| d.visit.reach == 0 && d.visit.round == 0));
    assert!(plan[4..].iter().all(|d| d.visit.reach == 1 && d.visit.round == 0));
}

#[test]
fn plan_for_five_by_five() {
    let plan = Fractal2D::new(5, 1, 1.0).plan();
    assert_eq!(
        cells(&plan),
        vec![
            (0, 0), (0, 4), (4, 0), (4, 4),
            (2, 2),
            (0, 2), (2, 0), (2, 4), (4, 2),
            (1, 1), (1, 3), (3, 1), (3, 3),
            (0, 1), (0, 3), (1, 0), (1, 2), (1, 4), (2, 1), (2, 3),
            (3, 0), (3, 2), (3, 4), (4, 1), (4, 3),
        ]
    );
    let rounds: Vec<usize> = plan.iter().map(|d| d.visit.round).collect();
    assert!(rounds[..9].iter().all(|&r| r == 0));
    assert!(rounds[9..].iter().all(|&r| r == 1));
    let reaches: Vec<usize> = plan.iter().map(|d| d.visit.reach).collect();
    assert!(reaches[4..9].iter().all(|&r| r == 2));
    assert!(reaches[9..].iter().all(|&r| r == 1));
}

#[test]
fn plan_matches_textbook_loops() {
    for size in [3usize, 5, 9, 17, 33, 65, 129] {
        let plan = Fractal2D::new(size, 5, 0.5).plan();
        let visits: Vec<Visit> = plan.iter().map(|d| d.visit).collect();
        assert_eq!(visits, textbook_visits(size));
    }
}

#[test]
fn plan_sets_every_cell_once() {
    for size in [3usize, 5, 9, 17, 33, 65, 129] {
        let plan = Fractal2D::new(size, 11, 0.5).plan();
        assert_eq!(plan.len(), size * size);
        let mut seen = vec![vec![0u32; size]; size];
        for d in &plan {
            seen[d.visit.row][d.visit.col] += 1;
        }
        assert!(seen.iter().all(|row| row.iter().all(|&n| n == 1)));
    }
}

#[test]
fn plan_reads_only_what_is_set() {
    for size in [3usize, 5, 9, 17, 33, 65] {
        let f = Fractal2D::new(size, 3, 0.5);
        let mut set = vec![vec![false; size]; size];
        for d in f.plan() {
            let sources = f.sources(d.visit);
            match d.visit.kind {
                StepKind::Corner => assert!(sources.is_empty()),
                StepKind::Diamond => assert_eq!(sources.len(), 4),
                StepKind::Square => assert!(sources.len() == 3 || sources.len() == 4),
            }
            for (y, x) in sources {
                assert!(set[y][x]);
            }
            set[d.visit.row][d.visit.col] = true;
        }
    }
}

#[test]
fn draws_follow_the_stream() {
    let seed = 1234u64;
    let plan = Fractal2D::new(9, seed, 0.5).plan();
    let mut state = seed ^ FRACTAL_SALT;
    assert_eq!(FRACTAL_SALT, 0xCAFEBABE12345678);
    for d in &plan {
        state = xorshift(state);
        assert_eq!(d.draw, state);
    }
}

#[test]
fn sources_come_in_summing_order() {
    let f = Fractal2D::new(5, 0, 1.0);
    let diamond = Visit { row: 2, col: 2, kind: StepKind::Diamond, reach: 2, round: 0 };
    assert_eq!(f.sources(diamond), vec![(0, 0), (0, 4), (4, 0), (4, 4)]);
    let inner = Visit { row: 2, col: 1, kind: StepKind::Square, reach: 1, round: 1 };
    assert_eq!(f.sources(inner), vec![(2, 0), (2, 2), (1, 1), (3, 1)]);
    let top = Visit { row: 0, col: 2, kind: StepKind::Square, reach: 2, round: 0 };
    assert_eq!(f.sources(top), vec![(0, 0), (0, 4), (2, 2)]);
    let left = Visit { row: 2, col: 0, kind: StepKind::Square, reach: 2, round: 0 };
    assert_eq!(f.sources(left), vec![(2, 2), (0, 0), (4, 0)]);
    let corner = Visit { row: 0, col: 0, kind: StepKind::Corner, reach: 0, round: 0 };
    assert_eq!(f.sources(corner), vec![]);
    let outside = Visit { row: 9, col: 9, kind: StepKind::Square, reach: usize::MAX, round: 0 };
    assert_eq!(f.sources(outside), vec![]);
}

#[test]
fn covers_all_but_the_far_edge() {
    let f = Fractal2D::new(5, 0, 1.0);
    assert!(f.covers(0, 0));
    assert!(f.covers(3, 3));
    assert!(!f.covers(4, 0));
    assert!(!f.covers(0, 4));
    assert!(!f.covers(5, 5));
    assert!(!f.covers(usize::MAX, 0));
    assert!(!f.covers(0, usize::MAX));
}

#[test]
fn corner_heights_are_the_first_draws() {
    let mut f = Fractal2D::new(3, 7, 0.5);
    let m = heights(&mut f);
    let plan = f.plan();
    let unit = |draw: u64| (draw as f32 / u64::MAX as f32) * 2.0 - 1.0;
    assert_eq!(m[0][0], unit(plan[0].draw));
    assert_eq!(m[0][2], unit(plan[1].draw));
    assert_eq!(m[2][0], unit(plan[2].draw));
    assert_eq!(m[2][2], unit(plan[3].draw));
    let centre = (m[0][0] + m[0][2] + m[2][0] + m[2][2]) * 0.25 + unit(plan[4].draw);
    assert_eq!(m[1][1], centre);
    let top = (m[0][0] + m[0][2] + m[1][1]) / 3.0 + unit(plan[5].draw);
    assert_eq!(m[0][1], top);
}

#[test]
fn generate_satisfies_every_step() {
    // Each cell holds what the rule gives for its step and for the cells it
    // averages, as the finished grid holds them.
    let roughness = 0.7f32;
    let mut f = Fractal2D::new(17, 21, roughness);
    let grid = f.generate(&single());
    let unit = |draw: u64| (draw as f32 / u64::MAX as f32) * 2.0 - 1.0;
    for d in f.plan() {
        let around: Vec<f32> = f.sources(d.visit).iter().map(|&(y, x)| grid[y][x]).collect();
        let mut offset = 1.0f32;
        for _ in 0..d.visit.round {
            offset *= roughness;
        }
        let expected = match d.visit.kind {
            StepKind::Corner => unit(d.draw),
            StepKind::Diamond => {
                (around[0] + around[1] + around[2] + around[3]) * 0.25 + unit(d.draw) * offset
            }
            StepKind::Square => {
                let mut sum = 0.0;
                for v in &around {
                    sum += v;
                }
                sum / around.len() as f32 + unit(d.draw) * offset
            }
        };
        assert_eq!(grid[d.visit.row][d.visit.col].to_bits(), expected.to_bits());
    }
}

#[test]
fn generate_fills_a_square_grid() {
    for size in [3usize, 5, 17] {
        let grid = Fractal2D::new(size, 1, 0.5).generate(&single());
        assert_eq!(grid.len(), size);
        assert!(grid.iter().all(|row| row.len() == size));
    }
}

#[test]
fn generate_keeps_the_grid_for_sampling() {
    let mut f = Fractal2D::new(9, 5, 0.5f32);
    assert!(f.map().is_empty());
    assert_eq!(f.get2(&single(), 0.3, 0.3), Ok(0.0));
    let grid = f.generate(&single());
    assert_eq!(f.map(), &grid);
    assert_eq!(f.kind(), SamplerKind::Fractal2D);
}

#[test]
fn fractal_get2_interpolates_between_heights() {
    let mut f = Fractal2D::new(5, 77, 0.5f32);
    let m = f.generate(&single());
    let kit = single();
    // On the lattice the value is the height itself.
    assert_eq!(f.get2(&kit, 0.0, 0.0), Ok(m[0][0]));
    assert_eq!(f.get2(&kit, 0.4, 0.2), Ok(m[1][2]));
    // Half way along x between two heights.
    let half = m[0][1] * 0.5 + m[0][2] * 0.5;
    assert_eq!(f.get2(&kit, 0.3, 0.0), Ok(half));
    // The written-out formula at an inner point.
    let (x, y) = (0.47f32, 0.13f32);
    let (fx, fy) = (x * 5.0, y * 5.0);
    let (xi, yi) = (fx.floor() as usize, fy.floor() as usize);
    let (tx, ty) = (fx - xi as f32, fy - yi as f32);
    let ab = m[yi][xi] * (1.0 - tx) + m[yi][xi + 1] * tx;
    let cd = m[yi + 1][xi] * (1.0 - tx) + m[yi + 1][xi + 1] * tx;
    assert_eq!(f.get2(&kit, x, y), Ok(ab * (1.0 - ty) + cd * ty));
}

#[test]
fn fractal_get2_is_zero_outside_the_grid() {
    let mut f = Fractal2D::new(5, 77, 0.5f32);
    let _ = f.generate(&single());
    let kit = single();
    for &(x, y) in &[(0.8, 0.1), (0.1, 0.8), (1.0, 1.0), (2.5, 0.0), (-0.1, 0.2), (0.2, -3.0)] {
        assert_eq!(f.get2(&kit, x, y), Ok(0.0));
    }
}

#[test]
fn fractal_get3_is_refused() {
    let f = Fractal2D::new(5, 0, 0.5f32);
    assert_eq!(
        f.get3(&single(), 0.1, 0.2, 0.3),
        Err(Unsupported { kind: SamplerKind::Fractal2D, dimension: Dimension::Three })
    );
}
