use terrain_core::erosion2::{neighbors, ThermalErosion2D};
use terrain_core::reals::{Operations, Reals};

/// The arithmetic of single precision.
fn single() -> impl Reals<f32> {
    Operations {
        sqrt3: 1.732_050_8,
        highest: f32::MAX,
        lowest: f32::MIN,
        whole: |n: i32| n as f32,
        count: |n: u64| n as f32,
        floor: |a: f32| a.floor(),
        cell: |a: f32| a as i32,
        byte: |a: f32| a as u8,
        plus: |a: f32, b: f32| a + b,
        minus: |a: f32, b: f32| a - b,
        times: |a: f32, b: f32| a * b,
        over: |a: f32, b: f32| a / b,
        exceeds: |a: f32, b: f32| a > b,
        lower: |a: f32, b: f32| a.min(b),
        upper: |a: f32, b: f32| a.max(b),
        power: |a: f32, b: f32| a.powf(b),
    }
}

/// Exact arithmetic on whole multiples of 2^-16, held as integers.
fn fixed() -> impl Reals<i64> {
    Operations {
        sqrt3: 113_512,
        highest: i64::MAX,
        lowest: i64::MIN,
        whole: |n: i32| (n as i64) << 16,
        count: |n: u64| (n as i64) << 16,
        floor: |a: i64| (a >> 16) << 16,
        cell: |a: i64| (a >> 16) as i32,
        byte: |a: i64| (a >> 16).clamp(0, 255) as u8,
        plus: |a: i64, b: i64| a + b,
        minus: |a: i64, b: i64| a - b,
        times: |a: i64, b: i64| (a * b) >> 16,
        over: |a: i64, b: i64| (a << 16) / b,
        exceeds: |a: i64, b: i64| a > b,
        lower: |a: i64, b: i64| a.min(b),
        upper: |a: i64, b: i64| a.max(b),
        power: |a: i64, _b: i64| a,
    }
}

/// Erodes with the arithmetic of single precision.
fn apply(eroder: &ThermalErosion2D<f32>, map: &mut Vec<Vec<f32>>) {
    eroder.apply(&single(), map);
}

/// A grid of whole numbers in fixed point.
fn whole(rows: &[&[i64]]) -> Vec<Vec<i64>> {
    rows.iter().map(|row| row.iter().map(|v| v << 16).collect()).collect()
}

#[test]
fn erosion2_simple_peak() {
    let mut map = vec![
        vec![0.0, 0.0, 0.0],
        vec![0.0, 2.0, 0.0],
        vec![0.0, 0.0, 0.0],
    ];
    let er = ThermalErosion2D::new(1, 1.0);
    apply(&er, &mut map);
    assert!(map[1][1] < 2.0);
    assert!(map[1][0] > 0.0 || map[1][2] > 0.0 || map[0][1] > 0.0 || map[2][1] > 0.0);
}

#[test]
fn erosion2_determinism() {
    let mut m1: Vec<Vec<f32>> = (0..5).map(|i| vec![i as f32; 5]).collect();
    let mut m2 = m1.clone();
    let er = ThermalErosion2D::new(3, 0.5);
    apply(&er, &mut m1);
    let er2 = ThermalErosion2D::new(3, 0.5);
    apply(&er2, &mut m2);
    assert_eq!(m1, m2);
}

#[test]
fn peak_sheds_half_the_excess_upwards() {
    // All four neighbours are equally steep; the first one scanned, the one
    // above, receives (2.0 - 1.0) * 0.5.
    let mut map = vec![
        vec![0.0, 0.0, 0.0],
        vec![0.0, 2.0, 0.0],
        vec![0.0, 0.0, 0.0],
    ];
    apply(&ThermalErosion2D::new(1, 1.0), &mut map);
    assert_eq!(
        map,
        vec![
            vec![0.0, 0.5, 0.0],
            vec![0.0, 1.5, 0.0],
            vec![0.0, 0.0, 0.0],
        ]
    );
}

#[test]
fn slopes_below_the_talus_angle_stay() {
    let mut map = vec![vec![0.0, 0.4], vec![0.8, 1.2]];
    let before = map.clone();
    apply(&ThermalErosion2D::new(4, 1.0), &mut map);
    assert_eq!(map, before);
}

#[test]
fn interior_pass_keeps_the_total() {
    let mut map = vec![vec![0.0f32; 7]; 7];
    map[3][3] = 8.0;
    map[3][4] = 5.0;
    map[2][3] = 1.0;
    let before: f32 = map.iter().flatten().sum();
    apply(&ThermalErosion2D::new(1, 0.5), &mut map);
    let after: f32 = map.iter().flatten().sum();
    assert!((before - after).abs() < 1e-5);
    assert!(map[3][3] < 8.0);
}

#[test]
fn erosion_params_are_kept() {
    let er = ThermalErosion2D::new(12, 0.75f32);
    assert_eq!(er.params().iterations, 12);
    assert_eq!(er.params().talus_angle, 0.75);
}

#[test]
fn neighbors_of_interior_cell() {
    assert_eq!(
        neighbors(2, 3, 5, 6),
        vec![(1, 3), (3, 3), (2, 2), (2, 4)]
    );
}

#[test]
fn neighbors_at_corners_and_edges() {
    assert_eq!(neighbors(0, 0, 3, 3), vec![(1, 0), (0, 1)]);
    assert_eq!(neighbors(2, 2, 3, 3), vec![(1, 2), (2, 1)]);
    assert_eq!(neighbors(0, 1, 3, 3), vec![(1, 1), (0, 0), (0, 2)]);
    assert_eq!(neighbors(1, 2, 3, 3), vec![(0, 2), (2, 2), (1, 1)]);
    assert_eq!(neighbors(0, 0, 1, 1), vec![]);
    assert_eq!(neighbors(0, 0, 1, 4), vec![(0, 1)]);
}

#[test]
fn neighbors_of_cells_outside() {
    assert_eq!(neighbors(3, 1, 3, 3), vec![(2, 1)]);
    assert_eq!(neighbors(1, 3, 3, 3), vec![(1, 2)]);
    assert_eq!(neighbors(7, 7, 3, 3), vec![]);
    assert_eq!(neighbors(usize::MAX, usize::MAX, 3, 3), vec![]);
    assert_eq!(neighbors(0, 0, 0, 0), vec![]);
}

#[test]
fn neighbors_are_mutual() {
    let (h, w) = (4usize, 5usize);
    for y in 0..h {
        for x in 0..w {
            for (ny, nx) in neighbors(y, x, h, w) {
                assert!(ny < h && nx < w);
                assert!(neighbors(ny, nx, h, w).contains(&(y, x)));
            }
        }
    }
}

#[test]
fn erosion_in_exact_arithmetic_keeps_the_total() {
    // The total is the same to the last unit, at the border as well as
    // inside.
    let mut map = whole(&[&[90, 3, 0, 41], &[7, 64, 12, 0], &[0, 5, 33, 2]]);
    let before: i64 = map.iter().flatten().sum();
    ThermalErosion2D::new(5, 4i64 << 16).apply(&fixed(), &mut map);
    let after: i64 = map.iter().flatten().sum();
    assert_eq!(before, after);
    assert_ne!(map[0][0], 90 << 16);
}

#[test]
fn a_pass_decides_on_the_grid_as_it_stood() {
    // 1 x 3: the middle cell drops 6 to the left and 2 to the right. It
    // sheds (6 - 2) / 2 = 2 to the left. The right cell has no drop at all,
    // although the middle cell is lower once the pass is over.
    let mut map = whole(&[&[0, 6, 4]]);
    ThermalErosion2D::new(1, 2i64 << 16).apply(&fixed(), &mut map);
    assert_eq!(map, whole(&[&[2, 4, 4]]));
}

#[test]
fn no_pass_changes_nothing() {
    let mut map = vec![vec![0.0f32, 9.0], vec![3.0, 1.0]];
    let before = map.clone();
    apply(&ThermalErosion2D::new(0, 0.1), &mut map);
    assert_eq!(map, before);
}

#[test]
fn negative_talus_moves_nothing_on_level_ground() {
    let mut map = vec![vec![1.0f32; 3]; 3];
    let before = map.clone();
    apply(&ThermalErosion2D::new(2, -1.0), &mut map);
    assert_eq!(map, before);
}
