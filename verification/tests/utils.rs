use terrain_core::reals::{Operations, Reals};
use terrain_core::utils::{
    flatten2, height_to_rgb, lerp_color, square_edge, to_terrain_image, Band, Rgb,
};

/// The arithmetic of single precision.
fn single() -> impl Reals<f32> {
    Operations {
        sqrt3: 1.732_050_8,
        highest: f32::MAX,
        lowest: f32::MIN,
        whole: |n: i32| n as f32,
        count: |n: u64| n as f32,
        floor: |a: f32| a.floor(),
        cell: |a: f32| a as i32,
        byte: |a: f32| a as u8,
        plus: |a: f32, b: f32| a + b,
        minus: |a: f32, b: f32| a - b,
        times: |a: f32, b: f32| a * b,
        over: |a: f32, b: f32| a / b,
        exceeds: |a: f32, b: f32| a > b,
        lower: |a: f32, b: f32| a.min(b),
        upper: |a: f32, b: f32| a.max(b),
        power: |a: f32, b: f32| a.powf(b),
    }
}

/// The colour of a height, written out in single precision.
fn colour(h: f32) -> [u8; 3] {
    let blend = |a: [u8; 3], b: [u8; 3], t: f32| {
        [
            (a[0] as f32 + (b[0] as f32 - a[0] as f32) * t) as u8,
            (a[1] as f32 + (b[1] as f32 - a[1] as f32) * t) as u8,
            (a[2] as f32 + (b[2] as f32 - a[2] as f32) * t) as u8,
        ]
    };
    if h < 0.3 {
        blend([0, 0, 128], [0, 128, 255], h / 0.3)
    } else if h < 0.4 {
        blend([194, 178, 128], [220, 200, 160], (h - 0.3) / (0.4 - 0.3))
    } else if h < 0.6 {
        blend([34, 139, 34], [50, 205, 50], (h - 0.4) / (0.6 - 0.4))
    } else if h < 0.8 {
        blend([128, 128, 128], [192, 192, 192], (h - 0.6) / (0.8 - 0.6))
    } else {
        blend([220, 220, 220], [255, 255, 255], (h - 0.8) / (1.0 - 0.8))
    }
}

#[test]
fn flatten2_is_row_major() {
    let n = 7usize;
    let grid: Vec<Vec<f32>> = (0..n)
        .map(|y| (0..n).map(|x| (y * 100 + x) as f32 * 0.5).collect())
        .collect();
    let flat = flatten2(&grid);
    assert_eq!(flat.len(), n * n);
    for y in 0..n {
        for x in 0..n {
            assert_eq!(flat[y * n + x], grid[y][x]);
        }
    }
}

#[test]
fn flatten2_small_grid_exact() {
    let grid = vec![vec![1.0f32, 2.0], vec![3.0, 4.0]];
    assert_eq!(flatten2(&grid), vec![1.0, 2.0, 3.0, 4.0]);
}

#[test]
fn flatten2_of_nothing_is_empty() {
    let grid: Vec<Vec<f32>> = vec![];
    assert!(flatten2(&grid).is_empty());
    let rows_only: Vec<Vec<f32>> = vec![vec![], vec![]];
    assert!(flatten2(&rows_only).is_empty());
}

#[test]
fn flatten2_joins_rows_of_any_length() {
    let grid = vec![vec![1u8], vec![], vec![2, 3, 4], vec![5, 6]];
    assert_eq!(flatten2(&grid), vec![1, 2, 3, 4, 5, 6]);
}

#[test]
fn flatten2_keeps_bit_patterns() {
    let grid = vec![vec![f32::NAN, -0.0], vec![f32::INFINITY, f32::MIN_POSITIVE]];
    let flat = flatten2(&grid);
    let bits: Vec<u32> = flat.iter().map(|v| v.to_bits()).collect();
    assert_eq!(
        bits,
        vec![f32::NAN.to_bits(), (-0.0f32).to_bits(), f32::INFINITY.to_bits(), f32::MIN_POSITIVE.to_bits()]
    );
}

#[test]
fn square_edge_of_perfect_squares() {
    assert_eq!(square_edge(0), Some(0));
    assert_eq!(square_edge(1), Some(1));
    assert_eq!(square_edge(9), Some(3));
    assert_eq!(square_edge(129 * 129), Some(129));
    assert_eq!(square_edge(513 * 513), Some(513));
}

#[test]
fn square_edge_of_other_lengths() {
    for len in [2usize, 3, 5, 8, 10, 129 * 129 - 1, 129 * 129 + 1] {
        assert_eq!(square_edge(len), None);
    }
}

#[test]
fn square_edge_undoes_flatten2() {
    let grid = vec![vec![0.5f32; 17]; 17];
    assert_eq!(square_edge(flatten2(&grid).len()), Some(17));
}

#[test]
fn height_to_rgb_is_the_written_out_formula() {
    let kit = single();
    for k in -50..=1250 {
        let h = k as f32 / 1000.0;
        let c = height_to_rgb(&kit, h);
        assert_eq!([c.r, c.g, c.b], colour(h));
    }
}

#[test]
fn height_to_rgb_at_the_ends_of_the_bands() {
    let kit = single();
    assert_eq!(height_to_rgb(&kit, 0.0), Rgb { r: 0, g: 0, b: 128 });
    assert_eq!(height_to_rgb(&kit, 0.3), Rgb { r: 194, g: 178, b: 128 });
    assert_eq!(height_to_rgb(&kit, 0.4), Rgb { r: 34, g: 139, b: 34 });
    assert_eq!(height_to_rgb(&kit, 0.6), Rgb { r: 128, g: 128, b: 128 });
    assert_eq!(height_to_rgb(&kit, 0.8), Rgb { r: 220, g: 220, b: 220 });
    assert_eq!(height_to_rgb(&kit, 1.0), Rgb { r: 255, g: 255, b: 255 });
    assert_eq!(height_to_rgb(&kit, 0.15), Rgb { r: 0, g: 64, b: 191 });
    // In single precision 0.7 lies a hair below the middle of its band.
    assert_eq!(height_to_rgb(&kit, 0.7), Rgb { r: 159, g: 159, b: 159 });
    // And 0.5 a hair above the middle of its own: 34 + 16 * 0.50000006.
    assert_eq!(height_to_rgb(&kit, 0.5), Rgb { r: 42, g: 172, b: 42 });
}

#[test]
fn bands_follow_one_another() {
    let bands = [Band::Water, Band::Sand, Band::Grass, Band::Rock, Band::Snow];
    assert_eq!(bands[0].floor(), 0);
    assert_eq!(bands[4].ceiling(), 10);
    for pair in bands.windows(2) {
        assert_eq!(pair[0].ceiling(), pair[1].floor());
        assert!(pair[0].floor() < pair[0].ceiling());
    }
    assert_eq!(
        Band::Sand.colours(),
        (Rgb { r: 194, g: 178, b: 128 }, Rgb { r: 220, g: 200, b: 160 })
    );
}

#[test]
fn lerp_color_runs_from_one_colour_to_the_other() {
    let kit = single();
    let a = Rgb { r: 10, g: 200, b: 0 };
    let b = Rgb { r: 110, g: 100, b: 255 };
    assert_eq!(lerp_color(&kit, a, b, 0.0), a);
    assert_eq!(lerp_color(&kit, a, b, 1.0), b);
    assert_eq!(lerp_color(&kit, a, b, 0.5), Rgb { r: 60, g: 150, b: 127 });
}

#[test]
fn to_terrain_image_has_three_bytes_per_height() {
    let kit = single();
    let flat = vec![0.0f32, 0.35, 0.5, 0.7, 0.9, 1.0];
    let image = to_terrain_image(&kit, &flat);
    assert_eq!(image.len(), 3 * flat.len());
    for (i, &h) in flat.iter().enumerate() {
        assert_eq!(&image[3 * i..3 * i + 3], &colour(h));
    }
    assert!(to_terrain_image(&kit, &Vec::<f32>::new()).is_empty());
}
