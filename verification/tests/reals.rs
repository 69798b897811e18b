use terrain_core::reals::{ratio, unit, Operations, Reals};

/// The arithmetic of single precision.
fn single() -> impl Reals<f32> {
    Operations {
        sqrt3: 1.732_050_8,
        highest: f32::MAX,
        lowest: f32::MIN,
        whole: |n: i32| n as f32,
        count: |n: u64| n as f32,
        floor: |a: f32| a.floor(),
        cell: |a: f32| a as i32,
        byte: |a: f32| a as u8,
        plus: |a: f32, b: f32| a + b,
        minus: |a: f32, b: f32| a - b,
        times: |a: f32, b: f32| a * b,
        over: |a: f32, b: f32| a / b,
        exceeds: |a: f32, b: f32| a > b,
        lower: |a: f32, b: f32| a.min(b),
        upper: |a: f32, b: f32| a.max(b),
        power: |a: f32, b: f32| a.powf(b),
    }
}

#[test]
fn kit_hands_out_its_operations() {
    let kit = single();
    assert_eq!(kit.sqrt3(), 1.732_050_8);
    assert_eq!(kit.highest(), f32::MAX);
    assert_eq!(kit.lowest(), f32::MIN);
    assert_eq!(kit.whole(-7), -7.0);
    assert_eq!(kit.count(12), 12.0);
    assert_eq!(kit.floor(-1.5), -2.0);
    assert_eq!(kit.cell(-2.0), -2);
    assert_eq!(kit.byte(300.0), 255);
    assert_eq!(kit.plus(1.5, 2.0), 3.5);
    assert_eq!(kit.minus(1.5, 2.0), -0.5);
    assert_eq!(kit.times(1.5, 2.0), 3.0);
    assert_eq!(kit.over(1.5, 2.0), 0.75);
    assert!(kit.exceeds(2.0, 1.5));
    assert!(!kit.exceeds(1.5, 1.5));
    assert_eq!(kit.lower(1.5, 2.0), 1.5);
    assert_eq!(kit.upper(1.5, 2.0), 2.0);
    assert_eq!(kit.power(2.0, 3.0), 8.0);
}

#[test]
fn ratios_are_the_fractions_as_written() {
    let kit = single();
    assert_eq!(ratio(&kit, 1, 2), 0.5);
    assert_eq!(ratio(&kit, 1, 4), 0.25);
    assert_eq!(ratio(&kit, 3, 10).to_bits(), 0.3f32.to_bits());
    assert_eq!(ratio(&kit, 4, 10).to_bits(), 0.4f32.to_bits());
    assert_eq!(ratio(&kit, 6, 10).to_bits(), 0.6f32.to_bits());
    assert_eq!(ratio(&kit, 8, 10).to_bits(), 0.8f32.to_bits());
    assert_eq!(ratio(&kit, 1, 1000).to_bits(), 0.001f32.to_bits());
    assert_eq!(ratio(&kit, 6, 5).to_bits(), 1.2f32.to_bits());
    assert_eq!(ratio(&kit, 26, 5).to_bits(), 5.2f32.to_bits());
}

#[test]
fn unit_runs_from_minus_one_to_one() {
    let kit = single();
    assert_eq!(unit(&kit, 0), -1.0);
    assert_eq!(unit(&kit, u64::MAX), 1.0);
    assert_eq!(unit(&kit, 1 << 63), 0.0);
    assert_eq!(unit(&kit, 1 << 62), -0.5);
    for draw in [1u64, 12345, 0xCAFEBABE12345678, u64::MAX - 1] {
        let v = unit(&kit, draw);
        assert!((-1.0..=1.0).contains(&v));
    }
}
