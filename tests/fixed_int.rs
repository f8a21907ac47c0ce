use mountain::fixed_int::FixedInt10;

fn from_f32(f: f32) -> FixedInt10 {
    FixedInt10 { value: (f * 1024.0) as i32 }
}

fn to_f32(x: FixedInt10) -> f32 {
    x.value as f32 / 1024.0
}

#[test]
fn same_type() {
    let i_origin = 3;
    let f_origin = 3.;

    assert_eq!(i_origin, i32::from(FixedInt10::from(i_origin)));
    assert_eq!(f_origin, to_f32(from_f32(f_origin)));
}

#[test]
fn across_types() {
    let i_origin = 3;
    let f_origin = 3.;

    assert_eq!(f_origin, to_f32(FixedInt10::from(i_origin)));
    assert_eq!(i_origin, i32::from(from_f32(f_origin)));
}

#[test]
fn operations() {
    let origin = FixedInt10::from(200);
    assert_eq!(20, i32::from(origin / 10_i32));
    assert_eq!(2000, i32::from(origin * 10_i32));
    assert_eq!(210, i32::from(origin + 10_i32));
    assert_eq!(190, i32::from(origin - 10));
    assert_eq!(origin, (origin - 10) + 10);
    assert_eq!(origin, (origin / 10) * 10);

    let simple = FixedInt10::from(1);
    assert_eq!(2, i32::from(simple << 1));
    assert_eq!(4, i32::from(simple << 2));
    assert_eq!(simple, (simple << 2) >> 2);

    let simple = FixedInt10::from(1_u8);
    assert_eq!(8, i32::from(simple * 8_u8))
}

#[test]
fn fixedpoint_div() {
    let origin = from_f32(0.5);
    assert_eq!(0.25_f32, to_f32(origin / 2));
    assert_eq!(1, i32::from(origin * 2_u8));
}

#[test]
fn equality() {
    let origin = FixedInt10::from(200);
    assert_eq!(FixedInt10::from(220), origin + 20);
    assert_eq!(FixedInt10::from(220), 220.into());
    assert_ne!(FixedInt10::from(220), 200.into());
    assert_ne!(from_f32(0.), 1.into());
    assert_eq!(from_f32(0.), from_f32(1.) - 1);
}

#[test]
fn bits_manipulation() {
    let origin = from_f32(2.5f32);
    assert_eq!(2, i32::from(origin.floor()));
    assert_eq!(0.5f32, to_f32(origin.fract()));
    assert_eq!(FixedInt10::from(2), origin.floor());
    assert_eq!(from_f32(0.5), origin.fract());
    assert_eq!(FixedInt10::from(5), origin << 1);
    assert_eq!(from_f32(1.25), origin >> 1);
    assert_eq!(FixedInt10::from(2), origin & 2);
}

#[test]
fn integer_round_trip() {
    for n in [0, 1, -1, 3, -3, 200, -200, 0x1f_ffff, -0x20_0000] {
        assert_eq!(n, i32::from(FixedInt10::from(n)));
    }
}

#[test]
fn float_round_trip_loses_less_than_one_step() {
    for f in [0.0f32, 0.3, -0.3, 2.71, -2.71, 1000.123] {
        let back = to_f32(from_f32(f));
        assert!((back - f).abs() < 1.0 / 1024.0);
    }
}

#[test]
fn floor_plus_fract_is_identity() {
    for v in [0, 1, 1023, 1024, 2560, -1, -1024, -1025, -2560, i32::MAX, i32::MIN] {
        let x = FixedInt10 { value: v };
        assert_eq!(x, x.floor() + x.fract());
    }
}

#[test]
fn floor_rounds_down_negative_values() {
    let x = FixedInt10 { value: -1536 };
    assert_eq!(FixedInt10::from(-2), x.floor());
    assert_eq!(FixedInt10 { value: 512 }, x.fract());
    assert_eq!(-2, i32::from(x));
}

#[test]
fn shift_round_trip() {
    for (v, k) in [(1024, 3), (-1024, 5), (77, 20), (-77, 20), (1, 30), (-1, 31)] {
        let x = FixedInt10 { value: v };
        assert_eq!(x, (x << k) >> k);
    }
}

#[test]
fn division_truncates_toward_zero() {
    let x = FixedInt10 { value: -7 };
    assert_eq!(FixedInt10 { value: -3 }, x / 2);
    assert_eq!(FixedInt10 { value: 3 }, x / -2);
}

#[test]
fn multiplication_renormalizes() {
    let a = from_f32(1.5);
    let b = from_f32(2.0);
    assert_eq!(from_f32(3.0), a * b);
    assert_eq!(from_f32(-3.0), a * from_f32(-2.0));
}

#[test]
fn overflow_wraps_around() {
    let big = FixedInt10 { value: i32::MAX };
    assert_eq!(FixedInt10 { value: i32::MIN }, big + FixedInt10 { value: 1 });
    assert_eq!(FixedInt10 { value: i32::MIN }, FixedInt10::from(-0x20_0000));
    assert_eq!(FixedInt10 { value: 0 }, FixedInt10::from(0x40_0000));
}

#[test]
fn conversions_to_unsigned_and_byte() {
    let x = FixedInt10::from(300);
    assert_eq!(300usize, usize::from(x));
    assert_eq!(44u8, u8::from(x));
    let neg = FixedInt10::from(-1);
    assert_eq!(0x3f_ffffusize, usize::from(neg));
}
