use mountain::fixed_int::FixedInt10;
use mountain::terrain::{HeightMap, LoadError, Rgba, Texture, MAP_SIZE};

fn from_f32(f: f32) -> FixedInt10 {
    FixedInt10 { value: (f * 1024.0) as i32 }
}

fn sample_map() -> HeightMap {
    let mut data = vec![0u8; 1024 * 1024];
    data[0 + 1024 * 0] = 1u8;
    data[1 + 1024 * 0] = 2u8;
    data[0 + 1024 * 1] = 3u8;
    data[1 + 1024 * 1] = 4u8;

    data[1023 + 1024 * 1023] = 5u8;

    HeightMap::from(1024, data)
}

fn small_map() -> HeightMap {
    HeightMap::from(2, vec![1, 2, 3, 4])
}

fn rgba(r: u8, g: u8, b: u8, a: u8) -> Rgba {
    Rgba { r, g, b, a }
}

fn small_texture() -> Texture {
    Texture::from(
        2,
        vec![rgba(0, 10, 20, 1), rgba(100, 110, 120, 2), rgba(200, 210, 220, 3), rgba(40, 50, 60, 4)],
    )
}

#[test]
fn get_boundaries() {
    let map = sample_map();
    assert_eq!(map.get_interpolate(0.into(), 0.into()), 1.into());
    assert_eq!(map.get_interpolate(1.into(), 0.into()), 2.into());
    assert_eq!(map.get_interpolate(0.into(), 1.into()), 3.into());
    assert_eq!(map.get_interpolate(1.into(), 1.into()), 4.into());

    assert_eq!(map.get_interpolate((1024 + 1).into(), 1.into()), 4.into());
    assert_eq!(
        map.get_interpolate((1024 + 1).into(), (1024 + 1).into()),
        4.into()
    );
    assert_eq!(map.get_interpolate((-1).into(), (-1).into()), 5.into());
}

#[test]
fn get_interpolation() {
    let map = sample_map();
    assert_eq!(
        map.get_interpolate(from_f32(0.5f32), from_f32(0.5f32)),
        FixedInt10::from(1 + 2 + 3 + 4) / 4
    );
}

#[test]
fn two_by_two_grid_interpolates_its_corners() {
    let map = small_map();
    assert_eq!(map.get_interpolate(0.into(), 0.into()), 1.into());
    assert_eq!(map.get_interpolate(1.into(), 0.into()), 2.into());
    assert_eq!(map.get_interpolate(0.into(), 1.into()), 3.into());
    assert_eq!(map.get_interpolate(1.into(), 1.into()), 4.into());
    assert_eq!(
        map.get_interpolate(from_f32(0.5), from_f32(0.5)),
        FixedInt10::from(1 + 2 + 3 + 4) / 4
    );
}

#[test]
fn interpolation_weights_a_quarter_step() {
    let map = small_map();
    // 1 * 0.75 + 2 * 0.25 = 1.25
    assert_eq!(map.get_interpolate(from_f32(0.25), 0.into()), from_f32(1.25));
}

#[test]
fn get_wraps_in_both_directions() {
    let map = small_map();
    for i in -5..5 {
        for j in -5..5 {
            let x = FixedInt10::from(i);
            let y = FixedInt10::from(j);
            let here = map.get(x, y);
            assert_eq!(here, map.get(x + 2, y));
            assert_eq!(here, map.get(x, y + 2));
            let tex = small_texture();
            assert_eq!(tex.get(x, y), tex.get(x + 2, y));
            assert_eq!(tex.get(x, y), tex.get(x, y + 2));
        }
    }
    assert_eq!(map.get(FixedInt10::from(-1), FixedInt10::from(0)), 2.into());
    assert_eq!(map.get(from_f32(-0.25), from_f32(-0.25)), 4.into());
}

#[test]
fn get_uses_the_cell_under_the_point() {
    let map = small_map();
    assert_eq!(map.get(from_f32(0.9), from_f32(0.2)), 1.into());
    assert_eq!(map.get(from_f32(1.1), from_f32(1.9)), 4.into());
}

#[test]
fn interpolation_at_grid_points_matches_get() {
    let map = sample_map();
    let tex = small_texture();
    for i in -3..4 {
        for j in -3..4 {
            let x = FixedInt10::from(i);
            let y = FixedInt10::from(j);
            assert_eq!(map.get_interpolate(x, y), map.get(x, y));
            assert_eq!(tex.get_interpolate(x, y), tex.get(x, y));
        }
    }
}

#[test]
fn texture_interpolation_blends_colour_keeps_alpha() {
    let tex = small_texture();
    let c = tex.get_interpolate(from_f32(0.5), from_f32(0.5));
    assert_eq!(c, rgba(85, 95, 105, 1));
    let c = tex.get_interpolate(from_f32(0.5), 0.into());
    assert_eq!(c, rgba(50, 60, 70, 1));
}

#[test]
fn width_is_the_grid_side() {
    assert_eq!(2, small_map().width());
    assert_eq!(1024, sample_map().width());
    assert_eq!(2, small_texture().width());
}

#[test]
fn from_image_checks_the_size() {
    let ok = HeightMap::from_image(MAP_SIZE, MAP_SIZE, vec![7u8; MAP_SIZE * MAP_SIZE]);
    assert!(ok.is_ok());
    let wrong = HeightMap::from_image(512, 512, vec![7u8; 512 * 512]);
    assert!(matches!(wrong, Err(LoadError::Size { width: 512, height: 512 })));
    let short = HeightMap::from_image(MAP_SIZE, MAP_SIZE, vec![7u8; 10]);
    assert!(matches!(short, Err(LoadError::Size { .. })));
    let tex = Texture::from_image(3, 1024, vec![rgba(1, 2, 3, 4); 3 * 1024]);
    assert!(matches!(tex, Err(LoadError::Size { width: 3, height: 1024 })));
}

#[test]
fn from_png_rejects_garbage() {
    assert!(matches!(HeightMap::from_png(&[1, 2, 3, 4]), Err(LoadError::Decode(_))));
    assert!(matches!(Texture::from_png(b"not a png"), Err(LoadError::Decode(_))));
}

#[test]
fn from_png_decodes_a_height_map() {
    let mut grey = vec![0u8; MAP_SIZE * MAP_SIZE];
    grey[3 + MAP_SIZE * 2] = 77;
    let png = lodepng::encode_memory(&grey, MAP_SIZE, MAP_SIZE, lodepng::ColorType::GREY, 8)
        .unwrap();
    let map = HeightMap::from_png(&png).unwrap();
    assert_eq!(map.get(3.into(), 2.into()), 77.into());
    assert_eq!(map.get(2.into(), 3.into()), 0.into());
}

#[test]
fn from_png_decodes_a_texture() {
    let mut px = vec![0u8; MAP_SIZE * MAP_SIZE * 4];
    let at = (5 + MAP_SIZE * 6) * 4;
    px[at] = 11;
    px[at + 1] = 22;
    px[at + 2] = 33;
    px[at + 3] = 44;
    let png = lodepng::encode_memory(&px, MAP_SIZE, MAP_SIZE, lodepng::ColorType::RGBA, 8)
        .unwrap();
    let tex = Texture::from_png(&png).unwrap();
    assert_eq!(tex.get(5.into(), 6.into()), rgba(11, 22, 33, 44));
}

#[test]
fn from_png_checks_the_size() {
    let grey = vec![9u8; 4 * 4];
    let png = lodepng::encode_memory(&grey, 4, 4, lodepng::ColorType::GREY, 8).unwrap();
    assert!(matches!(HeightMap::from_png(&png), Err(LoadError::Size { width: 4, height: 4 })));
}
