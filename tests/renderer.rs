use mountain::camera::Camera;
use mountain::config::RendererConfig;
use mountain::fixed_int::FixedInt10;
use mountain::renderer::draw;
use mountain::terrain::{HeightMap, Rgba, Texture};

const SKY_BGR: [u8; 3] = [250, 120, 80];

fn flat_map(h: u8) -> HeightMap {
    HeightMap::from(2, vec![h; 4])
}

fn plain_texture(r: u8, g: u8, b: u8) -> Texture {
    Texture::from(2, vec![Rgba { r, g, b, a: 255 }; 4])
}

fn config(fog: bool, fog_start: i32, distance_max: i32) -> RendererConfig {
    RendererConfig { fog, fog_start, distance_max, enable_hm_filtering: false }
}

fn pixel(buf: &[u8], pitch: usize, col: usize, row: usize) -> [u8; 3] {
    let o = row * pitch + col * 4;
    [buf[o], buf[o + 1], buf[o + 2]]
}

#[test]
fn flat_ground_at_eye_level_is_all_sky() {
    let (w, h, pitch) = (8usize, 6usize, 40usize);
    let mut buf = vec![7u8; pitch * h];
    let camera = Camera::new(0.into(), 0.into(), 100.into(), 0);
    draw(&mut buf, w, h, pitch, &flat_map(100), &plain_texture(1, 2, 3), &camera, &config(false, 0, 10));
    for row in 0..h {
        for col in 0..w {
            assert_eq!(SKY_BGR, pixel(&buf, pitch, col, row));
            assert_eq!(7, buf[row * pitch + col * 4 + 3]);
        }
        for pad in w * 4..pitch {
            assert_eq!(7, buf[row * pitch + pad]);
        }
    }
}

#[test]
fn no_depth_draws_only_sky() {
    let (w, h, pitch) = (3usize, 3usize, 12usize);
    let mut buf = vec![0u8; pitch * h];
    let camera = Camera::new(0.into(), 0.into(), 0.into(), 0);
    draw(&mut buf, w, h, pitch, &flat_map(200), &plain_texture(1, 2, 3), &camera, &config(false, 0, 0));
    for row in 0..h {
        for col in 0..w {
            assert_eq!(SKY_BGR, pixel(&buf, pitch, col, row));
        }
    }
}

#[test]
fn empty_view_leaves_the_buffer() {
    let mut buf = vec![9u8; 16];
    let camera = Camera::new(0.into(), 0.into(), 0.into(), 0);
    draw(&mut buf, 0, 4, 4, &flat_map(200), &plain_texture(1, 2, 3), &camera, &config(false, 0, 10));
    assert_eq!(vec![9u8; 16], buf);
}

#[test]
fn without_fog_terrain_has_the_texture_colour() {
    let (w, h, pitch) = (2usize, 4usize, 8usize);
    let mut buf = vec![0u8; pitch * h];
    let camera = Camera::new(0.into(), 0.into(), 0.into(), 0);
    draw(&mut buf, w, h, pitch, &flat_map(200), &plain_texture(10, 20, 30), &camera, &config(false, 0, 3));
    for row in 0..h {
        for col in 0..w {
            assert_eq!([30, 20, 10], pixel(&buf, pitch, col, row));
        }
    }
}

#[test]
fn fog_blends_halfway_at_half_distance() {
    let (w, h, pitch) = (2usize, 4usize, 8usize);
    let mut buf = vec![0u8; pitch * h];
    let camera = Camera::new(0.into(), 0.into(), 0.into(), 0);
    draw(&mut buf, w, h, pitch, &flat_map(200), &plain_texture(10, 20, 30), &camera, &config(true, 0, 2));
    for row in 0..h {
        for col in 0..w {
            assert_eq!([140, 70, 45], pixel(&buf, pitch, col, row));
        }
    }
}

#[test]
fn far_terrain_fades_into_the_sky() {
    let (w, h, pitch) = (1usize, 4usize, 4usize);
    let mut buf = vec![0u8; pitch * h];
    let camera = Camera::new(0.into(), 0.into(), 1.into(), 4);
    draw(&mut buf, w, h, pitch, &flat_map(0), &plain_texture(0, 0, 0), &camera, &config(true, 1, 4100));
    assert_eq!([249, 119, 79], pixel(&buf, pitch, 0, 0));
    assert_eq!([0, 0, 0], pixel(&buf, pitch, 0, 1));
    assert_eq!([0, 0, 0], pixel(&buf, pitch, 0, 2));
    assert_eq!([0, 0, 0], pixel(&buf, pitch, 0, 3));
}

#[test]
fn drawn_terrain_rises_from_the_bottom_of_each_column() {
    let (w, h, pitch) = (16usize, 40usize, 64usize);
    let heights: Vec<u8> = (0..16u32).map(|k| ((k * 37) % 90) as u8).collect();
    let colours: Vec<Rgba> =
        (0..16u8).map(|k| Rgba { r: k + 1, g: 2 * k, b: 3 * k, a: 0 }).collect();
    let map = HeightMap::from(4, heights);
    let tex = Texture::from(4, colours);
    let mut camera = Camera::new(FixedInt10::from(1), FixedInt10::from(2), 50.into(), 10);
    camera.set_facing(FixedInt10 { value: 886 }, FixedInt10 { value: 512 });
    let mut buf = vec![0u8; pitch * h];
    let mut cfg = config(false, 0, 60);
    cfg.enable_hm_filtering = true;
    draw(&mut buf, w, h, pitch, &map, &tex, &camera, &cfg);
    let mut drawn = 0;
    for col in 0..w {
        let mut seen_sky = false;
        for row in (0..h).rev() {
            let is_sky = pixel(&buf, pitch, col, row) == SKY_BGR;
            if is_sky {
                seen_sky = true;
            } else {
                drawn += 1;
                assert!(!seen_sky, "terrain above sky in column {}", col);
            }
        }
    }
    assert!(drawn > 0);
}

#[test]
fn camera_starts_facing_angle_zero() {
    let camera = Camera::new(3.into(), 4.into(), 5.into(), 6);
    assert_eq!(FixedInt10::from(1), camera.cos_angle);
    assert_eq!(FixedInt10::from(0), camera.sin_angle);
    assert_eq!(6, camera.horizon);
}
