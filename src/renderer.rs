use crate::camera::Camera;
use crate::config::RendererConfig;
use crate::fixed_int::{lemma_wrap_i32, FixedInt10};
use crate::terrain::{HeightMap, Rgba, Texture};
use vstd::arithmetic::div_mod::lemma_fundamental_div_mod_converse;
use vstd::prelude::*;
use vstd::std_specs::ops::{AddSpec, DivSpec, MulSpec, SubSpec};

verus! {

/// The colour that fills the frame where no terrain is drawn.
pub open spec fn sky() -> Rgba {
    Rgba { r: 80, g: 120, b: 250, a: 0 }
}

/// Byte `k` of a pixel in the frame buffer: blue, green, then red.
pub open spec fn channel(c: Rgba, k: int) -> u8 {
    if k == 0 {
        c.b
    } else if k == 1 {
        c.g
    } else {
        c.r
    }
}

/// The frame buffer `base` with pixel `(c, y)` (column `c`, row `y` from the
/// top) of the `w` x `h` view painted `color(c, y)` wherever `done(c, y)`
/// holds. Rows are `pitch` bytes apart, pixels four bytes wide; the fourth
/// byte of a pixel and the bytes past the view keep their value.
pub open spec fn paint(
    base: Seq<u8>,
    w: int,
    h: int,
    pitch: int,
    done: spec_fn(int, int) -> bool,
    color: spec_fn(int, int) -> Rgba,
) -> Seq<u8> {
    Seq::new(
        base.len(),
        |k: int|
            {
                let y = k / pitch;
                let c = (k % pitch) / 4;
                let ch = (k % pitch) % 4;
                if 0 <= y < h && 0 <= c < w && 0 <= ch < 3 && done(c, y) {
                    channel(color(c, y), ch)
                } else {
                    base[k]
                }
            },
    )
}

/// Byte offset `k` lies in pixel `(c, y)`, channel `ch`.
proof fn lemma_offset(k: int, pitch: int, c: int, y: int, ch: int)
    requires
        0 <= c,
        0 <= y,
        0 <= ch < 4,
        4 * c + ch < pitch,
        k == y * pitch + 4 * c + ch,
    ensures
        k / pitch == y,
        (k % pitch) / 4 == c,
        (k % pitch) % 4 == ch,
{
    lemma_fundamental_div_mod_converse(k, pitch, y, 4 * c + ch);
    lemma_fundamental_div_mod_converse(4 * c + ch, 4, c, ch);
}

/// Painting one more pixel writes its three colour bytes.
proof fn lemma_paint_pixel(
    base: Seq<u8>,
    w: int,
    h: int,
    pitch: int,
    done1: spec_fn(int, int) -> bool,
    color1: spec_fn(int, int) -> Rgba,
    done2: spec_fn(int, int) -> bool,
    color2: spec_fn(int, int) -> Rgba,
    c0: int,
    y0: int,
    col: Rgba,
)
    requires
        0 <= c0 < w,
        0 <= y0 < h,
        4 * w <= pitch,
        pitch * h <= base.len(),
        done2(c0, y0),
        color2(c0, y0) == col,
        forall|c: int, y: int|
            0 <= c < w && 0 <= y < h && !(c == c0 && y == y0) ==> (#[trigger] done1(c, y) == done2(c, y)
                && (done1(c, y) ==> color1(c, y) == color2(c, y))),
    ensures
        ({
            let o = y0 * pitch + 4 * c0;
            paint(base, w, h, pitch, done1, color1).update(o, col.b).update(o + 1, col.g).update(
                o + 2,
                col.r,
            ) == paint(base, w, h, pitch, done2, color2)
        }),
{
    let o = y0 * pitch + 4 * c0;
    let s1 = paint(base, w, h, pitch, done1, color1);
    let s2 = paint(base, w, h, pitch, done2, color2);
    let s = s1.update(o, col.b).update(o + 1, col.g).update(o + 2, col.r);
    assert(y0 * pitch + pitch <= h * pitch) by (nonlinear_arith)
        requires
            y0 < h,
            0 <= pitch,
    ;
    assert(h * pitch == pitch * h) by (nonlinear_arith);
    lemma_offset(o, pitch, c0, y0, 0);
    lemma_offset(o + 1, pitch, c0, y0, 1);
    lemma_offset(o + 2, pitch, c0, y0, 2);
    assert forall|k: int| 0 <= k < s.len() implies s[k] == s2[k] by {
        if k != o && k != o + 1 && k != o + 2 {
            let y = k / pitch;
            let c = (k % pitch) / 4;
            let ch = (k % pitch) % 4;
            vstd::arithmetic::div_mod::lemma_fundamental_div_mod(k, pitch);
            vstd::arithmetic::div_mod::lemma_fundamental_div_mod(k % pitch, 4);
            vstd::arithmetic::div_mod::lemma_div_pos_is_pos(k, pitch);
            vstd::arithmetic::div_mod::lemma_mod_pos_bound(k, pitch);
            vstd::arithmetic::div_mod::lemma_mod_pos_bound(k % pitch, 4);
            vstd::arithmetic::div_mod::lemma_div_pos_is_pos(k % pitch, 4);
            if c == c0 && y == y0 && ch < 3 {
                assert(k == y0 * pitch + 4 * c0 + ch) by (nonlinear_arith)
                    requires
                        k == pitch * y + k % pitch,
                        k % pitch == 4 * c + ch,
                        c == c0,
                        y == y0,
                ;
            }
        }
    }
    assert(s =~= s2);
}

/// Two paintings that agree on every pixel of the view are the same bytes.
proof fn lemma_paint_same(
    base: Seq<u8>,
    w: int,
    h: int,
    pitch: int,
    done1: spec_fn(int, int) -> bool,
    color1: spec_fn(int, int) -> Rgba,
    done2: spec_fn(int, int) -> bool,
    color2: spec_fn(int, int) -> Rgba,
)
    requires
        0 < pitch,
        forall|c: int, y: int|
            0 <= c < w && 0 <= y < h ==> (#[trigger] done1(c, y) == done2(c, y) && (done1(c, y) ==> color1(
                c,
                y,
            ) == color2(c, y))),
    ensures
        paint(base, w, h, pitch, done1, color1) == paint(base, w, h, pitch, done2, color2),
{
    let s1 = paint(base, w, h, pitch, done1, color1);
    let s2 = paint(base, w, h, pitch, done2, color2);
    assert forall|k: int| 0 <= k < s1.len() implies s1[k] == s2[k] by {
        vstd::arithmetic::div_mod::lemma_div_pos_is_pos(k, pitch);
        vstd::arithmetic::div_mod::lemma_mod_pos_bound(k, pitch);
        vstd::arithmetic::div_mod::lemma_div_pos_is_pos(k % pitch, 4);
    }
    assert(s1 =~= s2);
}


/// Every pixel of the view.
pub open spec fn all_pixels() -> spec_fn(int, int) -> bool {
    |c: int, y: int| true
}

/// The same colour everywhere.
pub open spec fn solid(color: Rgba) -> spec_fn(int, int) -> Rgba {
    |c: int, y: int| color
}

/// The pixels of column `i` whose height above the bottom of an `h` pixels
/// high view lies in `[lo, hi)`.
pub open spec fn column_span(i: int, lo: int, hi: int, h: int) -> spec_fn(int, int) -> bool {
    |c: int, y: int| c == i && lo <= h - 1 - y < hi
}

/// The scan line at depth `z` of a view `w` pixels wide: its left end and
/// the step from one column to the next. The line crosses the square of half
/// side `z` around the camera, rotated to the camera's facing.
pub open spec fn scan_line(cam: Camera, w: int, z: int) -> (
    FixedInt10,
    FixedInt10,
    FixedInt10,
    FixedInt10,
) {
    let cz = cam.cos_angle.mul_spec(z as i32);
    let sz = cam.sin_angle.mul_spec(z as i32);
    let left_x = cam.x.sub_spec(cz).sub_spec(sz);
    let left_y = cam.y.add_spec(sz).sub_spec(cz);
    let right_x = cam.x.add_spec(cz).sub_spec(sz);
    let right_y = cam.y.sub_spec(sz).sub_spec(cz);
    (
        left_x,
        left_y,
        right_x.sub_spec(left_x).div_spec(w as i32),
        right_y.sub_spec(left_y).div_spec(w as i32),
    )
}

/// The world point seen in column `i` at depth `z`.
pub open spec fn ground_point(cam: Camera, w: int, z: int, i: int) -> (FixedInt10, FixedInt10) {
    let (lx, ly, sx, sy) = scan_line(cam, w, z);
    (lx.add_spec(sx.mul_spec(i as i32)), ly.add_spec(sy.mul_spec(i as i32)))
}

/// Terrain height at the point of column `i` at depth `z`.
pub open spec fn terrain_height(
    map: &HeightMap,
    cam: Camera,
    cfg: RendererConfig,
    w: int,
    z: int,
    i: int,
) -> FixedInt10 {
    let (px, py) = ground_point(cam, w, z, i);
    if cfg.enable_hm_filtering {
        map.spec_get_interpolate(px, py)
    } else {
        map.spec_get(px, py)
    }
}

/// Terrain colour at the point of column `i` at depth `z`.
pub open spec fn terrain_color(
    tex: &Texture,
    cam: Camera,
    cfg: RendererConfig,
    w: int,
    z: int,
    i: int,
) -> Rgba {
    let (px, py) = ground_point(cam, w, z, i);
    if cfg.enable_hm_filtering {
        tex.spec_get_interpolate(px, py)
    } else {
        tex.spec_get(px, py)
    }
}

/// How many pixels above the bottom of an `h` pixels high view the terrain
/// of column `i` at depth `z` reaches: its height above the camera, scaled
/// by `h` and divided by the depth, plus the horizon; never below zero.
pub open spec fn projected_height(
    map: &HeightMap,
    cam: Camera,
    cfg: RendererConfig,
    w: int,
    h: int,
    z: int,
    i: int,
) -> int {
    let t = terrain_height(map, cam, cfg, w, z, i);
    let horizon = FixedInt10::of_int(cam.horizon as int);
    let screen_h = t.sub_spec(cam.z).mul_spec(h as i32).div_spec(z as i32).add_spec(horizon);
    if screen_h.int_part() > 0 {
        screen_h.int_part()
    } else {
        0
    }
}

/// Share of the sky colour, in units of 1/1024, at depth `z` past the fog
/// start. The depths drawn lie below `distance_max`, so past the fog start
/// the share stays in `[0, 1024)` whatever the configuration.
pub open spec fn fog_weight(z: int, fog_start: int, distance_max: int) -> int {
    ((z - fog_start) * 1024) / (distance_max - fog_start)
}

/// A channel `t` faded toward the sky channel `s` by `weight`/1024.
pub open spec fn fade(t: u8, s: u8, weight: int) -> u8 {
    (((1024 - weight) * t + weight * s) / 1024) as u8
}

/// The colour drawn for column `i` at depth `z`: the terrain colour, faded
/// toward the sky beyond the fog start when fog is on.
#[verifier::opaque]
pub open spec fn shade(
    tex: &Texture,
    cam: Camera,
    cfg: RendererConfig,
    w: int,
    z: int,
    i: int,
) -> Rgba {
    let c = terrain_color(tex, cam, cfg, w, z, i);
    if cfg.fog && z > cfg.fog_start {
        let k = fog_weight(z, cfg.fog_start as int, cfg.distance_max as int);
        Rgba { r: fade(c.r, sky().r, k), g: fade(c.g, sky().g, k), b: fade(c.b, sky().b, k), a: 0 }
    } else {
        c
    }
}

/// The highest projected height of column `i` over the depths `[1, z)`,
/// and zero when there is none.
pub open spec fn running_max(
    map: &HeightMap,
    cam: Camera,
    cfg: RendererConfig,
    w: int,
    h: int,
    i: int,
    z: int,
) -> int
    decreases z,
{
    if z <= 1 {
        0
    } else {
        let before = running_max(map, cam, cfg, w, h, i, z - 1);
        let p = projected_height(map, cam, cfg, w, h, z - 1, i);
        if p > before {
            p
        } else {
            before
        }
    }
}

/// The nearest depth in `[1, z)` whose terrain in column `i` rises above
/// `level` pixels, if any.
pub open spec fn cover(
    map: &HeightMap,
    cam: Camera,
    cfg: RendererConfig,
    w: int,
    h: int,
    i: int,
    level: int,
    z: int,
) -> Option<int>
    decreases z,
{
    if z <= 1 {
        None
    } else {
        let nearer = cover(map, cam, cfg, w, h, i, level, z - 1);
        if nearer is Some {
            nearer
        } else if projected_height(map, cam, cfg, w, h, z - 1, i) > level {
            Some(z - 1)
        } else {
            None
        }
    }
}

/// The colour of the pixel of column `i` at `level` pixels above the bottom
/// of the view once the depths `[1, z)` are drawn: the colour of the nearest
/// of them whose terrain covers it, or the sky.
pub open spec fn frame_color(
    map: &HeightMap,
    tex: &Texture,
    cam: Camera,
    cfg: RendererConfig,
    w: int,
    h: int,
    i: int,
    level: int,
    z: int,
) -> Rgba {
    match cover(map, cam, cfg, w, h, i, level, z) {
        Some(d) => shade(tex, cam, cfg, w, d, i),
        None => sky(),
    }
}

/// The colours of the whole view once the depths `[1, z)` are drawn, by
/// column and row from the top.
pub open spec fn rendered(
    map: &HeightMap,
    tex: &Texture,
    cam: Camera,
    cfg: RendererConfig,
    w: int,
    h: int,
    z: int,
) -> spec_fn(int, int) -> Rgba {
    |c: int, y: int| frame_color(map, tex, cam, cfg, w, h, c, h - 1 - y, z)
}

/// The view while depth `z` is drawn: columns before `i` show depth `z` too.
spec fn staged(
    map: &HeightMap,
    tex: &Texture,
    cam: Camera,
    cfg: RendererConfig,
    w: int,
    h: int,
    z: int,
    i: int,
) -> spec_fn(int, int) -> Rgba {
    |c: int, y: int|
        frame_color(
            map,
            tex,
            cam,
            cfg,
            w,
            h,
            c,
            h - 1 - y,
            if c < i {
                z + 1
            } else {
                z
            },
        )
}

/// A pixel is covered by some depth before `z` exactly when the running
/// maximum height of its column rises above it.
proof fn lemma_cover_running_max(
    map: &HeightMap,
    cam: Camera,
    cfg: RendererConfig,
    w: int,
    h: int,
    i: int,
    level: int,
    z: int,
)
    requires
        0 <= level,
    ensures
        cover(map, cam, cfg, w, h, i, level, z) is Some <==> running_max(
            map,
            cam,
            cfg,
            w,
            h,
            i,
            z,
        ) > level,
        running_max(map, cam, cfg, w, h, i, z) >= 0,
    decreases z,
{
    if z > 1 {
        lemma_cover_running_max(map, cam, cfg, w, h, i, level, z - 1);
    }
}

/// Painting over a painting: the pixels of the second win.
proof fn lemma_paint_over(
    base: Seq<u8>,
    w: int,
    h: int,
    pitch: int,
    done1: spec_fn(int, int) -> bool,
    color1: spec_fn(int, int) -> Rgba,
    i: int,
    done2: spec_fn(int, int) -> bool,
    color2: spec_fn(int, int) -> Rgba,
)
    requires
        0 < pitch,
        0 <= i < w,
        forall|c: int, y: int| #[trigger] done2(c, y) ==> c == i,
    ensures
        paint(paint(base, w, h, pitch, done1, color1), i + 1, h, pitch, done2, color2) == paint(
            base,
            w,
            h,
            pitch,
            |c: int, y: int| done1(c, y) || done2(c, y),
            |c: int, y: int|
                if done2(c, y) {
                    color2(c, y)
                } else {
                    color1(c, y)
                },
        ),
{
    let s1 = paint(paint(base, w, h, pitch, done1, color1), i + 1, h, pitch, done2, color2);
    let s2 = paint(
        base,
        w,
        h,
        pitch,
        |c: int, y: int| done1(c, y) || done2(c, y),
        |c: int, y: int|
            if done2(c, y) {
                color2(c, y)
            } else {
                color1(c, y)
            },
    );
    assert forall|k: int| 0 <= k < s1.len() implies s1[k] == s2[k] by {
        vstd::arithmetic::div_mod::lemma_div_pos_is_pos(k, pitch);
        vstd::arithmetic::div_mod::lemma_mod_pos_bound(k, pitch);
        vstd::arithmetic::div_mod::lemma_div_pos_is_pos(k % pitch, 4);
    }
    assert(s1 =~= s2);
}


/// A painting of no pixel leaves the bytes as they are.
proof fn lemma_paint_nothing(
    base: Seq<u8>,
    w: int,
    h: int,
    pitch: int,
    done: spec_fn(int, int) -> bool,
    color: spec_fn(int, int) -> Rgba,
)
    requires
        forall|c: int, y: int| 0 <= c < w && 0 <= y < h ==> !#[trigger] done(c, y),
    ensures
        paint(base, w, h, pitch, done, color) == base,
{
    assert(paint(base, w, h, pitch, done, color) =~= base);
}

/// The sky colour.
fn sky_color() -> (r: Rgba)
    ensures
        r == sky(),
{
    Rgba { r: 80, g: 120, b: 250, a: 0 }
}

/// Writes `value` to pixel `(i, j)` (column, row from the top) of a buffer
/// whose rows are `pitch` bytes apart.
fn set_color(image: &mut [u8], i: usize, j: usize, pitch: usize, value: Rgba)
    requires
        j * pitch + 4 * i + 2 < old(image)@.len(),
    ensures
        final(image)@ == old(image)@.update(j * pitch + 4 * i, value.b).update(
            j * pitch + 4 * i + 1,
            value.g,
        ).update(j * pitch + 4 * i + 2, value.r),
{
    let n = image.len();
    let pixel_offset = i * 4 + j * pitch;
    image[pixel_offset] = value.b;
    image[pixel_offset + 1] = value.g;
    image[pixel_offset + 2] = value.r;
}

/// Paints the pixels of column `i` from `jmin` up to, not including, `jmax`
/// pixels above the bottom of an `image_h` pixels high view.
fn draw_line(
    image: &mut [u8],
    i: usize,
    jmin: usize,
    jmax: usize,
    image_h: usize,
    pitch: usize,
    value: Rgba,
)
    requires
        4 * i + 4 <= pitch,
        jmax <= image_h,
        pitch * image_h <= old(image)@.len(),
    ensures
        final(image)@ == paint(
            old(image)@,
            i + 1,
            image_h as int,
            pitch as int,
            column_span(i as int, jmin as int, jmax as int, image_h as int),
            solid(value),
        ),
{
    let ghost base = image@;
    let ghost w = i + 1;
    proof {
        lemma_paint_nothing(
            base,
            w,
            image_h as int,
            pitch as int,
            column_span(i as int, jmin as int, jmin as int, image_h as int),
            solid(value),
        );
    }
    let mut height = jmin;
    while height < jmax
        invariant
            jmin <= height,
            height <= jmax || height == jmin,
            4 * i + 4 <= pitch,
            jmax <= image_h,
            pitch * image_h <= base.len(),
            w == i + 1,
            image@ == paint(
                base,
                w,
                image_h as int,
                pitch as int,
                column_span(i as int, jmin as int, height as int, image_h as int),
                solid(value),
            ),
        decreases jmax - height,
    {
        let row = image_h - height - 1;
        proof {
            assert(row * pitch + pitch <= image_h * pitch) by (nonlinear_arith)
                requires
                    row < image_h,
            ;
            assert(image_h * pitch == pitch * image_h) by (nonlinear_arith);
            lemma_paint_pixel(
                base,
                w,
                image_h as int,
                pitch as int,
                column_span(i as int, jmin as int, height as int, image_h as int),
                solid(value),
                column_span(i as int, jmin as int, height + 1, image_h as int),
                solid(value),
                i as int,
                row as int,
                value,
            );
        }
        set_color(image, i, row, pitch, value);
        height = height + 1;
    }
    proof {
        if height != jmax {
            lemma_paint_same(
                base,
                w,
                image_h as int,
                pitch as int,
                column_span(i as int, jmin as int, height as int, image_h as int),
                solid(value),
                column_span(i as int, jmin as int, jmax as int, image_h as int),
                solid(value),
            );
        }
    }
}

/// The pixels before `(col, row)` in reading order.
spec fn filled(row: int, col: int) -> spec_fn(int, int) -> bool {
    |c: int, y: int| y < row || (y == row && c < col)
}

/// Paints the whole `width` x `height` view with the sky colour.
fn fill_sky(image: &mut [u8], width: usize, height: usize, pitch: usize)
    requires
        4 * width <= pitch,
        pitch * height <= old(image)@.len(),
    ensures
        final(image)@ == paint(
            old(image)@,
            width as int,
            height as int,
            pitch as int,
            all_pixels(),
            solid(sky()),
        ),
{
    let ghost base = image@;
    let color = sky_color();
    proof {
        lemma_paint_nothing(
            base,
            width as int,
            height as int,
            pitch as int,
            filled(0, 0),
            solid(color),
        );
    }
    let mut row: usize = 0;
    while row < height
        invariant
            row <= height,
            4 * width <= pitch,
            pitch * height <= base.len(),
            color == sky(),
            image@ == paint(
                base,
                width as int,
                height as int,
                pitch as int,
                filled(row as int, 0),
                solid(color),
            ),
        decreases height - row,
    {
        let mut col: usize = 0;
        while col < width
            invariant
                row < height,
                col <= width,
                4 * width <= pitch,
                pitch * height <= base.len(),
                image@ == paint(
                    base,
                    width as int,
                    height as int,
                    pitch as int,
                    filled(row as int, col as int),
                    solid(color),
                ),
            decreases width - col,
        {
            proof {
                assert(row * pitch + pitch <= height * pitch) by (nonlinear_arith)
                    requires
                        row < height,
                ;
                assert(height * pitch == pitch * height) by (nonlinear_arith);
                lemma_paint_pixel(
                    base,
                    width as int,
                    height as int,
                    pitch as int,
                    filled(row as int, col as int),
                    solid(color),
                    filled(row as int, col + 1),
                    solid(color),
                    col as int,
                    row as int,
                    color,
                );
            }
            set_color(image, col, row, pitch, color);
            col = col + 1;
        }
        proof {
            if width > 0 {
                lemma_paint_same(
                    base,
                    width as int,
                    height as int,
                    pitch as int,
                    filled(row as int, width as int),
                    solid(color),
                    filled(row + 1, 0),
                    solid(color),
                );
            } else {
                lemma_paint_nothing(
                    base,
                    width as int,
                    height as int,
                    pitch as int,
                    filled(row + 1, 0),
                    solid(color),
                );
                lemma_paint_nothing(
                    base,
                    width as int,
                    height as int,
                    pitch as int,
                    filled(row as int, width as int),
                    solid(color),
                );
            }
        }
        row = row + 1;
    }
    proof {
        if width > 0 {
            lemma_paint_same(
                base,
                width as int,
                height as int,
                pitch as int,
                filled(height as int, 0),
                solid(color),
                all_pixels(),
                solid(color),
            );
        } else {
            lemma_paint_nothing(
                base,
                width as int,
                height as int,
                pitch as int,
                filled(height as int, 0),
                solid(color),
            );
            lemma_paint_nothing(
                base,
                width as int,
                height as int,
                pitch as int,
                all_pixels(),
                solid(color),
            );
        }
    }
}


/// Drawing column `i` at depth `z` brings the column from depth `z` to depth
/// `z + 1`: when its terrain rises above the column's running maximum `m`,
/// the pixels from `m` up to the terrain take the depth's colour, and
/// otherwise nothing changes.
proof fn lemma_column_step(
    map: &HeightMap,
    tex: &Texture,
    cam: Camera,
    cfg: RendererConfig,
    w: int,
    h: int,
    z: int,
    i: int,
)
    requires
        1 <= z,
        0 <= i < w,
    ensures
        ({
            let m = running_max(map, cam, cfg, w, h, i, z);
            let p = projected_height(map, cam, cfg, w, h, z, i);
            let top = if p < h {
                p
            } else {
                h
            };
            &&& p > m ==> forall|c: int, y: int|
                0 <= c < w && 0 <= y < h ==> #[trigger] staged(map, tex, cam, cfg, w, h, z, i + 1)(
                    c,
                    y,
                ) == if column_span(i, m, top, h)(c, y) {
                    shade(tex, cam, cfg, w, z, i)
                } else {
                    staged(map, tex, cam, cfg, w, h, z, i)(c, y)
                }
            &&& p <= m ==> forall|c: int, y: int|
                0 <= c < w && 0 <= y < h ==> #[trigger] staged(map, tex, cam, cfg, w, h, z, i + 1)(
                    c,
                    y,
                ) == staged(map, tex, cam, cfg, w, h, z, i)(c, y)
            &&& running_max(map, cam, cfg, w, h, i, z + 1) == if p > m {
                p
            } else {
                m
            }
        }),
{
    let m = running_max(map, cam, cfg, w, h, i, z);
    let p = projected_height(map, cam, cfg, w, h, z, i);
    let top = if p < h {
        p
    } else {
        h
    };
    assert forall|c: int, y: int| 0 <= c < w && 0 <= y < h implies {
        &&& p > m ==> #[trigger] staged(map, tex, cam, cfg, w, h, z, i + 1)(c, y) == if column_span(
            i,
            m,
            top,
            h,
        )(c, y) {
            shade(tex, cam, cfg, w, z, i)
        } else {
            staged(map, tex, cam, cfg, w, h, z, i)(c, y)
        }
        &&& p <= m ==> staged(map, tex, cam, cfg, w, h, z, i + 1)(c, y) == staged(
            map,
            tex,
            cam,
            cfg,
            w,
            h,
            z,
            i,
        )(c, y)
    } by {
        if c == i {
            lemma_pixel_step(map, tex, cam, cfg, w, h, i, h - 1 - y, z);
        }
    }
}

/// One pixel of column `i`, `level` pixels above the bottom, from depth `z`
/// to depth `z + 1`.
proof fn lemma_pixel_step(
    map: &HeightMap,
    tex: &Texture,
    cam: Camera,
    cfg: RendererConfig,
    w: int,
    h: int,
    i: int,
    level: int,
    z: int,
)
    requires
        1 <= z,
        0 <= level,
    ensures
        ({
            let m = running_max(map, cam, cfg, w, h, i, z);
            let p = projected_height(map, cam, cfg, w, h, z, i);
            frame_color(map, tex, cam, cfg, w, h, i, level, z + 1) == if m <= level < p {
                shade(tex, cam, cfg, w, z, i)
            } else {
                frame_color(map, tex, cam, cfg, w, h, i, level, z)
            }
        }),
{
    lemma_cover_running_max(map, cam, cfg, w, h, i, level, z);
}

/// The scan line of depth `z`: left end and step per column.
fn scan_bounds(camera: &Camera, w: i32, z: i32) -> (r: (FixedInt10, FixedInt10, FixedInt10, FixedInt10))
    requires
        w > 0,
    ensures
        r == scan_line(*camera, w as int, z as int),
{
    let cz = camera.cos_angle * z;
    let sz = camera.sin_angle * z;
    let left_x = camera.x - cz - sz;
    let left_y = camera.y + sz - cz;
    let right_x = camera.x + cz - sz;
    let right_y = camera.y - sz - cz;
    (left_x, left_y, (right_x - left_x) / w, (right_y - left_y) / w)
}

/// The world point of column `i` on a scan line.
fn point_on(
    line: (FixedInt10, FixedInt10, FixedInt10, FixedInt10),
    i: usize,
    Ghost(cam): Ghost<Camera>,
    Ghost(w): Ghost<int>,
    Ghost(z): Ghost<int>,
) -> (r: (FixedInt10, FixedInt10))
    requires
        i <= i32::MAX,
        line == scan_line(cam, w, z),
    ensures
        r == ground_point(cam, w, z, i as int),
{
    let (lx, ly, sx, sy) = line;
    (lx + sx * (i as i32), ly + sy * (i as i32))
}

/// Projected height of column `i` at depth `z`, in pixels above the bottom.
fn column_height(
    map: &HeightMap,
    camera: &Camera,
    config: &RendererConfig,
    w: usize,
    h: usize,
    z: i32,
    line: (FixedInt10, FixedInt10, FixedInt10, FixedInt10),
    i: usize,
) -> (r: i32)
    requires
        0 < w <= i32::MAX,
        h <= i32::MAX,
        1 <= z,
        i < w,
        line == scan_line(*camera, w as int, z as int),
    ensures
        r == projected_height(map, *camera, *config, w as int, h as int, z as int, i as int),
{
    proof {
        reveal(projected_height);
    }
    let (px, py) = point_on(line, i, Ghost(*camera), Ghost(w as int), Ghost(z as int));
    let t = if config.enable_hm_filtering {
        map.get_interpolate(px, py)
    } else {
        map.get(px, py)
    };
    let horizon = FixedInt10::from(camera.horizon);
    let screen = (t - camera.z) * (h as i32) / z + horizon;
    let v: i32 = i32::from(screen);
    if v > 0 {
        v
    } else {
        0
    }
}

/// `t` faded toward `s`: weighted by `tw` and `sw`, which add up to one.
fn fade_channel(tw: FixedInt10, sw: FixedInt10, t: u8, s: u8) -> (r: u8)
    requires
        0 <= sw.value <= 1024,
        tw.value == 1024 - sw.value,
    ensures
        r == fade(t, s, sw.value as int),
{
    proof {
        assert(0 <= tw.value * t <= 1024 * 255) by (nonlinear_arith)
            requires
                0 <= tw.value <= 1024,
                0 <= t <= 255,
        ;
        assert(0 <= sw.value * s <= 1024 * 255) by (nonlinear_arith)
            requires
                0 <= sw.value <= 1024,
                0 <= s <= 255,
        ;
        assert(tw.value * t + sw.value * s <= 1024 * 255) by (nonlinear_arith)
            requires
                tw.value == 1024 - sw.value,
                0 <= sw.value <= 1024,
                0 <= t <= 255,
                0 <= s <= 255,
        ;
        lemma_wrap_i32(tw.value * t);
        lemma_wrap_i32(sw.value * s);
        lemma_wrap_i32(tw.value * t + sw.value * s);
    }
    u8::from(tw * t + sw * s)
}

/// The colour drawn for column `i` at depth `z`.
fn column_color(
    texture: &Texture,
    camera: &Camera,
    config: &RendererConfig,
    w: usize,
    z: i32,
    line: (FixedInt10, FixedInt10, FixedInt10, FixedInt10),
    i: usize,
) -> (r: Rgba)
    requires
        0 < w <= i32::MAX,
        1 <= z < config.distance_max,
        i < w,
        line == scan_line(*camera, w as int, z as int),
    ensures
        r == shade(texture, *camera, *config, w as int, z as int, i as int),
{
    proof {
        reveal(shade);
    }
    let (px, py) = point_on(line, i, Ghost(*camera), Ghost(w as int), Ghost(z as int));
    let c = if config.enable_hm_filtering {
        texture.get_interpolate(px, py)
    } else {
        texture.get(px, py)
    };
    if config.fog && z > config.fog_start {
        let num: i64 = ((z as i64) - (config.fog_start as i64)) * 1024;
        let den: i64 = (config.distance_max as i64) - (config.fog_start as i64);
        proof {
            vstd::arithmetic::div_mod::lemma_fundamental_div_mod(num as int, den as int);
            vstd::arithmetic::div_mod::lemma_div_pos_is_pos(num as int, den as int);
            assert(num / den < 1024) by (nonlinear_arith)
                requires
                    num == den * (num / den) + num % den,
                    0 <= num % den,
                    num < den * 1024,
                    den > 0,
            ;
        }
        let k = (num / den) as i32;
        let sky_weight = FixedInt10 { value: k };
        proof {
            vstd::arithmetic::power2::lemma2_to64();
            lemma_wrap_i32(1024);
            lemma_wrap_i32(1024 - k);
        }
        let texture_weight = FixedInt10::from(1i32) - sky_weight;
        let sky = sky_color();
        Rgba {
            r: fade_channel(texture_weight, sky_weight, c.r, sky.r),
            g: fade_channel(texture_weight, sky_weight, c.g, sky.g),
            b: fade_channel(texture_weight, sky_weight, c.b, sky.b),
            a: 0,
        }
    } else {
        c
    }
}

/// Draws one frame of the terrain seen from `camera` into `pixels`, a view
/// `width` x `height` pixels whose rows are `pitch` bytes apart, four bytes
/// a pixel in blue, green, red order. The view is first filled with the sky;
/// then, from depth 1 up to the configured maximum, each column's terrain is
/// drawn above what nearer depths already drew in that column.
pub fn draw(
    pixels: &mut [u8],
    width: usize,
    height: usize,
    pitch: usize,
    map: &HeightMap,
    texture: &Texture,
    camera: &Camera,
    config: &RendererConfig,
)
    requires
        width <= i32::MAX,
        height <= i32::MAX,
        4 * width <= pitch,
        pitch * height <= old(pixels)@.len(),
    ensures
        final(pixels)@ == paint(
            old(pixels)@,
            width as int,
            height as int,
            pitch as int,
            all_pixels(),
            rendered(
                map,
                texture,
                *camera,
                *config,
                width as int,
                height as int,
                config.distance_max as int,
            ),
        ),
{
    let ghost base = pixels@;
    let ghost cam = *camera;
    let ghost cfg = *config;
    let ghost wi = width as int;
    let ghost hi = height as int;
    let ghost pi = pitch as int;
    fill_sky(pixels, width, height, pitch);
    if width == 0 || height == 0 {
        proof {
            lemma_paint_nothing(base, wi, hi, pi, all_pixels(), solid(sky()));
            lemma_paint_nothing(
                base,
                wi,
                hi,
                pi,
                all_pixels(),
                rendered(map, texture, cam, cfg, wi, hi, cfg.distance_max as int),
            );
        }
        return ;
    }
    proof {
        lemma_paint_same(
            base,
            wi,
            hi,
            pi,
            all_pixels(),
            solid(sky()),
            all_pixels(),
            rendered(map, texture, cam, cfg, wi, hi, 1),
        );
    }
    let w = width as i32;
    let mut max_height: Vec<i32> = Vec::new();
    let mut c: usize = 0;
    while c < width
        invariant
            c <= width,
            max_height@.len() == c,
            forall|k: int| 0 <= k < c ==> max_height@[k] == 0,
        decreases width - c,
    {
        max_height.push(0);
        c = c + 1;
    }
    let mut z: i32 = 1;
    while z < config.distance_max
        invariant
            1 <= z,
            z <= cfg.distance_max || z == 1,
            cam == *camera,
            cfg == *config,
            wi == width,
            hi == height,
            pi == pitch,
            0 < width <= i32::MAX,
            0 < height <= i32::MAX,
            w == width,
            4 * width <= pitch,
            max_height@.len() == width,
            forall|k: int|
                0 <= k < width ==> #[trigger] max_height@[k] == running_max(
                    map,
                    cam,
                    cfg,
                    wi,
                    hi,
                    k,
                    z as int,
                ),
            pixels@ == paint(
                base,
                wi,
                hi,
                pi,
                all_pixels(),
                rendered(map, texture, cam, cfg, wi, hi, z as int),
            ),
            pitch * height <= base.len(),
        decreases cfg.distance_max - z,
    {
        let line = scan_bounds(camera, w, z);
        proof {
            lemma_paint_same(
                base,
                wi,
                hi,
                pi,
                all_pixels(),
                rendered(map, texture, cam, cfg, wi, hi, z as int),
                all_pixels(),
                staged(map, texture, cam, cfg, wi, hi, z as int, 0),
            );
        }
        let mut i: usize = 0;
        while i < width
            invariant
                1 <= z < cfg.distance_max,
                cam == *camera,
                cfg == *config,
                wi == width,
                hi == height,
                pi == pitch,
                0 < width <= i32::MAX,
                0 < height <= i32::MAX,
                4 * width <= pitch,
                pitch * height <= base.len(),
                line == scan_line(cam, wi, z as int),
                i <= width,
                max_height@.len() == width,
                forall|k: int|
                    0 <= k < width ==> #[trigger] max_height@[k] == running_max(
                        map,
                        cam,
                        cfg,
                        wi,
                        hi,
                        k,
                        if k < i {
                            z + 1
                        } else {
                            z as int
                        },
                    ),
                pixels@ == paint(
                    base,
                    wi,
                    hi,
                    pi,
                    all_pixels(),
                    staged(map, texture, cam, cfg, wi, hi, z as int, i as int),
                ),
            decreases width - i,
        {
            let p = column_height(map, camera, config, width, height, z, line, i);
            let m = max_height[i];
            proof {
                lemma_cover_running_max(map, cam, cfg, wi, hi, i as int, 0, z as int);
                lemma_column_step(map, texture, cam, cfg, wi, hi, z as int, i as int);
            }
            if p > m {
                let color = column_color(texture, camera, config, width, z, line, i);
                let top: i32 = if p < height as i32 {
                    p
                } else {
                    height as i32
                };
                draw_line(pixels, i, m as usize, top as usize, height, pitch, color);
                proof {
                    lemma_paint_over(
                        base,
                        wi,
                        hi,
                        pi,
                        all_pixels(),
                        staged(map, texture, cam, cfg, wi, hi, z as int, i as int),
                        i as int,
                        column_span(i as int, m as int, top as int, hi),
                        solid(color),
                    );
                    lemma_paint_same(
                        base,
                        wi,
                        hi,
                        pi,
                        |c: int, y: int|
                            all_pixels()(c, y) || column_span(i as int, m as int, top as int, hi)(
                                c,
                                y,
                            ),
                        |c: int, y: int|
                            if column_span(i as int, m as int, top as int, hi)(c, y) {
                                solid(color)(c, y)
                            } else {
                                staged(map, texture, cam, cfg, wi, hi, z as int, i as int)(c, y)
                            },
                        all_pixels(),
                        staged(map, texture, cam, cfg, wi, hi, z as int, i + 1),
                    );
                }
                max_height.set(i, p);
            } else {
                proof {
                    lemma_paint_same(
                        base,
                        wi,
                        hi,
                        pi,
                        all_pixels(),
                        staged(map, texture, cam, cfg, wi, hi, z as int, i as int),
                        all_pixels(),
                        staged(map, texture, cam, cfg, wi, hi, z as int, i + 1),
                    );
                }
            }
            i = i + 1;
        }
        proof {
            lemma_paint_same(
                base,
                wi,
                hi,
                pi,
                all_pixels(),
                staged(map, texture, cam, cfg, wi, hi, z as int, wi),
                all_pixels(),
                rendered(map, texture, cam, cfg, wi, hi, z + 1),
            );
        }
        z = z + 1;
    }
    proof {
        if z != cfg.distance_max {
            lemma_paint_same(
                base,
                wi,
                hi,
                pi,
                all_pixels(),
                rendered(map, texture, cam, cfg, wi, hi, z as int),
                all_pixels(),
                rendered(map, texture, cam, cfg, wi, hi, cfg.distance_max as int),
            );
        }
    }
}


/// The highest terrain recorded for a column never goes down as the depth
/// grows.
pub proof fn lemma_running_max_monotone(
    map: &HeightMap,
    cam: Camera,
    cfg: RendererConfig,
    w: int,
    h: int,
    i: int,
    z1: int,
    z2: int,
)
    requires
        z1 <= z2,
    ensures
        running_max(map, cam, cfg, w, h, i, z1) <= running_max(map, cam, cfg, w, h, i, z2),
    decreases z2 - z1,
{
    if z1 < z2 {
        lemma_running_max_monotone(map, cam, cfg, w, h, i, z1, z2 - 1);
    }
}

/// Without fog a drawn pixel has exactly the colour sampled from the texture.
pub proof fn lemma_no_fog_keeps_texture(
    tex: &Texture,
    cam: Camera,
    cfg: RendererConfig,
    w: int,
    z: int,
    i: int,
)
    requires
        !cfg.fog,
    ensures
        shade(tex, cam, cfg, w, z, i) == terrain_color(tex, cam, cfg, w, z, i),
{
    reveal(shade);
}

} // verus!
