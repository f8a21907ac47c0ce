use crate::fixed_int::{lemma_wrap_i32, FixedInt10};
use vstd::arithmetic::div_mod::{lemma_div_multiples_vanish, lemma_fundamental_div_mod_converse};
use vstd::prelude::*;
use vstd::std_specs::ops::AddSpec;

verus! {

/// Side of the square images that the renderer loads from disk.
pub const MAP_SIZE: usize = 1024;

/// Largest side of a grid.
pub const MAX_GRID_SIZE: usize = 0x8000;

/// A colour with 8-bit red, green, blue and alpha channels.
#[derive(Copy, Clone, Debug, PartialEq, Eq, Structural)]
pub struct Rgba {
    pub r: u8,
    pub g: u8,
    pub b: u8,
    pub a: u8,
}

/// The grid cell that a coordinate falls in: the coordinate rounded down.
pub open spec fn cell(x: FixedInt10) -> int {
    x.value / 1024
}

/// Position in a row-major square grid of side `size` of the cell `(i, j)`,
/// each coordinate wrapped into `[0, size)`.
pub open spec fn grid_index(size: int, i: int, j: int) -> int {
    i % size + size * (j % size)
}

/// One corner's share of a bilinear blend: sample `h` weighted by `wx * wy`,
/// weights in units of 1/1024, result in units of 1/1024 rounded down.
pub open spec fn blend_term(h: int, wx: int, wy: int) -> int {
    (h * wx * wy) / 1024
}

/// Bilinear blend of four corner samples `f00` (at the cell), `f10` (next
/// column), `f01` (next row) and `f11`, with fractional offsets `fx`, `fy`
/// in units of 1/1024. The result is in units of 1/1024.
pub open spec fn bilinear(f00: int, f10: int, f01: int, f11: int, fx: int, fy: int) -> int {
    blend_term(f00, 1024 - fx, 1024 - fy) + blend_term(f10, fx, 1024 - fy) + blend_term(
        f01,
        1024 - fx,
        fy,
    ) + blend_term(f11, fx, fy)
}

/// The cell of `x` wrapped into `[0, size)`.
fn wrap_coordinate(x: FixedInt10, size: usize) -> (r: usize)
    requires
        0 < size <= MAX_GRID_SIZE,
    ensures
        r as int == cell(x) % (size as int),
        r < size,
{
    let c: i32 = i32::from(x);
    assert(-0x20_0000 <= c < 0x20_0000);
    let shifted: u64 = ((c as i64) + 0x20_0000i64 * (size as i64)) as u64;
    proof {
        vstd::arithmetic::div_mod::lemma_mod_multiples_vanish(0x20_0000, c as int, size as int);
        assert(shifted as int == size as int * 0x20_0000 + c as int);
    }
    (shifted % (size as u64)) as usize
}

/// The index after `i` in a grid of side `size`, wrapping to zero.
fn next_wrapped(i: usize, size: usize, Ghost(c): Ghost<int>) -> (r: usize)
    requires
        0 < size <= MAX_GRID_SIZE,
        i as int == c % (size as int),
    ensures
        r as int == (c + 1) % (size as int),
        r < size,
{
    proof {
        vstd::arithmetic::div_mod::lemma_fundamental_div_mod(c, size as int);
        let q = c / (size as int);
        assert(c + 1 == q * size + i + 1 && c + 1 == (q + 1) * size + (i + 1 - size))
            by (nonlinear_arith)
            requires
                c == size * q + i,
        ;
        if i + 1 == size {
            lemma_fundamental_div_mod_converse(c + 1, size as int, q + 1, 0);
        } else {
            lemma_fundamental_div_mod_converse(c + 1, size as int, q, i + 1);
        }
    }
    if i + 1 == size {
        0
    } else {
        i + 1
    }
}

/// Position of `(x, y)` in a row-major grid of side `size`.
fn flat_index(x: usize, y: usize, size: usize) -> (r: usize)
    requires
        0 < size <= MAX_GRID_SIZE,
        x < size,
        y < size,
    ensures
        r == x + size * y,
        r < size * size,
{
    assert(x + size * y < size * size) by (nonlinear_arith)
        requires
            x < size,
            y < size,
    ;
    assert(size * size <= MAX_GRID_SIZE * MAX_GRID_SIZE) by (nonlinear_arith)
        requires
            size <= MAX_GRID_SIZE,
    ;
    x + size * y
}

/// `f * wx * wy` in fixed point, for a sample `f` that is a whole number in
/// `[0, 255]` and weights in `[0, 1]`.
fn weighted(f: FixedInt10, wx: FixedInt10, wy: FixedInt10) -> (r: FixedInt10)
    requires
        0 <= f.value <= 255 * 1024,
        f.value % 1024 == 0,
        0 <= wx.value <= 1024,
        0 <= wy.value <= 1024,
    ensures
        r.value == blend_term(f.value / 1024, wx.value as int, wy.value as int),
{
    let h: Ghost<int> = Ghost(f.value / 1024);
    proof {
        vstd::arithmetic::div_mod::lemma_fundamental_div_mod(f.value as int, 1024);
        assert(f.value == 1024 * h@);
        assert(0 <= f.value * wx.value <= 255 * 1024 * 1024) by (nonlinear_arith)
            requires
                0 <= f.value <= 255 * 1024,
                0 <= wx.value <= 1024,
        ;
        lemma_wrap_i32(f.value * wx.value);
        assert(f.value * wx.value == 1024 * (h@ * wx.value)) by (nonlinear_arith)
            requires
                f.value == 1024 * h@,
        ;
        lemma_div_multiples_vanish(h@ * wx.value, 1024);
    }
    let p = f * wx;
    assert(p.value == h@ * wx.value);
    proof {
        assert(0 <= p.value * wy.value <= 255 * 1024 * 1024) by (nonlinear_arith)
            requires
                p.value == h@ * wx.value,
                0 <= h@ <= 255,
                0 <= wx.value <= 1024,
                0 <= wy.value <= 1024,
        ;
        lemma_wrap_i32(p.value * wy.value);
        assert(p.value * wy.value == h@ * wx.value * wy.value) by (nonlinear_arith)
            requires
                p.value == h@ * wx.value,
        ;
    }
    p * wy
}

/// A blend's terms stay within the range of one 8-bit sample.
proof fn lemma_bilinear_bounds(f00: int, f10: int, f01: int, f11: int, fx: int, fy: int)
    requires
        0 <= f00 <= 255,
        0 <= f10 <= 255,
        0 <= f01 <= 255,
        0 <= f11 <= 255,
        0 <= fx < 1024,
        0 <= fy < 1024,
    ensures
        0 <= blend_term(f00, 1024 - fx, 1024 - fy),
        0 <= blend_term(f10, fx, 1024 - fy),
        0 <= blend_term(f01, 1024 - fx, fy),
        0 <= blend_term(f11, fx, fy),
        bilinear(f00, f10, f01, f11, fx, fy) <= 255 * 1024,
{
    let a = f00 * (1024 - fx) * (1024 - fy);
    let b = f10 * fx * (1024 - fy);
    let c = f01 * (1024 - fx) * fy;
    let d = f11 * fx * fy;
    assert(0 <= a && 0 <= b && 0 <= c && 0 <= d && a + b + c + d <= 255 * 1024 * 1024)
        by (nonlinear_arith)
        requires
            a == f00 * (1024 - fx) * (1024 - fy),
            b == f10 * fx * (1024 - fy),
            c == f01 * (1024 - fx) * fy,
            d == f11 * fx * fy,
            0 <= f00 <= 255,
            0 <= f10 <= 255,
            0 <= f01 <= 255,
            0 <= f11 <= 255,
            0 <= fx < 1024,
            0 <= fy < 1024,
    ;
    vstd::arithmetic::div_mod::lemma_fundamental_div_mod(a, 1024);
    vstd::arithmetic::div_mod::lemma_fundamental_div_mod(b, 1024);
    vstd::arithmetic::div_mod::lemma_fundamental_div_mod(c, 1024);
    vstd::arithmetic::div_mod::lemma_fundamental_div_mod(d, 1024);
}

/// Blends four whole-number samples in `[0, 255]` with fractional offsets
/// `fx`, `fy` and their complements `cx`, `cy`.
fn blend(
    f00: FixedInt10,
    f10: FixedInt10,
    f01: FixedInt10,
    f11: FixedInt10,
    fx: FixedInt10,
    cx: FixedInt10,
    fy: FixedInt10,
    cy: FixedInt10,
) -> (r: FixedInt10)
    requires
        0 <= f00.value <= 255 * 1024 && f00.value % 1024 == 0,
        0 <= f10.value <= 255 * 1024 && f10.value % 1024 == 0,
        0 <= f01.value <= 255 * 1024 && f01.value % 1024 == 0,
        0 <= f11.value <= 255 * 1024 && f11.value % 1024 == 0,
        0 <= fx.value < 1024 && cx.value == 1024 - fx.value,
        0 <= fy.value < 1024 && cy.value == 1024 - fy.value,
    ensures
        r.value == bilinear(
            f00.value / 1024,
            f10.value / 1024,
            f01.value / 1024,
            f11.value / 1024,
            fx.value as int,
            fy.value as int,
        ),
        0 <= r.value <= 255 * 1024,
{
    let t00 = weighted(f00, cx, cy);
    let t10 = weighted(f10, fx, cy);
    let t01 = weighted(f01, cx, fy);
    let t11 = weighted(f11, fx, fy);
    proof {
        lemma_bilinear_bounds(
            f00.value / 1024,
            f10.value / 1024,
            f01.value / 1024,
            f11.value / 1024,
            fx.value as int,
            fy.value as int,
        );
        lemma_wrap_i32(t00.value + t10.value);
        lemma_wrap_i32(t00.value + t10.value + t01.value);
        lemma_wrap_i32(t00.value + t10.value + t01.value + t11.value);
    }
    t00 + t10 + t01 + t11
}

/// A byte scaled to a fixed-point whole number divides back exactly.
proof fn lemma_whole(h: u8)
    ensures
        (h * 1024) % 1024 == 0,
        (h * 1024) / 1024 == h,
        ((h * 1024) as i32) == h * 1024,
{
    vstd::arithmetic::div_mod::lemma_mod_multiples_basic(h as int, 1024);
    lemma_div_multiples_vanish(h as int, 1024);
    assert(1024 * h == h * 1024);
}

/// The fractional part of `x` and its complement `1 - fract(x)`.
fn weights(x: FixedInt10) -> (r: (FixedInt10, FixedInt10))
    ensures
        r.0.value == x.value % 1024,
        0 <= r.0.value < 1024,
        r.1.value == 1024 - r.0.value,
{
    let f = x.fract();
    proof {
        vstd::arithmetic::power2::lemma2_to64();
        lemma_wrap_i32(1024);
        lemma_wrap_i32(1024 - f.value);
    }
    let one = FixedInt10::from(1i32);
    (f, one - f)
}

/// Why an image could not become a height map or a texture.
#[derive(Debug)]
pub enum LoadError {
    /// The bytes are not a PNG image that could be decoded.
    Decode(lodepng::Error),
    /// The image decoded to another pixel format than the one asked for.
    Format,
    /// The image is not `MAP_SIZE` pixels wide and high.
    Size { width: usize, height: usize },
}

#[verifier::external_type_specification]
#[verifier::external_body]
pub struct ExPngError(lodepng::Error);

/// Whether an image of `width` x `height` with `len` pixels fills a map.
pub open spec fn fits_map(width: usize, height: usize, len: nat) -> bool {
    width == MAP_SIZE && height == MAP_SIZE && len == MAP_SIZE * MAP_SIZE
}

/// Width, height and grey levels of the image that a PNG file decodes to,
/// when it decodes to 8-bit greyscale.
pub uninterp spec fn grey_png(png: Seq<u8>) -> Option<(usize, usize, Seq<u8>)>;

/// Width, height and colours of the image that a PNG file decodes to, when
/// it decodes to 8-bit RGBA.
pub uninterp spec fn rgba_png(png: Seq<u8>) -> Option<(usize, usize, Seq<Rgba>)>;

/// Relies on `lodepng::decode_memory` asked for 8-bit greyscale: the image
/// depends on the bytes alone.
#[verifier::external_body]
fn decode_grey(png: &[u8]) -> (r: Result<(usize, usize, Vec<u8>), LoadError>)
    ensures
        r matches Ok(img) ==> grey_png(png@) == Some((img.0, img.1, img.2@)),
        r matches Err(e) ==> grey_png(png@) is None && !(e is Size),
{
    match lodepng::decode_memory(png, lodepng::ColorType::GREY, 8) {
        Ok(lodepng::Image::Grey(im)) => {
            Ok((im.width, im.height, im.buffer.into_iter().map(|g| g.value()).collect()))
        },
        Ok(_) => Err(LoadError::Format),
        Err(e) => Err(LoadError::Decode(e)),
    }
}

/// Relies on `lodepng::decode32`: the 8-bit RGBA image depends on the bytes
/// alone.
#[verifier::external_body]
fn decode_rgba(png: &[u8]) -> (r: Result<(usize, usize, Vec<Rgba>), LoadError>)
    ensures
        r matches Ok(img) ==> rgba_png(png@) == Some((img.0, img.1, img.2@)),
        r matches Err(e) ==> rgba_png(png@) is None && !(e is Size),
{
    match lodepng::decode32(png) {
        Ok(im) => Ok(
            (
                im.width,
                im.height,
                im.buffer.into_iter().map(|p| Rgba { r: p.r, g: p.g, b: p.b, a: p.a }).collect(),
            ),
        ),
        Err(e) => Err(LoadError::Decode(e)),
    }
}

/// A square grid of 8-bit heights that tiles the plane.
pub struct HeightMap {
    size: usize,
    data: Vec<u8>,
}

impl HeightMap {
    #[verifier::type_invariant]
    spec fn well_formed(self) -> bool {
        0 < self.size <= MAX_GRID_SIZE && self.data@.len() == self.size * self.size
    }

    /// Side of the grid.
    pub closed spec fn spec_size(&self) -> int {
        self.size as int
    }

    /// The heights, row after row.
    pub closed spec fn samples(&self) -> Seq<u8> {
        self.data@
    }

    /// The height at cell `(i, j)` of the tiled plane.
    pub open spec fn sample(&self, i: int, j: int) -> u8 {
        self.samples()[grid_index(self.spec_size(), i, j)]
    }

    /// Height under the point `(x, y)`, without interpolation.
    pub open spec fn spec_get(&self, x: FixedInt10, y: FixedInt10) -> FixedInt10 {
        FixedInt10 { value: (self.sample(cell(x), cell(y)) * 1024) as i32 }
    }

    /// Height under the point `(x, y)`, blended from the four surrounding cells.
    pub open spec fn spec_get_interpolate(&self, x: FixedInt10, y: FixedInt10) -> FixedInt10 {
        let i = cell(x);
        let j = cell(y);
        FixedInt10 {
            value: bilinear(
                self.sample(i, j) as int,
                self.sample(i + 1, j) as int,
                self.sample(i, j + 1) as int,
                self.sample(i + 1, j + 1) as int,
                x.value as int % 1024,
                y.value as int % 1024,
            ) as i32,
        }
    }

    /// A grid of side `size` holding `data` row after row.
    pub fn from(size: usize, data: Vec<u8>) -> (r: HeightMap)
        requires
            0 < size <= MAX_GRID_SIZE,
            data@.len() == size * size,
        ensures
            r.spec_size() == size,
            r.samples() == data@,
    {
        HeightMap { size, data }
    }

    /// A `MAP_SIZE` x `MAP_SIZE` grid from a decoded greyscale image.
    pub fn from_image(width: usize, height: usize, pixels: Vec<u8>) -> (r: Result<
        HeightMap,
        LoadError,
    >)
        ensures
            r is Ok <==> fits_map(width, height, pixels@.len()),
            r matches Ok(m) ==> m.spec_size() == MAP_SIZE && m.samples() == pixels@,
            r matches Err(e) ==> e == (LoadError::Size { width, height }),
    {
        if width == MAP_SIZE && height == MAP_SIZE && pixels.len() == width * height {
            Ok(HeightMap { size: MAP_SIZE, data: pixels })
        } else {
            Err(LoadError::Size { width, height })
        }
    }

    /// Decodes a PNG file's bytes as an 8-bit greyscale height map of side
    /// `MAP_SIZE`.
    pub fn from_png(png: &[u8]) -> (r: Result<HeightMap, LoadError>)
        ensures
            r is Ok <==> (grey_png(png@) matches Some(img) && fits_map(img.0, img.1, img.2.len())),
            r matches Ok(m) ==> grey_png(png@) matches Some(img) && m.samples() == img.2
                && m.spec_size() == MAP_SIZE,
            (grey_png(png@) is Some && !fits_map(
                grey_png(png@).unwrap().0,
                grey_png(png@).unwrap().1,
                grey_png(png@).unwrap().2.len(),
            )) ==> r == Err::<HeightMap, LoadError>(
                (LoadError::Size { width: grey_png(png@).unwrap().0, height: grey_png(png@).unwrap().1 }),
            ),
            grey_png(png@) is None ==> (r matches Err(e) && !(e is Size)),
    {
        match decode_grey(png) {
            Ok((w, h, pixels)) => HeightMap::from_image(w, h, pixels),
            Err(e) => Err(e),
        }
    }

    /// Side of the grid.
    pub fn width(&self) -> (r: usize)
        ensures
            r == self.spec_size(),
            0 < r <= MAX_GRID_SIZE,
            self.samples().len() == r * r,
    {
        proof {
            use_type_invariant(self);
        }
        self.size
    }

    /// Nearest-neighbour height at `(i, j)`.
    pub fn get(&self, i: FixedInt10, j: FixedInt10) -> (r: FixedInt10)
        ensures
            r == self.spec_get(i, j),
    {
        proof {
            use_type_invariant(self);
        }
        let x = wrap_coordinate(i, self.size);
        let y = wrap_coordinate(j, self.size);
        FixedInt10::from(self.data[flat_index(x, y, self.size)])
    }

    /// Bilinearly interpolated height at `(i, j)`.
    pub fn get_interpolate(&self, i: FixedInt10, j: FixedInt10) -> (r: FixedInt10)
        ensures
            r == self.spec_get_interpolate(i, j),
    {
        proof {
            use_type_invariant(self);
        }
        let size = self.size;
        let i0 = wrap_coordinate(i, size);
        let i1 = next_wrapped(i0, size, Ghost(cell(i)));
        let (fi, ci) = weights(i);
        let j0 = wrap_coordinate(j, size);
        let j1 = next_wrapped(j0, size, Ghost(cell(j)));
        let (fj, cj) = weights(j);
        let h00 = self.data[flat_index(i0, j0, size)];
        let h10 = self.data[flat_index(i1, j0, size)];
        let h01 = self.data[flat_index(i0, j1, size)];
        let h11 = self.data[flat_index(i1, j1, size)];
        proof {
            lemma_whole(h00);
            lemma_whole(h10);
            lemma_whole(h01);
            lemma_whole(h11);
        }
        blend(
            FixedInt10::from(h00),
            FixedInt10::from(h10),
            FixedInt10::from(h01),
            FixedInt10::from(h11),
            fi,
            ci,
            fj,
            cj,
        )
    }
}

/// One channel of a bilinear colour blend, back to 8 bits.
pub open spec fn blend_channel(c00: u8, c10: u8, c01: u8, c11: u8, fx: int, fy: int) -> u8 {
    (bilinear(c00 as int, c10 as int, c01 as int, c11 as int, fx, fy) / 1024) as u8
}

/// Blends one 8-bit channel of four corner colours.
fn blend_bytes(
    c00: u8,
    c10: u8,
    c01: u8,
    c11: u8,
    fx: FixedInt10,
    cx: FixedInt10,
    fy: FixedInt10,
    cy: FixedInt10,
) -> (r: u8)
    requires
        0 <= fx.value < 1024 && cx.value == 1024 - fx.value,
        0 <= fy.value < 1024 && cy.value == 1024 - fy.value,
    ensures
        r == blend_channel(c00, c10, c01, c11, fx.value as int, fy.value as int),
{
    proof {
        lemma_whole(c00);
        lemma_whole(c10);
        lemma_whole(c01);
        lemma_whole(c11);
    }
    let v = blend(
        FixedInt10::from(c00),
        FixedInt10::from(c10),
        FixedInt10::from(c01),
        FixedInt10::from(c11),
        fx,
        cx,
        fy,
        cy,
    );
    u8::from(v)
}

/// A square grid of colours that tiles the plane.
pub struct Texture {
    size: usize,
    data: Vec<Rgba>,
}

impl Texture {
    #[verifier::type_invariant]
    spec fn well_formed(self) -> bool {
        0 < self.size <= MAX_GRID_SIZE && self.data@.len() == self.size * self.size
    }

    /// Side of the grid.
    pub closed spec fn spec_size(&self) -> int {
        self.size as int
    }

    /// The colours, row after row.
    pub closed spec fn samples(&self) -> Seq<Rgba> {
        self.data@
    }

    /// The colour at cell `(i, j)` of the tiled plane.
    pub open spec fn sample(&self, i: int, j: int) -> Rgba {
        self.samples()[grid_index(self.spec_size(), i, j)]
    }

    /// Colour under the point `(x, y)`, without interpolation.
    pub open spec fn spec_get(&self, x: FixedInt10, y: FixedInt10) -> Rgba {
        self.sample(cell(x), cell(y))
    }

    /// Colour under the point `(x, y)`: red, green and blue blended from the
    /// four surrounding cells, alpha from the cell itself.
    pub open spec fn spec_get_interpolate(&self, x: FixedInt10, y: FixedInt10) -> Rgba {
        let i = cell(x);
        let j = cell(y);
        let c00 = self.sample(i, j);
        let c10 = self.sample(i + 1, j);
        let c01 = self.sample(i, j + 1);
        let c11 = self.sample(i + 1, j + 1);
        let fx = x.value as int % 1024;
        let fy = y.value as int % 1024;
        Rgba {
            r: blend_channel(c00.r, c10.r, c01.r, c11.r, fx, fy),
            g: blend_channel(c00.g, c10.g, c01.g, c11.g, fx, fy),
            b: blend_channel(c00.b, c10.b, c01.b, c11.b, fx, fy),
            a: c00.a,
        }
    }

    /// A grid of side `size` holding `data` row after row.
    pub fn from(size: usize, data: Vec<Rgba>) -> (r: Texture)
        requires
            0 < size <= MAX_GRID_SIZE,
            data@.len() == size * size,
        ensures
            r.spec_size() == size,
            r.samples() == data@,
    {
        Texture { size, data }
    }

    /// A `MAP_SIZE` x `MAP_SIZE` texture from a decoded RGBA image.
    pub fn from_image(width: usize, height: usize, pixels: Vec<Rgba>) -> (r: Result<
        Texture,
        LoadError,
    >)
        ensures
            r is Ok <==> fits_map(width, height, pixels@.len()),
            r matches Ok(t) ==> t.spec_size() == MAP_SIZE && t.samples() == pixels@,
            r matches Err(e) ==> e == (LoadError::Size { width, height }),
    {
        if width == MAP_SIZE && height == MAP_SIZE && pixels.len() == width * height {
            Ok(Texture { size: MAP_SIZE, data: pixels })
        } else {
            Err(LoadError::Size { width, height })
        }
    }

    /// Decodes a PNG file's bytes as an RGBA texture of side `MAP_SIZE`.
    pub fn from_png(png: &[u8]) -> (r: Result<Texture, LoadError>)
        ensures
            r is Ok <==> (rgba_png(png@) matches Some(img) && fits_map(img.0, img.1, img.2.len())),
            r matches Ok(t) ==> rgba_png(png@) matches Some(img) && t.samples() == img.2
                && t.spec_size() == MAP_SIZE,
            (rgba_png(png@) is Some && !fits_map(
                rgba_png(png@).unwrap().0,
                rgba_png(png@).unwrap().1,
                rgba_png(png@).unwrap().2.len(),
            )) ==> r == Err::<Texture, LoadError>(
                (LoadError::Size { width: rgba_png(png@).unwrap().0, height: rgba_png(png@).unwrap().1 }),
            ),
            rgba_png(png@) is None ==> (r matches Err(e) && !(e is Size)),
    {
        match decode_rgba(png) {
            Ok((w, h, pixels)) => Texture::from_image(w, h, pixels),
            Err(e) => Err(e),
        }
    }

    /// Side of the grid.
    pub fn width(&self) -> (r: usize)
        ensures
            r == self.spec_size(),
            0 < r <= MAX_GRID_SIZE,
            self.samples().len() == r * r,
    {
        proof {
            use_type_invariant(self);
        }
        self.size
    }

    /// Nearest-neighbour colour at `(i, j)`.
    pub fn get(&self, i: FixedInt10, j: FixedInt10) -> (r: Rgba)
        ensures
            r == self.spec_get(i, j),
    {
        proof {
            use_type_invariant(self);
        }
        let x = wrap_coordinate(i, self.size);
        let y = wrap_coordinate(j, self.size);
        self.data[flat_index(x, y, self.size)]
    }

    /// Bilinearly interpolated colour at `(i, j)`.
    pub fn get_interpolate(&self, i: FixedInt10, j: FixedInt10) -> (r: Rgba)
        ensures
            r == self.spec_get_interpolate(i, j),
    {
        proof {
            use_type_invariant(self);
        }
        let size = self.size;
        let i0 = wrap_coordinate(i, size);
        let i1 = next_wrapped(i0, size, Ghost(cell(i)));
        let (fi, ci) = weights(i);
        let j0 = wrap_coordinate(j, size);
        let j1 = next_wrapped(j0, size, Ghost(cell(j)));
        let (fj, cj) = weights(j);
        let c00 = self.data[flat_index(i0, j0, size)];
        let c10 = self.data[flat_index(i1, j0, size)];
        let c01 = self.data[flat_index(i0, j1, size)];
        let c11 = self.data[flat_index(i1, j1, size)];
        Rgba {
            r: blend_bytes(c00.r, c10.r, c01.r, c11.r, fi, ci, fj, cj),
            g: blend_bytes(c00.g, c10.g, c01.g, c11.g, fi, ci, fj, cj),
            b: blend_bytes(c00.b, c10.b, c01.b, c11.b, fi, ci, fj, cj),
            a: c00.a,
        }
    }
}


/// Moving a coordinate by `size` whole units moves its cell by `size`, which
/// wraps to the same grid column.
proof fn lemma_shift_by_size(x: FixedInt10, size: int)
    requires
        0 < size <= MAX_GRID_SIZE,
        i32::MIN <= x.value + size * 1024 <= i32::MAX,
    ensures
        x.add_spec(size as i32).value == x.value + size * 1024,
        cell(x.add_spec(size as i32)) % size == cell(x) % size,
{
    lemma_wrap_i32(size * 1024);
    lemma_wrap_i32(x.value + size * 1024);
    let q = cell(x);
    vstd::arithmetic::div_mod::lemma_fundamental_div_mod(x.value as int, 1024);
    let r = x.value as int % 1024;
    lemma_fundamental_div_mod_converse(x.value + size * 1024, 1024, q + size, r);
    vstd::arithmetic::div_mod::lemma_mod_multiples_vanish(1, q, size);
}

/// Nearest-neighbour sampling of a height map repeats every `size` units in
/// both directions.
pub proof fn lemma_height_periodic(map: &HeightMap, x: FixedInt10, y: FixedInt10)
    requires
        0 < map.spec_size() <= MAX_GRID_SIZE,
        i32::MIN <= x.value + map.spec_size() * 1024 <= i32::MAX,
        i32::MIN <= y.value + map.spec_size() * 1024 <= i32::MAX,
    ensures
        map.spec_get(x.add_spec(map.spec_size() as i32), y) == map.spec_get(x, y),
        map.spec_get(x, y.add_spec(map.spec_size() as i32)) == map.spec_get(x, y),
{
    lemma_shift_by_size(x, map.spec_size());
    lemma_shift_by_size(y, map.spec_size());
}

/// Nearest-neighbour sampling of a texture repeats every `size` units in
/// both directions.
pub proof fn lemma_texture_periodic(tex: &Texture, x: FixedInt10, y: FixedInt10)
    requires
        0 < tex.spec_size() <= MAX_GRID_SIZE,
        i32::MIN <= x.value + tex.spec_size() * 1024 <= i32::MAX,
        i32::MIN <= y.value + tex.spec_size() * 1024 <= i32::MAX,
    ensures
        tex.spec_get(x.add_spec(tex.spec_size() as i32), y) == tex.spec_get(x, y),
        tex.spec_get(x, y.add_spec(tex.spec_size() as i32)) == tex.spec_get(x, y),
{
    lemma_shift_by_size(x, tex.spec_size());
    lemma_shift_by_size(y, tex.spec_size());
}

/// At a whole-number point the bilinear blend is the sample at the cell.
proof fn lemma_bilinear_at_cell(f00: int, f10: int, f01: int, f11: int)
    ensures
        bilinear(f00, f10, f01, f11, 0, 0) == f00 * 1024,
{
    assert(f00 * 1024 * 1024 == 1024 * (f00 * 1024)) by (nonlinear_arith);
    lemma_div_multiples_vanish(f00 * 1024, 1024);
    assert(f10 * 0 * 1024 == 0 && f01 * 1024 * 0 == 0 && f11 * 0 * 0 == 0) by (nonlinear_arith);
}

/// At whole-number coordinates, interpolated and nearest-neighbour heights
/// agree.
pub proof fn lemma_height_interpolate_at_cell(map: &HeightMap, x: FixedInt10, y: FixedInt10)
    requires
        x.value % 1024 == 0,
        y.value % 1024 == 0,
    ensures
        map.spec_get_interpolate(x, y) == map.spec_get(x, y),
{
    let i = cell(x);
    let j = cell(y);
    lemma_bilinear_at_cell(
        map.sample(i, j) as int,
        map.sample(i + 1, j) as int,
        map.sample(i, j + 1) as int,
        map.sample(i + 1, j + 1) as int,
    );
}

/// At whole-number coordinates, interpolated and nearest-neighbour colours
/// agree.
pub proof fn lemma_texture_interpolate_at_cell(tex: &Texture, x: FixedInt10, y: FixedInt10)
    requires
        x.value % 1024 == 0,
        y.value % 1024 == 0,
    ensures
        tex.spec_get_interpolate(x, y) == tex.spec_get(x, y),
{
    let i = cell(x);
    let j = cell(y);
    let c00 = tex.sample(i, j);
    let c10 = tex.sample(i + 1, j);
    let c01 = tex.sample(i, j + 1);
    let c11 = tex.sample(i + 1, j + 1);
    lemma_bilinear_at_cell(c00.r as int, c10.r as int, c01.r as int, c11.r as int);
    lemma_bilinear_at_cell(c00.g as int, c10.g as int, c01.g as int, c11.g as int);
    lemma_bilinear_at_cell(c00.b as int, c10.b as int, c01.b as int, c11.b as int);
    lemma_div_multiples_vanish(c00.r as int, 1024);
    lemma_div_multiples_vanish(c00.g as int, 1024);
    lemma_div_multiples_vanish(c00.b as int, 1024);
    assert(c00.r * 1024 == 1024 * c00.r);
    assert(c00.g * 1024 == 1024 * c00.g);
    assert(c00.b * 1024 == 1024 * c00.b);
}

} // verus!
