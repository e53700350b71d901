//! The picture drawn into each buffer: a fixed gradient in 32-bit ARGB,
//! opaque, stored little-endian.
use vstd::prelude::*;
use vstd::arithmetic::div_mod::lemma_fundamental_div_mod_converse;

verus! {

pub open spec fn min_int(a: int, b: int) -> int {
    if a < b {
        a
    } else {
        b
    }
}

/// The red, green and blue of the pixel at column `x`, row `y` of a
/// `w` by `h` picture: red fades to the right and down, green grows to the
/// right and fades down, blue fades to the right and grows down.
pub open spec fn red(x: int, y: int, w: int, h: int) -> int {
    min_int(((w - x) * 255) / w, ((h - y) * 255) / h)
}

pub open spec fn green(x: int, y: int, w: int, h: int) -> int {
    min_int((x * 255) / w, ((h - y) * 255) / h)
}

pub open spec fn blue(x: int, y: int, w: int, h: int) -> int {
    min_int(((w - x) * 255) / w, (y * 255) / h)
}

/// The ARGB word of a pixel, fully opaque.
pub open spec fn color(x: int, y: int, w: int, h: int) -> int {
    0xFF00_0000 + red(x, y, w, h) * 0x1_0000 + green(x, y, w, h) * 0x100 + blue(x, y, w, h)
}

/// Byte `c` (0 to 3) of a pixel in memory: blue, green, red, alpha.
pub open spec fn channel(x: int, y: int, c: int, w: int, h: int) -> int {
    if c == 0 {
        blue(x, y, w, h)
    } else if c == 1 {
        green(x, y, w, h)
    } else if c == 2 {
        red(x, y, w, h)
    } else {
        255
    }
}

/// Byte `k` of the whole picture, rows stored one after another.
pub open spec fn picture_byte(w: int, h: int, k: int) -> int {
    channel((k / 4) % w, (k / 4) / w, k % 4, w, h)
}

proof fn lemma_scaled_fraction(a: int, w: int)
    requires
        0 <= a <= w,
        0 < w,
    ensures
        0 <= (a * 255) / w <= 255,
{
    assert(0 <= (a * 255) / w <= 255) by (nonlinear_arith)
        requires
            0 <= a <= w,
            0 < w,
    {
        assert(a * 255 <= w * 255);
    }
}

proof fn lemma_picture_index(w: int, h: int, x: int, y: int, c: int)
    requires
        0 <= x < w,
        0 <= y < h,
        0 <= c < 4,
    ensures
        picture_byte(w, h, 4 * (y * w + x) + c) == channel(x, y, c, w, h),
{
    let p = y * w + x;
    assert(0 <= p) by (nonlinear_arith)
        requires
            0 <= x,
            0 <= y,
            0 < w,
            p == y * w + x,
    ;
    lemma_fundamental_div_mod_converse(4 * p + c, 4, p, c);
    lemma_fundamental_div_mod_converse(p, w, y, x);
}

/// One channel value of a pixel, in 0 ..= 255.
fn scaled(a: u64, w: u64) -> (r: u64)
    requires
        a <= w,
        0 < w <= u32::MAX,
    ensures
        r as int == (a as int * 255) / w as int,
        r <= 255,
{
    proof {
        lemma_scaled_fraction(a as int, w as int);
    }
    (a * 255) / w
}

fn min_u64(a: u64, b: u64) -> (r: u64)
    ensures
        r as int == min_int(a as int, b as int),
{
    if a < b {
        a
    } else {
        b
    }
}

/// The red, green and blue of one pixel.
fn pixel_rgb(x: u32, y: u32, width: u32, height: u32) -> (r: (u8, u8, u8))
    requires
        x < width,
        y < height,
    ensures
        r.0 as int == red(x as int, y as int, width as int, height as int),
        r.1 as int == green(x as int, y as int, width as int, height as int),
        r.2 as int == blue(x as int, y as int, width as int, height as int),
{
    let w = width as u64;
    let h = height as u64;
    let x = x as u64;
    let y = y as u64;
    let left = scaled(w - x, w);
    let right = scaled(x, w);
    let top = scaled(h - y, h);
    let bottom = scaled(y, h);
    let r = min_u64(left, top);
    let g = min_u64(right, top);
    let b = min_u64(left, bottom);
    (r as u8, g as u8, b as u8)
}

/// The ARGB word of the pixel at column `x`, row `y` of a `width` by
/// `height` picture.
pub fn gradient_color(x: u32, y: u32, width: u32, height: u32) -> (r: u32)
    requires
        x < width,
        y < height,
    ensures
        r as int == color(x as int, y as int, width as int, height as int),
{
    let (red, green, blue) = pixel_rgb(x, y, width, height);
    0xFF00_0000u32 + red as u32 * 0x1_0000 + green as u32 * 0x100 + blue as u32
}

/// The whole picture, four bytes per pixel (blue, green, red, alpha), rows
/// one after another.
pub fn gradient_pixels(width: u32, height: u32) -> (r: Vec<u8>)
    requires
        width as int * height as int * 4 <= usize::MAX,
    ensures
        r@.len() == width as int * height as int * 4,
        forall|k: int|
            0 <= k < r@.len() ==> #[trigger] r@[k] as int == picture_byte(
                width as int,
                height as int,
                k,
            ),
{
    let ghost w = width as int;
    let ghost h = height as int;
    let mut v: Vec<u8> = Vec::new();
    let mut y: u32 = 0;
    while y < height
        invariant
            y <= height,
            w == width as int,
            h == height as int,
            w * h * 4 <= usize::MAX,
            v@.len() == 4 * (y as int * w),
            forall|k: int| 0 <= k < v@.len() ==> #[trigger] v@[k] as int == picture_byte(w, h, k),
        decreases height - y,
    {
        let mut x: u32 = 0;
        while x < width
            invariant
                x <= width,
                y < height,
                w == width as int,
                h == height as int,
                w * h * 4 <= usize::MAX,
                v@.len() == 4 * (y as int * w + x as int),
                forall|k: int|
                    0 <= k < v@.len() ==> #[trigger] v@[k] as int == picture_byte(w, h, k),
            decreases width - x,
        {
            let (red, green, blue) = pixel_rgb(x, y, width, height);
            let ghost base = v@.len() as int;
            proof {
                let yi = y as int;
                let xi = x as int;
                assert(4 * (yi * w + xi) + 4 <= w * h * 4) by (nonlinear_arith)
                    requires
                        0 <= xi < w,
                        0 <= yi < h,
                ;
                lemma_picture_index(w, h, xi, yi, 0);
                lemma_picture_index(w, h, xi, yi, 1);
                lemma_picture_index(w, h, xi, yi, 2);
                lemma_picture_index(w, h, xi, yi, 3);
            }
            v.push(blue);
            v.push(green);
            v.push(red);
            v.push(0xFF);
            x = x + 1;
            assert(v@.len() == 4 * (y as int * w + x as int));
        }
        proof {
            assert(4 * (y as int * w + w) == 4 * ((y as int + 1) * w)) by (nonlinear_arith);
        }
        y = y + 1;
    }
    assert(4 * (h * w) == w * h * 4) by (nonlinear_arith);
    v
}

} // verus!
