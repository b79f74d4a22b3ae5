use vstd::prelude::*;
use crate::fields::bits32;

verus! {

/// Byte `k` (0 = blue, 1 = green, 2 = red) of a `0x00RRGGBB` pixel.
pub open spec fn channel(pixel: u32, k: u32) -> int {
    ((pixel >> (8 * k)) & 0xff) as int
}

/// The `0x00RRGGBB` pixel with the given channels.
pub open spec fn rgb(r: int, g: int, b: int) -> u32 {
    (r * 0x1_0000 + g * 0x100 + b) as u32
}

/// A channel of colour `c` with opacity `alpha` (out of 255) laid over white.
pub open spec fn over_white(c: int, alpha: int) -> int {
    (c * alpha + 255 * (255 - alpha)) / 255
}

/// A channel mixing `base` and `overlay` with the overlay's opacity `alpha` (out of 255).
pub open spec fn mix(base: int, overlay: int, alpha: int) -> int {
    (base * (255 - alpha) + overlay * alpha) / 255
}

/// Pixel `i` of an RGBA byte buffer, composited over white.
pub open spec fn rgba_pixel(bytes: Seq<u8>, i: int) -> u32 {
    let a = bytes[4 * i + 3] as int;
    rgb(
        over_white(bytes[4 * i] as int, a),
        over_white(bytes[4 * i + 1] as int, a),
        over_white(bytes[4 * i + 2] as int, a),
    )
}

/// The pixels of an RGBA byte buffer (a trailing partial pixel is ignored).
pub open spec fn rgba_pixels(bytes: Seq<u8>) -> Seq<u32> {
    Seq::new(bytes.len() / 4, |i: int| rgba_pixel(bytes, i))
}

/// `overlay` laid over `base` with opacity `alpha`, channel by channel.
pub open spec fn blend_color_spec(base: u32, overlay: u32, alpha: u32) -> u32 {
    rgb(
        mix(channel(base, 2), channel(overlay, 2), alpha as int),
        mix(channel(base, 1), channel(overlay, 1), alpha as int),
        mix(channel(base, 0), channel(overlay, 0), alpha as int),
    )
}

/// Blending the pixel at `index`, when the buffer has one there.
pub open spec fn blend_at(buffer: Seq<u32>, index: int, color: u32, alpha: u32) -> Seq<u32> {
    if 0 <= index < buffer.len() {
        buffer.update(index, blend_color_spec(buffer[index], color, alpha))
    } else {
        buffer
    }
}

/// Blending columns `column ..< end` of row `row`, left to right.
pub open spec fn blend_row(
    buffer: Seq<u32>,
    width: int,
    row: int,
    column: int,
    end: int,
    color: u32,
    alpha: u32,
) -> Seq<u32>
    decreases end - column,
{
    if column >= end {
        buffer
    } else {
        blend_row(
            blend_at(buffer, row * width + column, color, alpha),
            width,
            row,
            column + 1,
            end,
            color,
            alpha,
        )
    }
}

/// Blending rows `row ..< end` of columns `x ..< x + w`, top to bottom.
pub open spec fn blend_rows(
    buffer: Seq<u32>,
    width: int,
    x: int,
    w: int,
    row: int,
    end: int,
    color: u32,
    alpha: u32,
) -> Seq<u32>
    decreases end - row,
{
    if row >= end {
        buffer
    } else {
        blend_rows(
            blend_row(buffer, width, row, x, x + w, color, alpha),
            width,
            x,
            w,
            row + 1,
            end,
            color,
            alpha,
        )
    }
}

/// An opaque RGBA pixel keeps its colour, a fully transparent one shows the white beneath:
/// pixel `i` is `0x00RRGGBB` of its red, green and blue bytes when its alpha is 255, and
/// `0x00FFFFFF` when it is 0.
pub proof fn law_rgba_over_white(bytes: Seq<u8>, i: int)
    requires
        0 <= i,
        4 * i + 3 < bytes.len(),
    ensures
        bytes[4 * i + 3] == 255 ==> rgba_pixel(bytes, i) as int == bytes[4 * i] as int * 0x1_0000
            + bytes[4 * i + 1] as int * 0x100 + bytes[4 * i + 2] as int,
        bytes[4 * i + 3] == 0 ==> rgba_pixel(bytes, i) == 0x00ff_ffff,
{
}

/// Blending at full opacity gives the overlay's colour and at zero opacity the base's, in the
/// low 24 bits that hold the colour.
pub proof fn law_blend_extremes(base: u32, overlay: u32)
    ensures
        blend_color_spec(base, overlay, 255) == overlay & 0x00ff_ffff,
        blend_color_spec(base, overlay, 0) == base & 0x00ff_ffff,
{
    assert(((overlay >> 16u32) & 0xff) * 0x1_0000 + ((overlay >> 8u32) & 0xff) * 0x100 + ((overlay
        >> 0u32) & 0xff) == overlay & 0x00ff_ffff && ((base >> 16u32) & 0xff) * 0x1_0000 + ((base
        >> 8u32) & 0xff) * 0x100 + ((base >> 0u32) & 0xff) == base & 0x00ff_ffff) by (bit_vector);
    assert(channel(overlay, 2) == ((overlay >> 16u32) & 0xff) as int);
    assert(channel(overlay, 1) == ((overlay >> 8u32) & 0xff) as int);
    assert(channel(overlay, 0) == ((overlay >> 0u32) & 0xff) as int);
    assert(channel(base, 2) == ((base >> 16u32) & 0xff) as int);
    assert(channel(base, 1) == ((base >> 8u32) & 0xff) as int);
    assert(channel(base, 0) == ((base >> 0u32) & 0xff) as int);
}

/// The pixel with the given channels (each at most 255).
fn combine_rgb(r: u32, g: u32, b: u32) -> (p: u32)
    requires
        r <= 255,
        g <= 255,
        b <= 255,
    ensures
        p == rgb(r as int, g as int, b as int),
{
    let p = (r << 16) | (g << 8) | b;
    assert(p == r * 0x1_0000 + g * 0x100 + b) by (bit_vector)
        requires
            r <= 255,
            g <= 255,
            b <= 255,
            p == (r << 16) | (g << 8) | b,
    ;
    p
}

proof fn lemma_weighted_channel(x: int, y: int, alpha: int)
    requires
        0 <= x <= 255,
        0 <= y <= 255,
        0 <= alpha <= 255,
    ensures
        0 <= (x * alpha + y * (255 - alpha)) / 255 <= 255,
        x * alpha + y * (255 - alpha) <= 255 * 255,
{
    assert(0 <= x * alpha + y * (255 - alpha) <= 255 * 255) by (nonlinear_arith)
        requires
            0 <= x <= 255,
            0 <= y <= 255,
            0 <= alpha <= 255,
    ;
}

fn over_white_channel(c: u8, alpha: u8) -> (v: u32)
    ensures
        v == over_white(c as int, alpha as int),
        v <= 255,
{
    proof {
        lemma_weighted_channel(c as int, 255, alpha as int);
    }
    let a = alpha as u32;
    let inverse = 255 - a;
    (c as u32 * a + 255 * inverse) / 255
}

/// Composites RGBA pixels over white into `0x00RRGGBB` pixels.
pub fn rgba_to_minifb_pixels(bytes: &[u8]) -> (pixels: Vec<u32>)
    ensures
        pixels@ == rgba_pixels(bytes@),
{
    let count = bytes.len() / 4;
    let mut pixels: Vec<u32> = Vec::new();
    let mut i: usize = 0;
    let mut k: usize = 0;
    while i < count
        invariant
            count == bytes@.len() / 4,
            i <= count,
            k == 4 * i,
            4 * count <= bytes@.len(),
            pixels@ == rgba_pixels(bytes@).subrange(0, i as int),
        decreases count - i,
    {
        let alpha = bytes[k + 3];
        let r = over_white_channel(bytes[k], alpha);
        let g = over_white_channel(bytes[k + 1], alpha);
        let b = over_white_channel(bytes[k + 2], alpha);
        pixels.push(combine_rgb(r, g, b));
        i += 1;
        k += 4;
        assert(pixels@ =~= rgba_pixels(bytes@).subrange(0, i as int));
    }
    assert(rgba_pixels(bytes@).subrange(0, i as int) =~= rgba_pixels(bytes@));
    pixels
}

fn mix_channel(base: u32, overlay: u32, alpha: u32) -> (v: u32)
    requires
        base <= 255,
        overlay <= 255,
        alpha <= 255,
    ensures
        v == mix(base as int, overlay as int, alpha as int),
        v <= 255,
{
    proof {
        lemma_weighted_channel(overlay as int, base as int, alpha as int);
    }
    let inverse = 255 - alpha;
    (base * inverse + overlay * alpha) / 255
}

/// Lays `overlay` over `base` with opacity `alpha` (out of 255).
pub fn blend_color(base: u32, overlay: u32, alpha: u32) -> (p: u32)
    requires
        alpha <= 255,
    ensures
        p == blend_color_spec(base, overlay, alpha),
{
    let r = mix_channel(bits32(base, 16, 0xff), bits32(overlay, 16, 0xff), alpha);
    let g = mix_channel(bits32(base, 8, 0xff), bits32(overlay, 8, 0xff), alpha);
    let b = mix_channel(bits32(base, 0, 0xff), bits32(overlay, 0, 0xff), alpha);
    combine_rgb(r, g, b)
}

/// Blends the pixel at column `x` of row `y` of a buffer `width` pixels wide, if the buffer
/// has that pixel.
pub fn blend_pixel(buffer: &mut [u32], width: usize, x: i32, y: i32, color: u32, alpha: u32)
    requires
        0 <= x,
        0 <= y,
        y * width + x <= usize::MAX,
        alpha <= 255,
    ensures
        final(buffer)@ == blend_at(old(buffer)@, y * width + x, color, alpha),
{
    assert(0 <= (y as usize) * width <= y * width + x) by (nonlinear_arith)
        requires
            0 <= x,
            0 <= y,
            0 <= width,
    ;
    let index = y as usize * width + x as usize;
    if index < buffer.len() {
        let blended = blend_color(buffer[index], color, alpha);
        buffer[index] = blended;
    }
}

/// Blends the `w` by `h` rectangle whose top-left pixel is at column `x` of row `y` of a buffer
/// `width` pixels wide, row by row; pixels the buffer lacks are skipped.
pub fn blend_rect(
    buffer: &mut [u32],
    width: usize,
    x: usize,
    y: usize,
    w: usize,
    h: usize,
    color: u32,
    alpha: u32,
)
    requires
        x + w <= 0x8000_0000,
        y + h <= 0x8000_0000,
        (y + h) * width + x + w <= usize::MAX,
        alpha <= 255,
    ensures
        final(buffer)@ == blend_rows(
            old(buffer)@,
            width as int,
            x as int,
            w as int,
            y as int,
            (y + h) as int,
            color,
            alpha,
        ),
{
    let y_end = y + h;
    let x_end = x + w;
    let mut yy = y;
    while yy < y_end
        invariant
            y <= yy <= y_end,
            y_end == y + h,
            x_end == x + w,
            x + w <= 0x8000_0000,
            y + h <= 0x8000_0000,
            (y + h) * width + x + w <= usize::MAX,
            alpha <= 255,
            blend_rows(buffer@, width as int, x as int, w as int, yy as int, y_end as int, color, alpha)
                == blend_rows(
                old(buffer)@,
                width as int,
                x as int,
                w as int,
                y as int,
                y_end as int,
                color,
                alpha,
            ),
        decreases y_end - yy,
    {
        let ghost row_start = buffer@;
        let mut xx = x;
        while xx < x_end
            invariant
                y <= yy < y_end,
                x <= xx <= x_end,
                x_end == x + w,
                x + w <= 0x8000_0000,
                y + h <= 0x8000_0000,
                y_end == y + h,
                (y + h) * width + x + w <= usize::MAX,
                alpha <= 255,
                blend_row(buffer@, width as int, yy as int, xx as int, x_end as int, color, alpha)
                    == blend_row(row_start, width as int, yy as int, x as int, x_end as int, color, alpha),
            decreases x_end - xx,
        {
            assert(yy * width + xx <= (y + h) * width + x + w) by (nonlinear_arith)
                requires
                    yy < y + h,
                    xx < x + w,
                    0 <= width,
                    0 <= x,
            ;
            blend_pixel(buffer, width, xx as i32, yy as i32, color, alpha);
            xx += 1;
        }
        yy += 1;
    }
}

/// Where the board LED sits in the board image, and how it is drawn: a green rectangle.
pub const LED_X: usize = 112;
pub const LED_Y: usize = 276;
pub const LED_WIDTH: usize = 12;
pub const LED_HEIGHT: usize = 8;
pub const LED_COLOR: u32 = 0x12c958;
pub const LED_ALPHA: u32 = 155;

/// Draws the lit LED onto a board image `width` pixels wide; an unlit LED draws nothing.
pub fn draw_led_overlay(buffer: &mut [u32], width: usize, led_on: bool)
    requires
        (LED_Y + LED_HEIGHT) * width + LED_X + LED_WIDTH <= usize::MAX,
    ensures
        led_on ==> final(buffer)@ == blend_rows(
            old(buffer)@,
            width as int,
            LED_X as int,
            LED_WIDTH as int,
            LED_Y as int,
            (LED_Y + LED_HEIGHT) as int,
            LED_COLOR,
            LED_ALPHA,
        ),
        !led_on ==> final(buffer)@ == old(buffer)@,
{
    if led_on {
        blend_rect(buffer, width, LED_X, LED_Y, LED_WIDTH, LED_HEIGHT, LED_COLOR, LED_ALPHA);
    }
}

} // verus!
