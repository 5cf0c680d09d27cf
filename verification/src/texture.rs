//! Procedurally generated test content for the display-material pipeline.

use vstd::prelude::*;

verus! {

/// Width of the procedural content texture, in pixels.
pub const TEXTURE_W: u32 = 256;

/// Height of the procedural content texture, in pixels.
pub const TEXTURE_H: u32 = 64;

/// Byte offset of channel `c` of pixel `(x, y)` in an RGBA8 texture of
/// width `TEXTURE_W`.
pub open spec fn texel_index(x: int, y: int, c: int) -> int {
    (y * 256 + x) * 4 + c
}

/// Channel `c` of the opaque color `rgb`.
pub open spec fn channel(rgb: (u8, u8, u8), c: int) -> u8 {
    if c == 0 {
        rgb.0
    } else if c == 1 {
        rgb.1
    } else if c == 2 {
        rgb.2
    } else {
        255u8
    }
}

/// The dark navy "off" color of the simulated display.
pub open spec fn background_rgb() -> (u8, u8, u8) {
    (14u8, 22u8, 36u8)
}

/// The color of vertical stripe `i`: white, red, green, blue, yellow.
pub open spec fn stripe_rgb(i: int) -> (u8, u8, u8) {
    if i == 0 {
        (255u8, 255u8, 255u8)
    } else if i == 1 {
        (255u8, 80u8, 80u8)
    } else if i == 2 {
        (80u8, 255u8, 80u8)
    } else if i == 3 {
        (80u8, 80u8, 255u8)
    } else {
        (255u8, 220u8, 80u8)
    }
}

/// Width of each of the five stripes: `256 / 5`.
pub open spec fn stripe_width() -> int {
    51
}

/// The layer under the glyphs: five stripes of width 51 from the left
/// edge, and the background in the last column they leave uncovered.
pub open spec fn stripes_rgb(x: int) -> (u8, u8, u8) {
    if x < 5 * stripe_width() {
        stripe_rgb(x / stripe_width())
    } else {
        background_rgb()
    }
}

/// Brightness of glyph number `n` (row-major in the 3x3 grid).
pub open spec fn glyph_brightness(n: int) -> u8 {
    let k = n % 5;
    if k == 0 {
        255u8
    } else if k == 1 {
        200u8
    } else if k == 2 {
        150u8
    } else if k == 3 {
        220u8
    } else {
        180u8
    }
}

/// Left edge of the body of glyph column `gx`.
pub open spec fn glyph_x0(gx: int) -> int {
    50 + gx * 55
}

/// Top edge of the body of glyph row `gy`.
pub open spec fn glyph_y0(gy: int) -> int {
    18 + gy * 14
}

/// What glyph `(gx, gy)` paints at `(x, y)`, if anything: its 40x8 body in
/// its brightness, and white one-pixel serifs above and below the body that
/// reach two pixels beyond it on each side.
pub open spec fn glyph_paint(gx: int, gy: int, x: int, y: int) -> Option<u8> {
    let x0 = glyph_x0(gx);
    let y0 = glyph_y0(gy);
    if (y == y0 - 1 || y == y0 + 8) && x0 - 2 <= x < x0 + 42 {
        Some(255u8)
    } else if y0 <= y < y0 + 8 && x0 <= x < x0 + 40 {
        Some(glyph_brightness(gx + gy * 3))
    } else {
        None
    }
}

/// The color at `(x, y)` after the stripes and the first `k` glyphs (in
/// row-major order) have been painted.
pub open spec fn content_rgb(x: int, y: int, k: nat) -> (u8, u8, u8)
    decreases k,
{
    if k == 0 {
        stripes_rgb(x)
    } else {
        let n = k - 1;
        match glyph_paint(n % 3, n / 3, x, y) {
            Some(b) => (b, b, b),
            None => content_rgb(x, y, (k - 1) as nat),
        }
    }
}

/// Fills the axis-aligned rectangle `[x0, x1) x [y0, y1)` of the content
/// texture with the opaque color `rgb`.
fn fill_rect(buf: &mut Vec<u8>, x0: u32, x1: u32, y0: u32, y1: u32, rgb: (u8, u8, u8))
    requires
        old(buf)@.len() == 256 * 64 * 4,
        x1 <= 256,
        y1 <= 64,
    ensures
        final(buf)@.len() == 256 * 64 * 4,
        forall|x: int, y: int, c: int|
            0 <= x < 256 && 0 <= y < 64 && 0 <= c < 4 ==> #[trigger] final(buf)@[texel_index(x, y, c)]
                == if x0 <= x < x1 && y0 <= y < y1 {
                channel(rgb, c)
            } else {
                old(buf)@[texel_index(x, y, c)]
            },
{
    let mut y = y0;
    while y < y1
        invariant
            buf@.len() == 256 * 64 * 4,
            x1 <= 256,
            y1 <= 64,
            y0 <= y,
            forall|px: int, py: int, c: int|
                0 <= px < 256 && 0 <= py < 64 && 0 <= c < 4 ==> #[trigger] buf@[texel_index(px, py, c)]
                    == if x0 <= px < x1 && y0 <= py < y && py < y1 {
                    channel(rgb, c)
                } else {
                    old(buf)@[texel_index(px, py, c)]
                },
        decreases y1 - y,
    {
        let mut x = x0;
        while x < x1
            invariant
                buf@.len() == 256 * 64 * 4,
                x1 <= 256,
                y < y1 <= 64,
                y0 <= y,
                x0 <= x,
                forall|px: int, py: int, c: int|
                    0 <= px < 256 && 0 <= py < 64 && 0 <= c < 4 ==> #[trigger] buf@[texel_index(
                        px,
                        py,
                        c,
                    )] == if (x0 <= px < x1 && y0 <= py < y) || (py == y && x0 <= px < x
                        && px < x1) {
                        channel(rgb, c)
                    } else {
                        old(buf)@[texel_index(px, py, c)]
                    },
            decreases x1 - x,
        {
            let i = ((y * 256 + x) * 4) as usize;
            let ghost prev = buf@;
            buf.set(i, rgb.0);
            buf.set(i + 1, rgb.1);
            buf.set(i + 2, rgb.2);
            buf.set(i + 3, 255);
            proof {
                assert forall|px: int, py: int, c: int|
                    0 <= px < 256 && 0 <= py < 64 && 0 <= c < 4 implies #[trigger] buf@[texel_index(
                        px,
                        py,
                        c,
                    )] == if px == x && py == y {
                        channel(rgb, c)
                    } else {
                        prev[texel_index(px, py, c)]
                    } by {
                    if px != x || py != y {
                        assert(texel_index(px, py, c) != i + 0);
                        assert(texel_index(px, py, c) != i + 1);
                        assert(texel_index(px, py, c) != i + 2);
                        assert(texel_index(px, py, c) != i + 3);
                    }
                }
            }
            x = x + 1;
        }
        y = y + 1;
    }
}

/// Builds the procedural "terminal content" texture: RGBA8, 256x64, a
/// navy background, five vertical color stripes, and a 3x3 grid of bright
/// glyph-like bars with serifs. Pixel `(x, y)` has the color
/// `content_rgb(x, y, 9)` and is opaque.
pub fn build_content_texture() -> (buf: Vec<u8>)
    ensures
        buf@.len() == 256 * 64 * 4,
        forall|x: int, y: int, c: int|
            0 <= x < 256 && 0 <= y < 64 && 0 <= c < 4 ==> #[trigger] buf@[texel_index(x, y, c)]
                == channel(content_rgb(x, y, 9), c),
{
    let mut buf: Vec<u8> = vec![0u8; (TEXTURE_W * TEXTURE_H * 4) as usize];

    // Background: subtle dark navy so non-glyph pixels are visible.
    fill_rect(&mut buf, 0, TEXTURE_W, 0, TEXTURE_H, (14, 22, 36));

    // Five vertical stripes in distinct hues.
    let stripe_w: u32 = TEXTURE_W / 5;
    let mut i: u32 = 0;
    while i < 5
        invariant
            i <= 5,
            stripe_w == 51,
            buf@.len() == 256 * 64 * 4,
            forall|x: int, y: int, c: int|
                0 <= x < 256 && 0 <= y < 64 && 0 <= c < 4 ==> #[trigger] buf@[texel_index(x, y, c)]
                    == channel(
                    if x < i * 51 {
                        stripes_rgb(x)
                    } else {
                        background_rgb()
                    },
                    c,
                ),
        decreases 5 - i,
    {
        let rgb: (u8, u8, u8) = if i == 0 {
            (255, 255, 255)
        } else if i == 1 {
            (255, 80, 80)
        } else if i == 2 {
            (80, 255, 80)
        } else if i == 3 {
            (80, 80, 255)
        } else {
            (255, 220, 80)
        };
        let x0 = i * stripe_w;
        fill_rect(&mut buf, x0, x0 + stripe_w, 0, TEXTURE_H, rgb);
        proof {
            assert forall|x: int| x0 <= x < x0 + 51 implies #[trigger] stripes_rgb(x) == stripe_rgb(
                i as int,
            ) by {
                assert(x / 51 == i);
            }
        }
        i = i + 1;
    }

    // A 3x3 grid of "glyphs": a body, and serif lines above and below.
    let mut gy: u32 = 0;
    while gy < 3
        invariant
            gy <= 3,
            buf@.len() == 256 * 64 * 4,
            forall|x: int, y: int, c: int|
                0 <= x < 256 && 0 <= y < 64 && 0 <= c < 4 ==> #[trigger] buf@[texel_index(x, y, c)]
                    == channel(content_rgb(x, y, (gy * 3) as nat), c),
        decreases 3 - gy,
    {
        let mut gx: u32 = 0;
        while gx < 3
            invariant
                gx <= 3,
                gy < 3,
                buf@.len() == 256 * 64 * 4,
                forall|x: int, y: int, c: int|
                    0 <= x < 256 && 0 <= y < 64 && 0 <= c < 4 ==> #[trigger] buf@[texel_index(
                        x,
                        y,
                        c,
                    )] == channel(content_rgb(x, y, (gy * 3 + gx) as nat), c),
            decreases 3 - gx,
        {
            let x0 = 50 + gx * 55;
            let y0 = 18 + gy * 14;
            let w = 40u32;
            let h = 8u32;
            let bright: u8 = match (gx + gy * 3) % 5 {
                0 => 255,
                1 => 200,
                2 => 150,
                3 => 220,
                _ => 180,
            };
            let ghost before = buf@;
            // Letter body
            fill_rect(&mut buf, x0, x0 + w, y0, y0 + h, (bright, bright, bright));
            // Letter serifs (top and bottom lines, 1 px)
            fill_rect(&mut buf, x0 - 2, x0 + w + 2, y0 - 1, y0, (255, 255, 255));
            fill_rect(&mut buf, x0 - 2, x0 + w + 2, y0 + h, y0 + h + 1, (255, 255, 255));
            proof {
                let k = (gy * 3 + gx) as nat;
                assert(k / 3 == gy as int && k % 3 == gx as int);
                assert(bright == glyph_brightness(gx + gy * 3));
                assert forall|x: int, y: int, c: int|
                    0 <= x < 256 && 0 <= y < 64 && 0 <= c < 4 implies #[trigger] buf@[texel_index(
                        x,
                        y,
                        c,
                    )] == channel(content_rgb(x, y, k + 1), c) by {
                    assert(content_rgb(x, y, k + 1) == match glyph_paint(gx as int, gy as int, x, y) {
                        Some(b) => (b, b, b),
                        None => content_rgb(x, y, k),
                    });
                }
            }
            gx = gx + 1;
        }
        gy = gy + 1;
    }
    buf
}

/// Label of a uniform-buffer size, for debug output: 160 bytes is the mesh
/// uniform, 80 the chrome uniform, 96 the splat uniform; anything else "u".
pub fn label_for_size(size: usize) -> (r: &'static str)
    ensures
        r@ == (if size == 160 {
            "mesh"@
        } else if size == 80 {
            "chrome"@
        } else if size == 96 {
            "splat"@
        } else {
            "u"@
        }),
{
    match size {
        160 => "mesh",
        80 => "chrome",
        96 => "splat",
        _ => "u",
    }
}

} // verus!
