//! Semi-transparent status text drawn over the preview buffer.

use font8x8::UnicodeFonts;
use vstd::prelude::*;

use crate::text::chars_of;
use crate::webcam_preview::lemma_row_col;

verus! {

pub const STATUS_LINE_PRIMARY: &'static str = "Scanning QR code...";

pub const STATUS_LINE_SECONDARY: &'static str = "Brightness changes are normal";

pub const STATUS_LINE_AUTO_ONLY: &'static str = "Auto exposure only";

/// Opacity of the dark panel behind the text, in percent.
pub const PANEL_ALPHA_PERCENT: u32 = 55;

/// Opacity of the status text, in percent.
pub const TEXT_ALPHA_PERCENT: u32 = 92;

/// Space between the panel's edge and the text, in pixels.
pub const PANEL_PADDING: u32 = 6;

/// Space between the two status lines, in pixels.
pub const LINE_GAP: u32 = 4;

/// The rows of `c`'s glyph in font8x8's basic set (one byte per row, bit `i`
/// being column `i`).
pub uninterp spec fn basic_glyph(c: char) -> Seq<u8>;

/// `BASIC_FONTS.get(c)` from font8x8: the basic set covers exactly U+0000 to
/// U+007F.
#[verifier::external_body]
fn basic_font_glyph(c: char) -> (r: Option<[u8; 8]>)
    ensures
        r is Some <==> (c as u32) < 128,
        r matches Some(g) ==> g@ == basic_glyph(c),
{
    font8x8::BASIC_FONTS.get(c)
}

/// Spec: the glyph drawn for `c`; characters outside the basic set are drawn as `?`.
pub open spec fn glyph_rows(c: char) -> Seq<u8> {
    if (c as u32) < 128 {
        basic_glyph(c)
    } else {
        basic_glyph('?')
    }
}

fn char_glyph(c: char) -> (g: [u8; 8])
    ensures
        g@ == glyph_rows(c),
{
    match basic_font_glyph(c) {
        Some(g) => g,
        None => {
            let q = basic_font_glyph('?');
            match q {
                Some(g) => g,
                None => [0u8; 8],
            }
        },
    }
}

/// Spec: text scale for a preview `height` pixels tall.
pub open spec fn overlay_scale(height: int) -> int {
    if height >= 240 {
        2
    } else {
        1
    }
}

/// Text scale for a preview of the given height: doubled on tall previews.
pub fn overlay_scale_for_height(height: u32) -> (r: u32)
    ensures
        r == overlay_scale(height as int),
{
    if height >= 240 {
        2
    } else {
        1
    }
}

/// Spec: the two status lines.
pub open spec fn status_line(bracketing_enabled: bool, index: int) -> Seq<char> {
    if index == 0 {
        STATUS_LINE_PRIMARY@
    } else if bracketing_enabled {
        STATUS_LINE_SECONDARY@
    } else {
        STATUS_LINE_AUTO_ONLY@
    }
}

/// Spec: first row of the panel (the panel fills the rows below it).
pub open spec fn panel_top(height: int) -> int {
    let char_h = 8 * overlay_scale(height);
    let block = 2 * char_h + LINE_GAP + 2 * PANEL_PADDING;
    if height > block {
        height - block
    } else {
        0
    }
}

/// Spec: bit `col` of a glyph row is set.
pub open spec fn glyph_bit(bits: u8, col: u8) -> bool {
    (bits >> col) & 1u8 == 1u8
}

/// Spec: pixel (`x`, `y`) is covered by status text. Lines start `PANEL_PADDING`
/// inside the panel and are `LINE_GAP` apart; each character advances by one
/// scaled glyph width.
pub open spec fn text_on(x: int, y: int, height: int, bracketing_enabled: bool) -> bool {
    let s = overlay_scale(height);
    let char_h = 8 * s;
    let top = panel_top(height) + PANEL_PADDING;
    let ly = y - top;
    let lx = x - PANEL_PADDING;
    let li = ly / (char_h + LINE_GAP);
    let oy = ly % (char_h + LINE_GAP);
    let ci = lx / char_h;
    let ox = lx % char_h;
    &&& 0 <= ly
    &&& 0 <= lx
    &&& li < 2
    &&& oy < char_h
    &&& ci < status_line(bracketing_enabled, li).len()
    &&& glyph_bit(
        glyph_rows(status_line(bracketing_enabled, li)[ci])[oy / s],
        (ox / s) as u8,
    )
}

/// Spec: blend of one colour channel, `alpha` percent towards `fg`, rounded
/// to nearest (halves up).
pub open spec fn mix_channel(bg: int, fg: int, alpha: int) -> int {
    (bg * (100 - alpha) + fg * alpha + 50) / 100
}

/// Spec: `bg` (`0x00RRGGBB`) blended `alpha` percent towards (`r`, `g`, `b`).
pub open spec fn blended(bg: u32, r: u8, g: u8, b: u8, alpha: int) -> u32 {
    let bg = bg as int;
    (mix_channel((bg / 65536) % 256, r as int, alpha) * 65536 + mix_channel(
        (bg / 256) % 256,
        g as int,
        alpha,
    ) * 256 + mix_channel(bg % 256, b as int, alpha)) as u32
}

fn mix_channel_exec(bg: u32, fg: u8, alpha: u32) -> (c: u32)
    requires
        bg < 256,
        alpha <= 100,
    ensures
        c == mix_channel(bg as int, fg as int, alpha as int),
        c < 256,
{
    assert(bg * (100 - alpha) + fg * alpha + 50 <= 25550) by (nonlinear_arith)
        requires
            bg < 256,
            fg < 256,
            alpha <= 100,
    ;
    (bg * (100 - alpha) + (fg as u32) * alpha + 50) / 100
}

/// Blend `bg` (`0x00RRGGBB`) `alpha_percent` percent towards the colour
/// (`r`, `g`, `b`), each channel rounded to nearest.
pub fn blend_pixel_percent(bg: u32, r: u8, g: u8, b: u8, alpha_percent: u32) -> (v: u32)
    requires
        alpha_percent <= 100,
    ensures
        v == blended(bg, r, g, b, alpha_percent as int),
{
    let cr = mix_channel_exec((bg / 65536) % 256, r, alpha_percent);
    let cg = mix_channel_exec((bg / 256) % 256, g, alpha_percent);
    let cb = mix_channel_exec(bg % 256, b, alpha_percent);
    cr * 65536 + cg * 256 + cb
}

/// Spec: one pixel of the panel: darkened, then lit where text covers it.
pub open spec fn overlay_pixel(v: u32, x: int, y: int, height: int, bracketing_enabled: bool) -> u32 {
    let dark = blended(v, 0, 0, 0, PANEL_ALPHA_PERCENT as int);
    if text_on(x, y, height, bracketing_enabled) {
        blended(dark, 255, 255, 255, TEXT_ALPHA_PERCENT as int)
    } else {
        dark
    }
}

/// Spec: the buffer after drawing the status overlay. Too small a buffer is
/// left alone.
pub open spec fn overlaid_buffer(
    old: Seq<u32>,
    width: int,
    height: int,
    bracketing_enabled: bool,
) -> Seq<u32> {
    if width == 0 || height == 0 || old.len() < width * height {
        old
    } else {
        Seq::new(
            old.len(),
            |i: int|
                if panel_top(height) * width <= i < width * height {
                    overlay_pixel(old[i], i % width, i / width, height, bracketing_enabled)
                } else {
                    old[i]
                },
        )
    }
}

fn text_on_exec(
    x: u32,
    y: u32,
    height: u32,
    top: u32,
    scale: u32,
    primary: &Vec<char>,
    secondary: &Vec<char>,
    bracketing_enabled: bool,
) -> (r: bool)
    requires
        scale == overlay_scale(height as int),
        top == panel_top(height as int),
        primary@ == status_line(bracketing_enabled, 0),
        secondary@ == status_line(bracketing_enabled, 1),
    ensures
        r == text_on(x as int, y as int, height as int, bracketing_enabled),
{
    let char_h = 8 * scale;
    let text_top = top as u64 + PANEL_PADDING as u64;
    if (y as u64) < text_top || x < PANEL_PADDING {
        return false;
    }
    let ly = y as u64 - text_top;
    let lx = x - PANEL_PADDING;
    let li = ly / ((char_h + LINE_GAP) as u64);
    let oy = ly % ((char_h + LINE_GAP) as u64);
    if li >= 2 || oy >= char_h as u64 {
        return false;
    }
    let line = if li == 0 {
        primary
    } else {
        secondary
    };
    let ci = (lx / char_h) as usize;
    let ox = lx % char_h;
    if ci >= line.len() {
        return false;
    }
    let glyph = char_glyph(line[ci]);
    let row = (oy / (scale as u64)) as usize;
    let col = (ox / scale) as u8;
    proof {
        assert(row < 8);
        assert(col < 8);
    }
    let bits: u8 = glyph[row];
    (bits >> col) & 1u8 == 1u8
}

/// Draw a reassurance banner along the bottom of the preview buffer: a dark
/// panel with two lines of text. Buffers shorter than `width * height` are
/// left unchanged.
pub fn draw_preview_status_overlay(
    buffer: &mut [u32],
    width: u32,
    height: u32,
    bracketing_enabled: bool,
)
    requires
        width != 0 && height != 0 ==> width * height <= u32::MAX,
    ensures
        final(buffer)@ == overlaid_buffer(
            old(buffer)@,
            width as int,
            height as int,
            bracketing_enabled,
        ),
{
    if width == 0 || height == 0 || buffer.len() < (width * height) as usize {
        return;
    }
    let ghost old_buf = buffer@;
    let secondary_text = if bracketing_enabled {
        STATUS_LINE_SECONDARY
    } else {
        STATUS_LINE_AUTO_ONLY
    };
    let primary = chars_of(STATUS_LINE_PRIMARY);
    let secondary = chars_of(secondary_text);
    let scale = overlay_scale_for_height(height);
    let char_h = 8 * scale;
    let block = 2 * char_h + LINE_GAP + 2 * PANEL_PADDING;
    let top = if height > block {
        height - block
    } else {
        0
    };
    let mut y = top;
    while y < height
        invariant
            0 < width,
            0 < height,
            width * height <= u32::MAX,
            width * height <= buffer@.len(),
            buffer@.len() == old_buf.len(),
            top == panel_top(height as int),
            scale == overlay_scale(height as int),
            top <= y <= height,
            primary@ == status_line(bracketing_enabled, 0),
            secondary@ == status_line(bracketing_enabled, 1),
            forall|i: int|
                0 <= i < old_buf.len() ==> #[trigger] buffer@[i] == if top * width <= i < y
                    * width {
                    overlay_pixel(old_buf[i], i % width as int, i / width as int, height as int, bracketing_enabled)
                } else {
                    old_buf[i]
                },
        decreases height - y,
    {
        let mut x: u32 = 0;
        while x < width
            invariant
                0 < width,
                0 < height,
                width * height <= u32::MAX,
                width * height <= buffer@.len(),
                buffer@.len() == old_buf.len(),
                top == panel_top(height as int),
                scale == overlay_scale(height as int),
                top <= y < height,
                x <= width,
                primary@ == status_line(bracketing_enabled, 0),
                secondary@ == status_line(bracketing_enabled, 1),
                forall|i: int|
                    0 <= i < old_buf.len() ==> #[trigger] buffer@[i] == if top * width <= i < y
                        * width + x {
                        overlay_pixel(old_buf[i], i % width as int, i / width as int, height as int, bracketing_enabled)
                    } else {
                        old_buf[i]
                    },
            decreases width - x,
        {
            proof {
                assert(y * width + x < width * height) by (nonlinear_arith)
                    requires
                        y < height,
                        x < width,
                ;
                assert(top * width <= y * width) by (nonlinear_arith)
                    requires
                        top <= y,
                ;
            }
            let idx = (y * width + x) as usize;
            proof {
                lemma_row_col(idx as int, width as int, y as int, x as int);
            }
            let v = buffer[idx];
            let dark = blend_pixel_percent(v, 0, 0, 0, PANEL_ALPHA_PERCENT);
            let on = text_on_exec(
                x,
                y,
                height,
                top,
                scale,
                &primary,
                &secondary,
                bracketing_enabled,
            );
            let nv = if on {
                blend_pixel_percent(dark, 255, 255, 255, TEXT_ALPHA_PERCENT)
            } else {
                dark
            };
            buffer[idx] = nv;
            x += 1;
        }
        proof {
            assert((y + 1) * width == y * width + width) by (nonlinear_arith);
        }
        y += 1;
    }
    proof {
        assert(height * width == width * height) by (nonlinear_arith);
        assert(buffer@ =~= overlaid_buffer(old_buf, width as int, height as int, bracketing_enabled));
    }
}

/// The overlay only touches the panel rows at the bottom: every pixel above
/// the panel keeps its value, and every panel pixel is darkened (then lit
/// where text covers it).
pub proof fn law_overlay_touches_only_the_panel(
    old: Seq<u32>,
    width: int,
    height: int,
    bracketing_enabled: bool,
    i: int,
)
    requires
        0 < width,
        0 < height,
        width * height <= old.len(),
        0 <= i < old.len(),
    ensures
        i < panel_top(height) * width ==> overlaid_buffer(old, width, height, bracketing_enabled)[i]
            == old[i],
        panel_top(height) * width <= i < width * height ==> overlaid_buffer(
            old,
            width,
            height,
            bracketing_enabled,
        )[i] == overlay_pixel(old[i], i % width, i / width, height, bracketing_enabled),
{
}

} // verus!
