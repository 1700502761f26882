//! Scaling webcam frames into the small preview window's pixel buffer.

use vstd::prelude::*;

verus! {

/// Default maximum width of the live preview window in pixels (display only).
pub const DEFAULT_PREVIEW_MAX_WIDTH: u32 = 640;

/// The preview window is never made shorter than this.
pub const MIN_PREVIEW_HEIGHT: u32 = 200;

/// Target webcam capture width — full sensor quality for QR decode.
pub const DEFAULT_WEBCAM_WIDTH: u32 = 1920;

/// Target webcam capture height.
pub const DEFAULT_WEBCAM_HEIGHT: u32 = 1080;

/// Minimum interval between QR decode attempts on the capture thread.
pub const DEFAULT_DECODE_INTERVAL_MS: u64 = 100;

/// Shortest decode interval accepted, in milliseconds.
pub const MIN_DECODE_INTERVAL_MS: u64 = 50;

/// Longest decode interval accepted, in milliseconds.
pub const MAX_DECODE_INTERVAL_MS: u64 = 2000;

/// Spec: `ms` clamped to the accepted decode-interval range.
pub open spec fn clamped_interval(ms: int) -> int {
    if ms < MIN_DECODE_INTERVAL_MS {
        MIN_DECODE_INTERVAL_MS as int
    } else if ms > MAX_DECODE_INTERVAL_MS {
        MAX_DECODE_INTERVAL_MS as int
    } else {
        ms
    }
}

/// Clamp a decode interval (milliseconds) to a sane range for live webcam scanning.
pub fn decode_interval_from_ms(ms: u64) -> (r: u64)
    ensures
        r == clamped_interval(ms as int),
{
    if ms < MIN_DECODE_INTERVAL_MS {
        MIN_DECODE_INTERVAL_MS
    } else if ms > MAX_DECODE_INTERVAL_MS {
        MAX_DECODE_INTERVAL_MS
    } else {
        ms
    }
}

/// True when a decode attempt is due: at least `interval_ms` have elapsed
/// since the last one.
pub fn should_attempt_decode(elapsed_ms: u64, interval_ms: u64) -> (r: bool)
    ensures
        r == (elapsed_ms >= interval_ms),
{
    elapsed_ms >= interval_ms
}

/// Spec: `height * max_width / width`, rounded to the nearest integer (halves up).
pub open spec fn scaled_height(width: int, height: int, max_width: int) -> int {
    (2 * height * max_width + width) / (2 * width)
}

/// A frame is shown at its own width when that fits and at exactly
/// `max_width` otherwise, with its height scaled by the same factor to the
/// nearest whole pixel (at least one); an empty frame gives a 1 x 1 preview.
pub proof fn law_preview_keeps_aspect(width: int, height: int, max_width: int)
    requires
        0 <= width,
        0 <= height,
        0 <= max_width,
    ensures
        width == 0 || height == 0 ==> preview_size(width, height, max_width) == (1int, 1int),
        width > 0 && height > 0 ==> preview_size(width, height, max_width).0 == if width
            <= max_width {
            width
        } else {
            max_width
        },
        width > 0 && height > 0 && width <= max_width ==> preview_size(width, height, max_width).1
            == height,
        width > 0 && height > 0 && width > max_width ==> ({
            let h = preview_size(width, height, max_width).1;
            &&& h >= 1
            &&& h > 1 ==> 2 * width * h - width <= 2 * height * max_width < 2 * width * h + width
            &&& h == 1 ==> 2 * height * max_width < 3 * width
        }),
{
    if width > 0 && height > 0 && width > max_width {
        let q = scaled_height(width, height, max_width);
        let n = 2 * height * max_width + width;
        assert(2 * width * q <= n < 2 * width * q + 2 * width) by (nonlinear_arith)
            requires
                width > 0,
                q == n / (2 * width),
        {
            vstd::arithmetic::div_mod::lemma_fundamental_div_mod(n, 2 * width);
        }
        assert(q >= 0) by (nonlinear_arith)
            requires
                width > 0,
                height > 0,
                max_width >= 0,
                n == 2 * height * max_width + width,
                q == n / (2 * width),
        ;
        let h = preview_size(width, height, max_width).1;
        assert(h == if q < 1 {
            1
        } else {
            q
        });
        if q < 1 {
            assert(q == 0);
            assert(2 * width * q == 0) by (nonlinear_arith)
                requires
                    q == 0,
            ;
        } else if q == 1 {
            assert(2 * width * q == 2 * width) by (nonlinear_arith)
                requires
                    q == 1,
            ;
        }
    }
}

/// Spec: preview size for a `width` x `height` frame shown at most `max_width` wide.
pub open spec fn preview_size(width: int, height: int, max_width: int) -> (int, int) {
    if width == 0 || height == 0 {
        (1, 1)
    } else if width <= max_width {
        (width, height)
    } else {
        let h = scaled_height(width, height, max_width);
        (max_width, if h < 1 {
            1
        } else {
            h
        })
    }
}

proof fn lemma_scaled_height_bound(width: int, height: int, max_width: int)
    requires
        0 <= max_width < width,
        0 < height,
    ensures
        0 <= scaled_height(width, height, max_width) <= height,
{
    assert(0 <= 2 * height * max_width + width < 2 * width * (height + 1)) by (nonlinear_arith)
        requires
            0 <= max_width < width,
            0 < height,
    ;
    assert(0 <= (2 * height * max_width + width) / (2 * width) <= height) by (nonlinear_arith)
        requires
            0 <= 2 * height * max_width + width < 2 * width * (height + 1),
            0 < width,
            0 < height,
    ;
}

/// Compute preview dimensions that fit within `max_width` while preserving
/// aspect ratio.
pub fn preview_dimensions(width: u32, height: u32, max_width: u32) -> (r: (u32, u32))
    ensures
        (r.0 as int, r.1 as int) == preview_size(width as int, height as int, max_width as int),
        width > 0 && height > 0 && width <= max_width ==> r == (width, height),
        width > 0 && height > 0 && width > max_width ==> r.0 == max_width,
{
    if width == 0 || height == 0 {
        return (1, 1);
    }
    if width <= max_width {
        return (width, height);
    }
    proof {
        lemma_scaled_height_bound(width as int, height as int, max_width as int);
    }
    let w = width as u128;
    assert((height as int) * (max_width as int) <= 0xffff_ffff * 0xffff_ffff) by (nonlinear_arith)
        requires
            height <= 0xffff_ffffu32,
            max_width <= 0xffff_ffffu32,
    ;
    let hm = (height as u128) * (max_width as u128);
    let numerator = 2 * hm + w;
    assert(numerator == 2 * (height as int) * (max_width as int) + width) by (nonlinear_arith)
        requires
            numerator == 2 * hm + w,
            hm == (height as int) * (max_width as int),
            w == width,
    ;
    let h = numerator / (2 * w);
    let h32 = h as u32;
    if h32 < 1 {
        (max_width, 1)
    } else {
        (max_width, h32)
    }
}

/// Spec: the `0x00RRGGBB` word of one pixel.
pub open spec fn packed_rgb(r: u8, g: u8, b: u8) -> int {
    r * 65536 + g * 256 + b
}

/// Spec: the packed pixel whose red byte is at `i` in `bytes`, or 0 when the
/// pixel is cut off.
pub open spec fn rgb_word_at(bytes: Seq<u8>, i: int) -> u32 {
    if 0 <= i && i + 2 < bytes.len() {
        packed_rgb(bytes[i], bytes[i + 1], bytes[i + 2]) as u32
    } else {
        0
    }
}

/// Spec: the preview buffer of `count` pixels for tightly packed RGB8 bytes.
pub open spec fn packed_buffer(rgb: Seq<u8>, count: int) -> Seq<u32> {
    Seq::new(count as nat, |k: int| rgb_word_at(rgb, 3 * k))
}

fn pack_rgb(r: u8, g: u8, b: u8) -> (w: u32)
    ensures
        w == packed_rgb(r, g, b),
{
    (r as u32) * 65536 + (g as u32) * 256 + (b as u32)
}

fn rgb_word(bytes: &[u8], i: usize) -> (w: u32)
    ensures
        w == rgb_word_at(bytes@, i as int),
{
    if i < bytes.len() && bytes.len() - i > 2 {
        pack_rgb(bytes[i], bytes[i + 1], bytes[i + 2])
    } else {
        0
    }
}

/// Convert RGB8 bytes into a minifb ARGB buffer (`0x00RRGGBB`), reusing `out`.
/// Pixels missing from `rgb` are black.
pub fn rgb_to_preview_buffer_into(rgb: &[u8], width: u32, height: u32, out: &mut Vec<u32>)
    requires
        width * height <= usize::MAX,
    ensures
        final(out)@ == packed_buffer(rgb@, width * height),
{
    let count = (width as usize) * (height as usize);
    out.clear();
    let mut k: usize = 0;
    while k < count
        invariant
            k <= count,
            count == width * height,
            out@ =~= packed_buffer(rgb@, k as int),
        decreases count - k,
    {
        let word = if k < rgb.len() / 3 {
            rgb_word(rgb, 3 * k)
        } else {
            0
        };
        proof {
            if k >= rgb@.len() / 3 {
                assert(3 * k + 2 >= rgb@.len());
            }
        }
        out.push(word);
        k += 1;
    }
}

/// Convert RGB8 bytes into a minifb ARGB buffer (`0x00RRGGBB`).
pub fn rgb_to_preview_buffer(rgb: &[u8], width: u32, height: u32) -> (buffer: Vec<u32>)
    requires
        width * height <= usize::MAX,
    ensures
        buffer@ == packed_buffer(rgb@, width * height),
{
    let mut buffer = Vec::new();
    rgb_to_preview_buffer_into(rgb, width, height, &mut buffer);
    buffer
}

/// Spec: source coordinate sampled for destination coordinate `d` when an axis
/// of `src` pixels is shown as `dst` pixels (nearest neighbour, rounding down).
pub open spec fn sample_coord(d: int, src: int, dst: int) -> int {
    d * src / dst
}

/// Spec: the preview buffer of a `dst_width` x `dst_height` nearest-neighbour
/// resampling of a `src_width` x `src_height` RGB8 frame.
pub open spec fn downscaled_buffer(
    src: Seq<u8>,
    src_width: int,
    src_height: int,
    dst_width: int,
    dst_height: int,
) -> Seq<u32> {
    if src_width == 0 || src_height == 0 || dst_width == 0 || dst_height == 0 {
        Seq::new((dst_width * dst_height) as nat, |k: int| 0u32)
    } else {
        Seq::new(
            (dst_width * dst_height) as nat,
            |k: int|
                {
                    let sy = sample_coord(k / dst_width, src_height, dst_height);
                    let sx = sample_coord(k % dst_width, src_width, dst_width);
                    rgb_word_at(src, 3 * (sy * src_width + sx))
                },
        )
    }
}

/// Spec: the index arithmetic of a resampling pass stays within `usize`.
pub open spec fn resample_fits(src_width: int, src_height: int) -> bool {
    &&& src_width * 3 <= u32::MAX
    &&& src_height * src_width * 3 <= usize::MAX
}

/// Row and column of the `k`-th entry of a row-major grid `w` wide.
pub proof fn lemma_row_col(k: int, w: int, y: int, x: int)
    requires
        0 <= x < w,
        0 <= y,
        k == y * w + x,
    ensures
        k / w == y,
        k % w == x,
{
    vstd::arithmetic::div_mod::lemma_fundamental_div_mod_converse(k, w, y, x);
}

proof fn lemma_sample_below(d: int, src: int, dst: int)
    requires
        0 <= d < dst,
        0 < src,
    ensures
        0 <= sample_coord(d, src, dst) < src,
{
    assert(0 <= d * src / dst < src) by (nonlinear_arith)
        requires
            0 <= d < dst,
            0 < src,
    ;
}

proof fn lemma_sample_identity(d: int, n: int)
    requires
        0 <= d,
        0 < n,
    ensures
        sample_coord(d, n, n) == d,
{
    assert(d * n / n == d) by (nonlinear_arith)
        requires
            0 <= d,
            0 < n,
    ;
}

proof fn lemma_pixel_offset_bound(sy: int, sx: int, w: int, h: int)
    requires
        0 <= sy < h,
        0 <= sx < w,
    ensures
        0 <= 3 * (sy * w + sx) <= h * w * 3 - 3,
        3 * (sy * w + sx) == sy * (w * 3) + sx * 3,
{
    assert(sy * w + sx <= h * w - 1 && 0 <= sy * w) by (nonlinear_arith)
        requires
            0 <= sy < h,
            0 <= sx < w,
    ;
    assert(3 * (sy * w + sx) == sy * (w * 3) + sx * 3) by (nonlinear_arith);
}

/// Same-size resampling copies the frame pixel for pixel.
pub proof fn law_same_size_downscale_is_packing(src: Seq<u8>, width: int, height: int)
    requires
        0 < width,
        0 < height,
    ensures
        downscaled_buffer(src, width, height, width, height) == packed_buffer(src, width * height),
{
    let a = downscaled_buffer(src, width, height, width, height);
    let b = packed_buffer(src, width * height);
    assert forall|k: int| 0 <= k < a.len() implies a[k] == b[k] by {
        let y = k / width;
        let x = k % width;
        vstd::arithmetic::div_mod::lemma_fundamental_div_mod(k, width);
        lemma_sample_identity(x, width);
        assert(0 <= y) by (nonlinear_arith)
            requires
                0 <= k,
                0 < width,
                y == k / width,
        ;
        lemma_sample_identity(y, height);
        assert(y * width + x == k) by (nonlinear_arith)
            requires
                k == width * (k / width) + k % width,
                y == k / width,
                x == k % width,
        ;
    }
    assert(a =~= b);
}

proof fn lemma_sample_multiple(d: int, factor: int, dst: int)
    requires
        0 <= d,
        0 < factor,
        0 < dst,
    ensures
        sample_coord(d, factor * dst, dst) == d * factor,
{
    assert(d * (factor * dst) / dst == d * factor) by (nonlinear_arith)
        requires
            0 <= d,
            0 < factor,
            0 < dst,
    {
        assert(d * (factor * dst) == (d * factor) * dst);
        vstd::arithmetic::div_mod::lemma_div_by_multiple(d * factor, dst);
    }
}

/// Downscaling by whole factors `kx` across and `ky` down samples the
/// top-left pixel of each `kx` x `ky` block of the source.
pub proof fn law_whole_factor_downscale(src: Seq<u8>, dst_width: int, dst_height: int, kx: int, ky: int)
    requires
        0 < dst_width,
        0 < dst_height,
        0 < kx,
        0 < ky,
    ensures
        downscaled_buffer(src, kx * dst_width, ky * dst_height, dst_width, dst_height).len()
            == dst_width * dst_height,
        forall|dy: int, dx: int|
            0 <= dy < dst_height && 0 <= dx < dst_width ==> #[trigger] downscaled_buffer(
                src,
                kx * dst_width,
                ky * dst_height,
                dst_width,
                dst_height,
            )[dy * dst_width + dx] == rgb_word_at(
                src,
                3 * ((dy * ky) * (kx * dst_width) + dx * kx),
            ),
{
    let sw = kx * dst_width;
    let sh = ky * dst_height;
    assert(sw > 0 && sh > 0 && dst_width * dst_height > 0) by (nonlinear_arith)
        requires
            0 < dst_width,
            0 < dst_height,
            0 < kx,
            0 < ky,
            sw == kx * dst_width,
            sh == ky * dst_height,
    ;
    let buf = downscaled_buffer(src, sw, sh, dst_width, dst_height);
    assert forall|dy: int, dx: int| 0 <= dy < dst_height && 0 <= dx < dst_width implies #[trigger] buf[dy
        * dst_width + dx] == rgb_word_at(src, 3 * ((dy * ky) * sw + dx * kx)) by {
        let k = dy * dst_width + dx;
        lemma_row_col(k, dst_width, dy, dx);
        assert(0 <= k < dst_width * dst_height) by (nonlinear_arith)
            requires
                0 <= dy < dst_height,
                0 <= dx < dst_width,
                k == dy * dst_width + dx,
        ;
        lemma_sample_multiple(dy, ky, dst_height);
        lemma_sample_multiple(dx, kx, dst_width);
    }
}

/// Single-pass nearest-neighbour downscale from an RGB8 source straight into
/// a minifb buffer. Frames of equal size are copied unchanged; empty source or
/// destination sizes give an all-black buffer.
pub fn downscale_rgb_to_minifb_buffer(
    src: &[u8],
    src_width: u32,
    src_height: u32,
    dst_width: u32,
    dst_height: u32,
    out: &mut Vec<u32>,
)
    requires
        dst_width * dst_height <= usize::MAX,
        (src_width != dst_width || src_height != dst_height) ==> resample_fits(
            src_width as int,
            src_height as int,
        ),
    ensures
        final(out)@ == downscaled_buffer(
            src@,
            src_width as int,
            src_height as int,
            dst_width as int,
            dst_height as int,
        ),
{
    let count = (dst_width as usize) * (dst_height as usize);
    out.clear();
    if src_width == 0 || src_height == 0 || dst_width == 0 || dst_height == 0 {
        let mut k: usize = 0;
        while k < count
            invariant
                k <= count,
                out@ =~= Seq::new(k as nat, |j: int| 0u32),
            decreases count - k,
        {
            out.push(0);
            k += 1;
        }
        proof {
            assert(out@ =~= downscaled_buffer(
                src@,
                src_width as int,
                src_height as int,
                dst_width as int,
                dst_height as int,
            ));
        }
        return;
    }
    if src_width == dst_width && src_height == dst_height {
        rgb_to_preview_buffer_into(src, dst_width, dst_height, out);
        proof {
            law_same_size_downscale_is_packing(src@, dst_width as int, dst_height as int);
        }
        return;
    }
    let stride: usize = (src_width * 3) as usize;
    let mut dy: u32 = 0;
    while dy < dst_height
        invariant
            0 < dst_width,
            0 < dst_height,
            0 < src_width,
            0 < src_height,
            dst_width * dst_height <= usize::MAX,
            resample_fits(src_width as int, src_height as int),
            stride == src_width * 3,
            dy <= dst_height,
            out@.len() == dy * dst_width,
            forall|k: int|
                0 <= k < out@.len() ==> #[trigger] out@[k] == downscaled_buffer(
                    src@,
                    src_width as int,
                    src_height as int,
                    dst_width as int,
                    dst_height as int,
                )[k],
        decreases dst_height - dy,
    {
        assert((dy as u64) * (src_height as u64) <= 0xffff_ffffu64 * 0xffff_ffffu64)
            by (nonlinear_arith)
            requires
                dy <= 0xffff_ffffu32,
                src_height <= 0xffff_ffffu32,
        ;
        let sy = ((dy as u64) * (src_height as u64) / (dst_height as u64)) as usize;
        proof {
            lemma_sample_below(dy as int, src_height as int, dst_height as int);
        }
        let mut dx: u32 = 0;
        while dx < dst_width
            invariant
                0 < dst_width,
                0 < dst_height,
                0 < src_width,
                0 < src_height,
                dst_width * dst_height <= usize::MAX,
                resample_fits(src_width as int, src_height as int),
                stride == src_width * 3,
                dy < dst_height,
                sy == sample_coord(dy as int, src_height as int, dst_height as int),
                sy < src_height,
                dx <= dst_width,
                out@.len() == dy * dst_width + dx,
                forall|k: int|
                    0 <= k < out@.len() ==> #[trigger] out@[k] == downscaled_buffer(
                        src@,
                        src_width as int,
                        src_height as int,
                        dst_width as int,
                        dst_height as int,
                    )[k],
            decreases dst_width - dx,
        {
            assert((dx as u64) * (src_width as u64) <= 0xffff_ffffu64 * 0xffff_ffffu64)
                by (nonlinear_arith)
                requires
                    dx <= 0xffff_ffffu32,
                    src_width <= 0xffff_ffffu32,
            ;
            let sx = ((dx as u64) * (src_width as u64) / (dst_width as u64)) as usize;
            proof {
                lemma_sample_below(dx as int, src_width as int, dst_width as int);
                lemma_pixel_offset_bound(
                    sy as int,
                    sx as int,
                    src_width as int,
                    src_height as int,
                );
                assert(sy * stride <= src_height * src_width * 3) by (nonlinear_arith)
                    requires
                        sy < src_height,
                        stride == src_width * 3,
                ;
            }
            let i = sy * stride + sx * 3;
            let word = rgb_word(src, i);
            proof {
                let k = dy * dst_width + dx;
                assert(k < dst_width * dst_height) by (nonlinear_arith)
                    requires
                        dy < dst_height,
                        dx < dst_width,
                        k == dy * dst_width + dx,
                ;
                lemma_row_col(k as int, dst_width as int, dy as int, dx as int);
            }
            out.push(word);
            dx += 1;
        }
        proof {
            assert((dy + 1) * dst_width == dy * dst_width + dst_width) by (nonlinear_arith);
        }
        dy += 1;
    }
    proof {
        assert(dst_height * dst_width == dst_width * dst_height) by (nonlinear_arith);
        assert(out@ =~= downscaled_buffer(
            src@,
            src_width as int,
            src_height as int,
            dst_width as int,
            dst_height as int,
        ));
    }
}

} // verus!
