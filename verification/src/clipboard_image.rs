//! Image bytes for the clipboard, in the platform's pixel order.

use vstd::prelude::*;

verus! {

/// Spec: RGBA8 pixels as clipboard bytes, whole pixels only; with
/// `swap_red_blue` each pixel is written blue, green, red, alpha.
pub open spec fn clipboard_bytes(rgba: Seq<u8>, swap_red_blue: bool) -> Seq<u8> {
    Seq::new(
        ((rgba.len() / 4) * 4) as nat,
        |i: int|
            {
                let base = 4 * (i / 4);
                let c = i % 4;
                if swap_red_blue && c == 0 {
                    rgba[base + 2]
                } else if swap_red_blue && c == 2 {
                    rgba[base]
                } else {
                    rgba[i]
                }
            },
    )
}

/// Every whole pixel is converted alike, wherever it stands: with
/// `swap_red_blue` its red and blue bytes trade places, otherwise it is kept;
/// a trailing partial pixel is dropped.
pub proof fn law_each_pixel_converted_alike(rgba: Seq<u8>, swap_red_blue: bool)
    ensures
        clipboard_bytes(rgba, swap_red_blue).len() == (rgba.len() / 4) * 4,
        forall|k: int|
            0 <= k < rgba.len() / 4 ==> #[trigger] clipboard_bytes(rgba, swap_red_blue).subrange(
                4 * k,
                4 * k + 4,
            ) == (if swap_red_blue {
                seq![rgba[4 * k + 2], rgba[4 * k + 1], rgba[4 * k], rgba[4 * k + 3]]
            } else {
                rgba.subrange(4 * k, 4 * k + 4)
            }),
{
    let out = clipboard_bytes(rgba, swap_red_blue);
    assert forall|k: int| 0 <= k < rgba.len() / 4 implies #[trigger] out.subrange(4 * k, 4 * k + 4)
        == (if swap_red_blue {
        seq![rgba[4 * k + 2], rgba[4 * k + 1], rgba[4 * k], rgba[4 * k + 3]]
    } else {
        rgba.subrange(4 * k, 4 * k + 4)
    }) by {
        assert(4 * k + 4 <= (rgba.len() / 4) * 4) by (nonlinear_arith)
            requires
                0 <= k < rgba.len() / 4,
        ;
        assert((rgba.len() / 4) * 4 <= rgba.len()) by (nonlinear_arith);
        vstd::arithmetic::div_mod::lemma_fundamental_div_mod_converse(4 * k, 4, k, 0);
        vstd::arithmetic::div_mod::lemma_fundamental_div_mod_converse(4 * k + 1, 4, k, 1);
        vstd::arithmetic::div_mod::lemma_fundamental_div_mod_converse(4 * k + 2, 4, k, 2);
        vstd::arithmetic::div_mod::lemma_fundamental_div_mod_converse(4 * k + 3, 4, k, 3);
        assert((4 * k + 0) / 4 == k && (4 * k + 0) % 4 == 0);
        assert((4 * k + 1) / 4 == k && (4 * k + 1) % 4 == 1);
        assert((4 * k + 2) / 4 == k && (4 * k + 2) % 4 == 2);
        assert((4 * k + 3) / 4 == k && (4 * k + 3) % 4 == 3);
        if swap_red_blue {
            assert(out.subrange(4 * k, 4 * k + 4) =~= seq![
                rgba[4 * k + 2],
                rgba[4 * k + 1],
                rgba[4 * k],
                rgba[4 * k + 3],
            ]);
        } else {
            assert(out.subrange(4 * k, 4 * k + 4) =~= rgba.subrange(4 * k, 4 * k + 4));
        }
    }
}

/// Convert RGBA8 image bytes to the clipboard's pixel order (`swap_red_blue`
/// where the clipboard wants BGRA).
pub fn rgba_to_clipboard_bytes(rgba: &[u8], swap_red_blue: bool) -> (bytes: Vec<u8>)
    ensures
        bytes@ == clipboard_bytes(rgba@, swap_red_blue),
        bytes@.len() == (rgba@.len() / 4) * 4,
        forall|k: int|
            0 <= k < rgba@.len() / 4 ==> #[trigger] bytes@.subrange(4 * k, 4 * k + 4) == (
            if swap_red_blue {
                seq![rgba@[4 * k + 2], rgba@[4 * k + 1], rgba@[4 * k], rgba@[4 * k + 3]]
            } else {
                rgba@.subrange(4 * k, 4 * k + 4)
            }),
{
    let pixels = rgba.len() / 4;
    let mut bytes: Vec<u8> = Vec::new();
    let mut p: usize = 0;
    while p < pixels
        invariant
            p <= pixels,
            pixels == rgba@.len() / 4,
            pixels * 4 <= rgba.len(),
            bytes@ =~= clipboard_bytes(rgba@, swap_red_blue).take(4 * p),
        decreases pixels - p,
    {
        let base = 4 * p;
        let (r, g, b, a) = (rgba[base], rgba[base + 1], rgba[base + 2], rgba[base + 3]);
        if swap_red_blue {
            bytes.push(b);
            bytes.push(g);
            bytes.push(r);
        } else {
            bytes.push(r);
            bytes.push(g);
            bytes.push(b);
        }
        bytes.push(a);
        proof {
            let full = clipboard_bytes(rgba@, swap_red_blue);
            assert forall|i: int| 0 <= i < 4 * p + 4 implies #[trigger] bytes@[i] == full.take(
                4 * p + 4,
            )[i] by {
                if i >= 4 * p {
                    assert(i / 4 == p as int);
                    assert(i % 4 == i - 4 * p);
                } else {
                    assert(bytes@[i] == full.take(4 * p)[i]);
                }
            }
            assert(bytes@ =~= full.take(4 * p + 4));
        }
        p += 1;
    }
    proof {
        assert(clipboard_bytes(rgba@, swap_red_blue).take(4 * pixels) =~= clipboard_bytes(
            rgba@,
            swap_red_blue,
        ));
        law_each_pixel_converted_alike(rgba@, swap_red_blue);
    }
    bytes
}

/// Error for an image without pixels.
pub const EMPTY_IMAGE_ERROR: &'static str = "cannot copy empty image to clipboard";

/// An image can be copied to the clipboard only when it has pixels.
pub fn check_clipboard_image_size(width: u32, height: u32) -> (r: Result<(), String>)
    ensures
        width == 0 || height == 0 ==> (r matches Err(m) && m@ == EMPTY_IMAGE_ERROR@),
        width != 0 && height != 0 ==> r is Ok,
{
    if width == 0 || height == 0 {
        return Err(EMPTY_IMAGE_ERROR.to_owned());
    }
    Ok(())
}

} // verus!
