//! Two-stage image decoding for the clipboard: a baseline JPEG decoder first,
//! then a general decoder, both normalised to opaque 8-bit RGBA. The decoders
//! themselves run outside the library, where a decoder that panics on a
//! malformed stream can be contained; what they yield is checked and
//! normalised here.

use vstd::prelude::*;

verus! {

/// Interleaved RGB pixels with an opaque alpha byte after each; a trailing
/// partial pixel is dropped.
pub open spec fn opaque_rgba(rgb: Seq<u8>) -> Seq<u8>
    decreases rgb.len(),
{
    if rgb.len() < 3 {
        Seq::empty()
    } else {
        let n = rgb.len() / 3;
        opaque_rgba(rgb.take(3 * (n - 1))) + seq![rgb[3 * n - 3], rgb[3 * n - 2], rgb[3 * n - 1], 255u8]
    }
}

proof fn lemma_opaque_rgba_len(rgb: Seq<u8>)
    ensures
        opaque_rgba(rgb).len() == rgb.len() / 3 * 4,
    decreases rgb.len(),
{
    if rgb.len() >= 3 {
        let n = rgb.len() / 3;
        lemma_opaque_rgba_len(rgb.take(3 * (n - 1)));
    }
}

/// RGBA pixels with every alpha byte set to opaque; a trailing partial pixel
/// is dropped.
pub open spec fn opaque_alpha(rgba: Seq<u8>) -> Seq<u8>
    decreases rgba.len(),
{
    if rgba.len() < 4 {
        Seq::empty()
    } else {
        let n = rgba.len() / 4;
        opaque_alpha(rgba.take(4 * (n - 1))) + seq![rgba[4 * n - 4], rgba[4 * n - 3], rgba[4 * n - 2], 255u8]
    }
}

/// Every fourth byte, the alpha of a pixel, is opaque.
pub open spec fn all_opaque(b: Seq<u8>) -> bool {
    forall|i: int| 0 <= i < b.len() && i % 4 == 3 ==> #[trigger] b[i] == 255u8
}

proof fn lemma_last_pixel_opaque(prefix: Seq<u8>, px: Seq<u8>)
    requires
        prefix.len() % 4 == 0,
        all_opaque(prefix),
        px.len() == 4,
        px[3] == 255u8,
    ensures
        all_opaque(prefix + px),
{
    let all = prefix + px;
    assert forall|i: int| 0 <= i < all.len() && i % 4 == 3 implies #[trigger] all[i] == 255u8 by {
        if i >= prefix.len() {
            let m = prefix.len() as int;
            assert(i - m == 3) by (nonlinear_arith)
                requires m % 4 == 0, i % 4 == 3, m <= i < m + 4;
        } else {
            assert(all[i] == prefix[i]);
        }
    }
}

proof fn lemma_opaque_alpha(rgba: Seq<u8>)
    ensures
        opaque_alpha(rgba).len() == rgba.len() / 4 * 4,
        all_opaque(opaque_alpha(rgba)),
    decreases rgba.len(),
{
    if rgba.len() >= 4 {
        let n = rgba.len() / 4;
        let rest = rgba.take(4 * (n - 1));
        lemma_opaque_alpha(rest);
        assert(rest.len() / 4 * 4 == 4 * (n - 1));
        lemma_last_pixel_opaque(opaque_alpha(rest), seq![rgba[4 * n - 4], rgba[4 * n - 3], rgba[4 * n - 2], 255u8]);
    }
}

proof fn lemma_opaque_rgba(rgb: Seq<u8>)
    ensures
        all_opaque(opaque_rgba(rgb)),
    decreases rgb.len(),
{
    if rgb.len() >= 3 {
        let n = rgb.len() / 3;
        let rest = rgb.take(3 * (n - 1));
        lemma_opaque_rgba(rest);
        lemma_opaque_rgba_len(rest);
        assert(rest.len() / 3 * 4 == 4 * (n - 1));
        lemma_last_pixel_opaque(opaque_rgba(rest), seq![rgb[3 * n - 3], rgb[3 * n - 2], rgb[3 * n - 1], 255u8]);
    }
}

/// An image ready for the clipboard: `width` × `height` pixels, four bytes each.
pub struct ClipboardImage {
    pub width: u32,
    pub height: u32,
    pub bytes: Vec<u8>,
}

/// The clipboard image from the JPEG stage's output (RGB pixels, width,
/// height): present when there are three bytes for each pixel.
pub open spec fn jpeg_stage(out: Option<(Seq<u8>, u16, u16)>) -> Option<(Seq<u8>, u32, u32)> {
    match out {
        Some((p, w, h)) => if p.len() == w * h * 3 {
            Some((opaque_rgba(p), w as u32, h as u32))
        } else {
            None
        },
        None => None,
    }
}

/// The clipboard image from the general stage's output (RGBA pixels, width,
/// height): present when there are four bytes for each pixel.
pub open spec fn general_stage(out: Option<(Seq<u8>, u32, u32)>) -> Option<(Seq<u8>, u32, u32)> {
    match out {
        Some((b, w, h)) => if b.len() == w * h * 4 {
            Some((opaque_alpha(b), w, h))
        } else {
            None
        },
        None => None,
    }
}

/// The clipboard image for a payload: the JPEG stage's when it gives one, else
/// the general stage's, else nothing.
pub open spec fn clipboard_image_of(
    jpeg: Option<(Seq<u8>, u16, u16)>,
    general: Option<(Seq<u8>, u32, u32)>,
) -> Option<(Seq<u8>, u32, u32)> {
    if jpeg_stage(jpeg) is Some {
        jpeg_stage(jpeg)
    } else {
        general_stage(general)
    }
}

pub open spec fn jpeg_out_view(out: Option<(Vec<u8>, u16, u16)>) -> Option<(Seq<u8>, u16, u16)> {
    match out {
        Some((p, w, h)) => Some((p@, w, h)),
        None => None,
    }
}

pub open spec fn general_out_view(out: Option<(Vec<u8>, u32, u32)>) -> Option<(Seq<u8>, u32, u32)> {
    match out {
        Some((b, w, h)) => Some((b@, w, h)),
        None => None,
    }
}

/// Expands decoded RGB pixels to opaque RGBA.
pub fn expand_rgb(rgb: &Vec<u8>) -> (r: Vec<u8>)
    ensures
        r@ == opaque_rgba(rgb@),
{
    let n = rgb.len() / 3;
    let mut out: Vec<u8> = Vec::new();
    let mut k: usize = 0;
    while k < n
        invariant
            n == rgb.len() / 3,
            k <= n,
            out@ == opaque_rgba(rgb@.take(3 * k)),
        decreases n - k,
    {
        let ghost before = rgb@.take(3 * k);
        out.push(rgb[3 * k]);
        out.push(rgb[3 * k + 1]);
        out.push(rgb[3 * k + 2]);
        out.push(255u8);
        proof {
            let next = rgb@.take(3 * (k + 1));
            assert(next.len() / 3 == k + 1);
            assert(next.take(3 * k) == before);
        }
        k = k + 1;
    }
    proof {
        let whole = rgb@.take(3 * n);
        if rgb@.len() >= 3 {
            assert(opaque_rgba(rgb@) == opaque_rgba(whole)) by {
                let m = rgb@.len() / 3;
                assert(whole.len() / 3 == m);
                assert(whole.take(3 * (m - 1)) == rgb@.take(3 * (m - 1)));
            }
        } else {
            assert(n == 0);
        }
    }
    out
}

/// Sets the alpha byte of every pixel to opaque.
pub fn force_opaque(rgba: &Vec<u8>) -> (r: Vec<u8>)
    ensures
        r@ == opaque_alpha(rgba@),
{
    let n = rgba.len() / 4;
    let mut out: Vec<u8> = Vec::new();
    let mut k: usize = 0;
    while k < n
        invariant
            n == rgba.len() / 4,
            k <= n,
            out@ == opaque_alpha(rgba@.take(4 * k)),
        decreases n - k,
    {
        let ghost before = rgba@.take(4 * k);
        out.push(rgba[4 * k]);
        out.push(rgba[4 * k + 1]);
        out.push(rgba[4 * k + 2]);
        out.push(255u8);
        proof {
            let next = rgba@.take(4 * (k + 1));
            assert(next.len() / 4 == k + 1);
            assert(next.take(4 * k) == before);
        }
        k = k + 1;
    }
    proof {
        let whole = rgba@.take(4 * n);
        if rgba@.len() >= 4 {
            assert(opaque_alpha(rgba@) == opaque_alpha(whole)) by {
                let m = rgba@.len() / 4;
                assert(whole.len() / 4 == m);
                assert(whole.take(4 * (m - 1)) == rgba@.take(4 * (m - 1)));
            }
        } else {
            assert(n == 0);
        }
    }
    out
}

/// The clipboard image for the JPEG stage's output: present exactly when there
/// are three bytes for each of the `width` × `height` pixels.
pub fn rgba_from_jpeg(pixels: &Vec<u8>, width: u16, height: u16) -> (r: Option<ClipboardImage>)
    ensures
        pixels@.len() == width * height * 3 <==> r is Some,
        r matches Some(img) ==> img.width == width && img.height == height
            && img.bytes@ == opaque_rgba(pixels@),
{
    proof {
        assert((width as u64) * (height as u64) <= 0xffff * 0xffff) by (nonlinear_arith)
            requires width <= 0xffff, height <= 0xffff;
    }
    let expected: u64 = (width as u64) * (height as u64) * 3;
    if pixels.len() as u64 != expected {
        return None;
    }
    Some(ClipboardImage { width: width as u32, height: height as u32, bytes: expand_rgb(pixels) })
}

/// The clipboard image for the general stage's output: present exactly when
/// there are four bytes for each of the `width` × `height` pixels; every pixel
/// is made opaque.
pub fn rgba_from_general(bytes: Vec<u8>, width: u32, height: u32) -> (r: Option<ClipboardImage>)
    ensures
        bytes@.len() == width * height * 4 <==> r is Some,
        r matches Some(img) ==> img.width == width && img.height == height
            && img.bytes@ == opaque_alpha(bytes@),
{
    proof {
        assert((width as u128) * (height as u128) <= 0xffff_ffff * 0xffff_ffff) by (nonlinear_arith)
            requires width <= 0xffff_ffff, height <= 0xffff_ffff;
    }
    let expected: u128 = (width as u128) * (height as u128) * 4;
    if bytes.len() as u128 != expected {
        return None;
    }
    Some(ClipboardImage { width, height, bytes: force_opaque(&bytes) })
}

/// Why an action could not be carried out.
#[derive(Clone, Copy, PartialEq, Eq, Debug)]
pub enum DispatchError {
    /// Neither decoder produced an image from the bytes.
    Undecodable,
    /// The system clipboard could not be opened or written.
    ClipboardUnavailable,
    /// The chosen file could not be written.
    WriteFailed,
}

/// The first stage: the clipboard image from what the JPEG decoder yielded,
/// if it yielded a usable one; otherwise the general stage is to be tried.
pub fn from_jpeg_stage(out: Option<(Vec<u8>, u16, u16)>) -> (r: Option<ClipboardImage>)
    ensures
        match (r, jpeg_stage(jpeg_out_view(out))) {
            (Some(img), Some((b, w, h))) => img.bytes@ == b && img.width == w && img.height == h,
            (None, None) => true,
            _ => false,
        },
{
    match out {
        Some((pixels, width, height)) => rgba_from_jpeg(&pixels, width, height),
        None => None,
    }
}

/// The second stage: the clipboard image from what the general decoder
/// yielded, or `Undecodable` when it yielded nothing usable.
pub fn from_general_stage(out: Option<(Vec<u8>, u32, u32)>) -> (r: Result<ClipboardImage, DispatchError>)
    ensures
        match (r, general_stage(general_out_view(out))) {
            (Ok(img), Some((b, w, h))) => img.bytes@ == b && img.width == w && img.height == h,
            (Err(e), None) => e == DispatchError::Undecodable,
            _ => false,
        },
{
    match out {
        Some((bytes, width, height)) => match rgba_from_general(bytes, width, height) {
            Some(img) => Ok(img),
            None => Err(DispatchError::Undecodable),
        },
        None => Err(DispatchError::Undecodable),
    }
}

/// Whatever stage decoded it, a clipboard image has the size that decoder
/// reported, four bytes per pixel, and an opaque alpha byte in every pixel.
pub proof fn lemma_clipboard_image_size(jpeg: Option<(Seq<u8>, u16, u16)>, general: Option<(Seq<u8>, u32, u32)>)
    ensures
        clipboard_image_of(jpeg, general) matches Some((b, w, h)) ==> {
            &&& b.len() == w * h * 4
            &&& all_opaque(b)
            &&& (jpeg matches Some((_, jw, jh)) && jw == w && jh == h)
                || (general matches Some((_, gw, gh)) && gw == w && gh == h)
        },
{
    if let Some((p, w, h)) = jpeg {
        if p.len() == w * h * 3 {
            lemma_opaque_rgba_len(p);
            lemma_opaque_rgba(p);
            assert(p.len() / 3 * 4 == w * h * 4);
        }
    }
    if let Some((b, w, h)) = general {
        if b.len() == w * h * 4 {
            lemma_opaque_alpha(b);
            assert(b.len() / 4 * 4 == w * h * 4);
        }
    }
}

} // verus!
