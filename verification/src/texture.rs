//! Textures: the handle the resource store keeps for an uploaded 2D
//! image, and the preparation of decoded pixel data for upload — the
//! decode of the embedded PNG asset through the `image` crate, and the
//! vertical flip that moves the rows into the sampling convention the
//! shaders assume.

use vstd::prelude::*;
use vstd::arithmetic::div_mod::{
    lemma_fundamental_div_mod, lemma_fundamental_div_mod_converse, lemma_mod_bound,
};
use vstd::arithmetic::mul::{lemma_mul_inequality, lemma_mul_is_distributive_sub_other_way};
use crate::resource::ResourceError;

verus! {

/// An uploaded 2D image, by its native handle and pixel dimensions.
/// Zero stands for "no texture": the native API never hands out zero
/// for an uploaded texture.
#[derive(Clone, Copy, Debug, PartialEq, Eq, Structural)]
pub struct Texture {
    pub id: u32,
    pub width: u32,
    pub height: u32,
}

impl Texture {
    pub fn new() -> (t: Texture)
        ensures
            t.id == 0,
            t.width == 0,
            t.height == 0,
    {
        Texture { id: 0, width: 0, height: 0 }
    }
}

/// Decoded, flipped RGBA pixel data, ready for upload: `pixels` holds
/// `height` rows of `4 * width` bytes each.
pub struct TextureImage {
    pub width: u32,
    pub height: u32,
    pub pixels: Vec<u8>,
}

impl TextureImage {
    pub open spec fn wf(self) -> bool {
        self.pixels@.len() == 4 * self.width * self.height
    }
}

/// The pixel rows of `p` in reverse order: `p` holds `h` rows of
/// `4 * w` bytes each, and row `r` of the result is row `h - 1 - r` of
/// `p`. Indices that would fall outside `p` are left in place, which
/// keeps the definition total; they cannot arise when `p` has the
/// stated length.
pub open spec fn flip_rows(p: Seq<u8>, w: nat, h: nat) -> Seq<u8> {
    if w == 0 {
        p
    } else {
        Seq::new(
            p.len(),
            |k: int|
                {
                    let row_len = 4 * w as int;
                    let src = (h - 1 - k / row_len) * row_len + k % row_len;
                    if 0 <= src < p.len() {
                        p[src]
                    } else {
                        p[k]
                    }
                },
        )
    }
}

/// Where output byte `k` of a flip comes from: its row and column, and
/// that the source index lands inside the buffer and reverses back to
/// `k`.
proof fn lemma_flip_src(row_len: int, h: int, k: int)
    requires
        row_len >= 1,
        h >= 1,
        0 <= k < row_len * h,
    ensures
        ({
            let q = k / row_len;
            let c = k % row_len;
            let src = (h - 1 - q) * row_len + c;
            &&& 0 <= c < row_len
            &&& 0 <= q < h
            &&& 0 <= src < row_len * h
            &&& src / row_len == h - 1 - q
            &&& src % row_len == c
        }),
{
    let q = k / row_len;
    let c = k % row_len;
    lemma_fundamental_div_mod(k, row_len);
    lemma_mod_bound(k, row_len);
    assert(row_len * q <= k);
    assert(q < h) by {
        if q >= h {
            lemma_mul_inequality(h, q, row_len);
            assert(h * row_len <= q * row_len);
        }
    }
    assert(q >= 0) by {
        if q < 0 {
            assert(row_len * q <= row_len * (-1)) by {
                lemma_mul_inequality(q, -1, row_len);
            }
        }
    }
    let src = (h - 1 - q) * row_len + c;
    assert(src < row_len * h) by {
        lemma_mul_inequality(h - 1 - q, h - 1, row_len);
        lemma_mul_is_distributive_sub_other_way(row_len, h, 1);
    }
    lemma_fundamental_div_mod_converse(src, row_len, h - 1 - q, c);
}

/// Reverses the rows of a pixel buffer of `height` rows of `4 * width`
/// bytes: the vertical flip applied to decoded image data before
/// upload.
pub fn flip_vertical(p: &Vec<u8>, width: u32, height: u32) -> (r: Vec<u8>)
    requires
        p@.len() == 4 * width * height,
    ensures
        r@ == flip_rows(p@, width as nat, height as nat),
{
    let len = p.len();
    if width == 0 || height == 0 {
        proof {
            assert(4 * width as int * height as int == 0) by (nonlinear_arith)
                requires
                    width == 0 || height == 0,
            ;
        }
        let out: Vec<u8> = Vec::new();
        assert(out@ =~= flip_rows(p@, width as nat, height as nat));
        return out;
    }
    proof {
        assert(4 * width as int <= 4 * width as int * height as int) by (nonlinear_arith)
            requires
                width as int >= 1,
                height as int >= 1,
        ;
    }
    let row_len: usize = 4 * (width as usize);
    let mut out: Vec<u8> = Vec::new();
    let mut k: usize = 0;
    while k < len
        invariant
            p@.len() == 4 * width * height,
            len == p@.len(),
            width >= 1,
            height >= 1,
            row_len == 4 * width,
            len == row_len * height,
            k <= len,
            out@.len() == k,
            forall|t: int|
                0 <= t < k ==> out@[t] == flip_rows(p@, width as nat, height as nat)[t],
        decreases len - k,
    {
        proof {
            lemma_flip_src(row_len as int, height as int, k as int);
        }
        let q = k / row_len;
        let c = k % row_len;
        let src = (height as usize - 1 - q) * row_len + c;
        out.push(p[src]);
        k = k + 1;
    }
    assert(out@ =~= flip_rows(p@, width as nat, height as nat));
    out
}

/// Flipping twice gives the original buffer back: the flip is its own
/// inverse, so the vertical sampling convention is a single, explicit
/// choice rather than an accumulating transformation.
pub proof fn lemma_flip_twice(p: Seq<u8>, w: nat, h: nat)
    requires
        p.len() == 4 * w * h,
    ensures
        flip_rows(flip_rows(p, w, h), w, h) == p,
{
    if w == 0 || h == 0 {
        assert(flip_rows(flip_rows(p, w, h), w, h) =~= p);
    } else {
        let row_len = 4 * w as int;
        let once = flip_rows(p, w, h);
        assert(p.len() == row_len * h);
        assert forall|k: int| 0 <= k < p.len() implies flip_rows(once, w, h)[k] == p[k] by {
            lemma_flip_src(row_len, h as int, k);
            let q = k / row_len;
            let c = k % row_len;
            let src = (h - 1 - q) * row_len + c;
            lemma_flip_src(row_len, h as int, src);
            lemma_fundamental_div_mod(k, row_len);
            assert(h - 1 - src / row_len == q);
            assert((h - 1 - src / row_len) * row_len == q * row_len);
            assert((h - 1 - src / row_len) * row_len + src % row_len == k);
            assert(once.len() == p.len());
            assert(once[src] == p[k]);
            assert(flip_rows(once, w, h)[k] == once[src]);
        }
        assert(flip_rows(flip_rows(p, w, h), w, h) =~= p);
    }
}

/// image::DynamicImage, declared so that a decoded image can be
/// carried from the decode call to the pixel extraction; its contents
/// are only read through `rgba_bytes`.
#[verifier::external_type_specification]
#[verifier::external_body]
pub struct ExDynamicImage(image::DynamicImage);

/// image::error::ImageError, the error a failed decode reports; it is
/// mapped to `ResourceError::DecodeFailed` and never inspected.
#[verifier::external_type_specification]
#[verifier::external_body]
pub struct ExImageError(image::error::ImageError);

/// The dimensions and RGBA bytes, four per pixel and row by row from
/// the top, of a decoded image.
pub uninterp spec fn img_rgba(img: image::DynamicImage) -> (u32, u32, Seq<u8>);

/// The dimensions and RGBA bytes of the image a PNG byte stream
/// decodes to: a function of the bytes alone.
pub uninterp spec fn png_rgba_of(data: Seq<u8>) -> (u32, u32, Seq<u8>);

/// Whether a byte stream decodes as a PNG image: like the decoded
/// pixels, a function of the bytes alone, since the decoder reads
/// nothing but the stream and a fixed allocation limit.
pub uninterp spec fn png_decodes(data: Seq<u8>) -> bool;

/// Relies on image::load_from_memory_with_format with the PNG format:
/// decoding is a function of the byte stream alone — the decoder reads
/// nothing but the bytes, under fixed default limits — so whether
/// `data` decodes, and to what pixels and dimensions, is the same on
/// every call.
#[verifier::external_body]
fn load_png(data: &[u8]) -> (r: Result<image::DynamicImage, image::error::ImageError>)
    ensures
        r is Ok <==> png_decodes(data@),
        r matches Ok(img) ==> img_rgba(img) == png_rgba_of(data@),
{
    image::load_from_memory_with_format(data, image::ImageFormat::Png)
}

/// Relies on image::DynamicImage::to_rgba8 and the RGBA image buffer
/// it returns (ImageBuffer::dimensions, ImageBuffer::into_raw): the
/// buffer holds the image's pixels as four bytes each, row by row from
/// the top.
#[verifier::external_body]
fn rgba_bytes(img: &image::DynamicImage) -> (r: (u32, u32, Vec<u8>))
    ensures
        (r.0, r.1, r.2@) == img_rgba(*img),
{
    let buffer = img.to_rgba8();
    let (width, height) = buffer.dimensions();
    (width, height, buffer.into_raw())
}

/// Builds the upload-ready form of decoded RGBA pixel data: checks
/// that the buffer holds exactly `height` rows of `4 * width` bytes,
/// and flips the rows into the shaders' sampling convention. Accepts
/// exactly the buffers of the right length.
pub fn prepare_texture_image(width: u32, height: u32, pixels: Vec<u8>) -> (r: Result<
    TextureImage,
    ResourceError,
>)
    ensures
        r matches Ok(t) ==> {
            &&& pixels@.len() == 4 * width * height
            &&& t.width == width
            &&& t.height == height
            &&& t.pixels@ == flip_rows(pixels@, width as nat, height as nat)
            &&& t.wf()
        },
        r matches Err(e) ==> {
            &&& pixels@.len() != 4 * width * height
            &&& e == ResourceError::SizeMismatch
        },
{
    proof {
        assert(0 <= 4 * (width as int) * (height as int)
            < 0x1_0000_0000_0000_0000_0000_0000_0000_0000) by (nonlinear_arith)
            requires
                0 <= width as int <= 0xffff_ffff,
                0 <= height as int <= 0xffff_ffff,
        ;
    }
    let expected: u128 = 4u128 * (width as u128) * (height as u128);
    if (pixels.len() as u128) != expected {
        proof {
            assert(pixels@.len() != 4 * width * height);
        }
        return Err(ResourceError::SizeMismatch);
    }
    proof {
        assert(pixels@.len() == 4 * width * height);
    }
    let flipped = flip_vertical(&pixels, width, height);
    Ok(TextureImage { width, height, pixels: flipped })
}

/// Decodes a PNG byte stream and prepares its pixels for upload: the
/// decode is the `image` crate's, everything after it is checked.
/// Succeeds exactly when the stream decodes and the decoded buffer
/// holds its dimensions' worth of RGBA bytes; the result then holds
/// exactly the decoded image, its rows flipped. A stream that does not
/// decode reports `DecodeFailed`, if and only if; a decoded buffer of
/// unexpected length reports `SizeMismatch`.
pub fn decode_texture_image(data: &[u8]) -> (r: Result<TextureImage, ResourceError>)
    ensures
        r is Ok <==> png_decodes(data@) && png_rgba_of(data@).2.len() == 4 * png_rgba_of(
            data@,
        ).0 * png_rgba_of(data@).1,
        r == Err::<TextureImage, ResourceError>(ResourceError::DecodeFailed) <==> !png_decodes(
            data@,
        ),
        r matches Ok(t) ==> {
            &&& t.width == png_rgba_of(data@).0
            &&& t.height == png_rgba_of(data@).1
            &&& t.pixels@ == flip_rows(
                png_rgba_of(data@).2,
                png_rgba_of(data@).0 as nat,
                png_rgba_of(data@).1 as nat,
            )
            &&& t.wf()
        },
        r matches Err(e) ==> e == ResourceError::DecodeFailed || e
            == ResourceError::SizeMismatch,
{
    match load_png(data) {
        Err(_) => Err(ResourceError::DecodeFailed),
        Ok(img) => {
            let (width, height, pixels) = rgba_bytes(&img);
            prepare_texture_image(width, height, pixels)
        },
    }
}

} // verus!
