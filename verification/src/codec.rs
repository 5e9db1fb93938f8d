//! The PNG codec boundary: the two places the core hands pixel data to the
//! `image` crate, each behind a small trusted wrapper, and the verified
//! functions built on them — decoding straight into the tiling engine, and
//! encoding a tile sequence for upload.

use vstd::prelude::*;
use crate::raster::Image;
use crate::tiling::Emojify;
use crate::tiling::transform;
use crate::tiling::transform_ok;

verus! {

/// The decoder rejected the bytes; `detail` carries its diagnostic text for
/// the user-facing report.
#[derive(Clone, Debug, PartialEq, Eq)]
pub struct DecodeError {
    pub detail: String,
}

/// The encoder failed on the tile at `index`; `detail` carries its
/// diagnostic text.
#[derive(Clone, Debug, PartialEq, Eq)]
pub struct EncodeError {
    pub index: usize,
    pub detail: String,
}

/// What the PNG decoder yields on the given bytes: `Some` of width, height
/// and the RGBA buffer when the bytes decode, `None` when the decoder
/// rejects them. Both the outcome and the value are functions of the bytes
/// alone.
pub uninterp spec fn png_decoded(bytes: Seq<u8>) -> Option<(nat, nat, Seq<u8>)>;

/// What the PNG encoder yields for an RGBA image of the given dimensions and
/// buffer: `Some` of the encoded bytes when encoding succeeds, `None` when
/// the encoder rejects the image. Both are functions of its input alone.
pub uninterp spec fn png_encoded(width: nat, height: nat, pixels: Seq<u8>) -> Option<Seq<u8>>;

/// Relies on `image::load_from_memory_with_format` with the built-in PNG
/// format and `DynamicImage::to_rgba8`: with the format fixed and default
/// limits, both the decoder's verdict and its output are deterministic in
/// the bytes, and the returned buffer covers `width * height` pixels at four
/// bytes each (the `ImageBuffer` container invariant).
#[verifier::external_body]
fn decode_png(bytes: &Vec<u8>) -> (r: Result<Image, DecodeError>)
    ensures
        (r is Ok) <==> (png_decoded(bytes@) is Some),
        r matches Ok(img) ==> img.wf() && png_decoded(bytes@) == Some(
            (img.width as nat, img.height as nat, img.pixels@),
        ),
{
    match image::load_from_memory_with_format(bytes, image::ImageFormat::Png) {
        Ok(decoded) => {
            let rgba = decoded.to_rgba8();
            let width = rgba.width();
            let height = rgba.height();
            let pixels = rgba.into_raw();
            Ok(Image { width, height, pixels })
        },
        Err(e) => Err(DecodeError { detail: format!("{:?}", e) }),
    }
}

/// Relies on `image::RgbaImage::from_raw`, which accepts any buffer covering
/// the dimensions, and `ImageBuffer::write_to` with the PNG format and its
/// fixed encoder settings: the verdict and the output are deterministic in
/// the image handed over.
#[verifier::external_body]
fn encode_png(tile: &Image) -> (r: Result<Vec<u8>, String>)
    requires
        tile.wf(),
    ensures
        (r is Ok) <==> (png_encoded(tile.width as nat, tile.height as nat, tile.pixels@)
            is Some),
        r matches Ok(b) ==> png_encoded(tile.width as nat, tile.height as nat, tile.pixels@)
            == Some(b@),
{
    let rgba = match image::RgbaImage::from_raw(tile.width, tile.height, tile.pixels.clone()) {
        Some(rgba) => rgba,
        None => {
            return Err(format!("buffer shorter than the image dimensions need"));
        },
    };
    let mut out = std::io::Cursor::new(Vec::new());
    match rgba.write_to(&mut out, image::ImageFormat::Png) {
        Ok(()) => Ok(out.into_inner()),
        Err(e) => Err(format!("{:?}", e)),
    }
}

/// `e` is the tiling of the image that the PNG decoder yields on `bytes`.
pub open spec fn emojified_from(bytes: Seq<u8>, e: Emojify) -> bool {
    exists|img: Image|
        img.wf() && png_decoded(bytes) == Some(
            (img.width as nat, img.height as nat, img.pixels@),
        ) && #[trigger] transform_ok(img, e)
}

/// Decodes PNG bytes and tiles the decoded image: the computing core of the
/// picture-upload step. It succeeds exactly when the decoder accepts the
/// bytes, and the result is then the tiling of exactly the image the decoder
/// produced; otherwise the decoder's diagnostic comes back for the
/// user-facing report.
pub fn emojify_png(png_bytes: &Vec<u8>) -> (r: Result<Emojify, DecodeError>)
    ensures
        (r is Ok) <==> (png_decoded(png_bytes@) is Some),
        r matches Ok(e) ==> emojified_from(png_bytes@, e),
{
    let img = match decode_png(png_bytes) {
        Ok(img) => img,
        Err(e) => {
            return Err(e);
        },
    };
    match transform(&img) {
        Ok(e) => {
            proof {
                assert(transform_ok(img, e));
                assert(emojified_from(png_bytes@, e));
            }
            Ok(e)
        },
        Err(_) => unreached(),
    }
}

/// The encoder accepts every tile of the sequence.
pub open spec fn all_tiles_encodable(tiles: Seq<Image>) -> bool {
    forall|i: int|
        0 <= i < tiles.len() ==> (#[trigger] png_encoded(
            tiles[i].width as nat,
            tiles[i].height as nat,
            tiles[i].pixels@,
        )) is Some
}

/// Encodes every tile to PNG bytes, preserving order: the bytes at index `i`
/// are the encoding of tile `i`. It succeeds exactly when the encoder
/// accepts every tile; the first failing tile aborts the whole encoding with
/// its index, so no later tile can slide into an earlier slot.
pub fn encode_tiles(tiles: &Vec<Image>) -> (r: Result<Vec<Vec<u8>>, EncodeError>)
    requires
        forall|i: int| 0 <= i < tiles@.len() ==> (#[trigger] tiles@[i]).wf(),
    ensures
        (r is Ok) <==> all_tiles_encodable(tiles@),
        r matches Ok(encoded) ==> encoded@.len() == tiles@.len() && forall|i: int|
            0 <= i < tiles@.len() ==> png_encoded(
                tiles@[i].width as nat,
                tiles@[i].height as nat,
                tiles@[i].pixels@,
            ) == Some((#[trigger] encoded@[i])@),
        r matches Err(err) ==> err.index < tiles@.len() && !(png_encoded(
            tiles@[err.index as int].width as nat,
            tiles@[err.index as int].height as nat,
            tiles@[err.index as int].pixels@,
        ) is Some),
{
    let mut encoded: Vec<Vec<u8>> = Vec::new();
    let n = tiles.len();
    for i in 0..n
        invariant
            n == tiles@.len(),
            forall|j: int| 0 <= j < tiles@.len() ==> (#[trigger] tiles@[j]).wf(),
            encoded@.len() == i,
            forall|j: int|
                0 <= j < i ==> png_encoded(
                    tiles@[j].width as nat,
                    tiles@[j].height as nat,
                    tiles@[j].pixels@,
                ) == Some((#[trigger] encoded@[j])@),
    {
        match encode_png(&tiles[i]) {
            Ok(bytes) => {
                encoded.push(bytes);
            },
            Err(detail) => {
                return Err(EncodeError { index: i, detail });
            },
        }
    }
    proof {
        assert forall|j: int|
            0 <= j < tiles@.len() implies (#[trigger] png_encoded(
            tiles@[j].width as nat,
            tiles@[j].height as nat,
            tiles@[j].pixels@,
        )) is Some by {
            assert(png_encoded(tiles@[j].width as nat, tiles@[j].height as nat, tiles@[j].pixels@)
                == Some(encoded@[j]@));
        }
    }
    Ok(encoded)
}

} // verus!
