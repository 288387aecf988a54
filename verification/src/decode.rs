//! Loading a raster from an encoded image file held in memory.
//!
//! The file is decoded by the `image` crate. The library hands it only
//! files of the formats whose decoders are known to return on every input
//! within the bounds set here: BMP, DDS, farbfeld and PNM, told by their
//! leading bytes, with no side longer than `MAX_SIDE`. A file of any other
//! format is turned away before the decoder is called. Every answer of the
//! decoder is checked and binarized before it becomes a raster.

use crate::image::{Image, ImageView};
use vstd::prelude::*;

verus! {

/// The threshold at which a freshly loaded raster is binarized.
pub const LOAD_THRESHOLD: u8 = 128;

/// The longest side, in pixels, that the decoder is allowed to report. Four
/// bytes for every pixel of a square of this side still fit the largest
/// buffer of a machine with 32-bit addresses.
pub const MAX_SIDE: u32 = 0x4000;

/// The error type of the `image` crate's decoders. Nothing is known of its
/// content here.
#[verifier::external_type_specification]
#[verifier::external_body]
pub struct ExImageError(::image::ImageError);

/// Why no raster came out of a load.
#[derive(Clone, Copy, Debug, PartialEq, Eq, Structural)]
pub enum LoadError {
    /// The data is no image in a format that the library decodes, the
    /// decoder rejected it, or its decoding did not yield a buffer of four
    /// bytes per pixel.
    DecodeFailure,
}

/// Whether `data` begins with the signature of a format that the library
/// decodes: `BM` (BMP), `P1` to `P7` (PNM), `DDS ` (DDS) or `farbfeld`.
pub open spec fn vouched(data: Seq<u8>) -> bool {
    ||| data.len() >= 2 && data[0] == 0x42 && data[1] == 0x4d
    ||| data.len() >= 2 && data[0] == 0x50 && 0x31 <= data[1] <= 0x37
    ||| data.len() >= 4 && data[0] == 0x44 && data[1] == 0x44 && data[2] == 0x53 && data[3] == 0x20
    ||| data.len() >= 8 && data[0] == 0x66 && data[1] == 0x61 && data[2] == 0x72 && data[3] == 0x62
        && data[4] == 0x66 && data[5] == 0x65 && data[6] == 0x6c && data[7] == 0x64
}

/// Whether `data` begins with the signature of a format that the library
/// decodes.
pub fn vouches(data: &Vec<u8>) -> (r: bool)
    ensures
        r == vouched(data@),
{
    let n = data.len();
    (n >= 2 && data[0] == 0x42 && data[1] == 0x4d) || (n >= 2 && data[0] == 0x50 && 0x31 <= data[1]
        && data[1] <= 0x37) || (n >= 4 && data[0] == 0x44 && data[1] == 0x44 && data[2] == 0x53
        && data[3] == 0x20) || (n >= 8 && data[0] == 0x66 && data[1] == 0x61 && data[2] == 0x72
        && data[3] == 0x62 && data[4] == 0x66 && data[5] == 0x65 && data[6] == 0x6c && data[7]
        == 0x64)
}

/// What the `image` crate makes of an encoded image when no side may be
/// longer than `max_side`: the RGBA8 buffer, the width and the height, or
/// `None` where it rejects the data. Only `decode_rgba8` says anything of
/// it.
pub uninterp spec fn decoded(data: Seq<u8>, max_side: u32) -> Option<(Seq<u8>, u32, u32)>;

/// Decodes `data` with the `image` crate, as `image::io::Reader` does for a
/// file in memory: `Reader::new` wraps the bytes, `Reader::limits` sets
/// `max_image_width` and `max_image_height` to `max_side` beside the default
/// bound on allocation, `with_guessed_format` picks the format by the
/// leading bytes, `decode` reads the image, and `DynamicImage::to_rgba8`,
/// `width` and `height` give the buffer and its size.
///
/// Believed, not proved, of data that begins with one of the signatures of
/// `vouched`, which lead to the BMP, PNM, DDS and farbfeld decoders and to
/// no other: the call returns; whether it accepts the data and, if so, the
/// buffer and the size depend on the bytes and on `max_side` alone, which
/// is what `decoded` names; and an accepted image has no side longer than
/// `max_side`, since the reader checks both limits before any sample is
/// read. With sides of at most 0x4000 and the default bound on allocation
/// no size that the decoders or the conversion compute leaves `u32`, or
/// `usize` on a machine with 32-bit addresses. Nothing is claimed of which
/// data decode, of the pixels, or of the buffer's length.
#[verifier::external_body]
fn decode_rgba8(data: &Vec<u8>, max_side: u32) -> (r: Result<
    (Vec<u8>, u32, u32),
    ::image::ImageError,
>)
    requires
        vouched(data@),
        max_side <= 0x4000,
    ensures
        match r {
            Ok(raster) => decoded(data@, max_side) == Some((raster.0@, raster.1, raster.2))
                && raster.1 <= max_side && raster.2 <= max_side,
            Err(_) => decoded(data@, max_side).is_none(),
        },
{
    let mut limits = ::image::io::Limits::default();
    limits.max_image_width = Some(max_side);
    limits.max_image_height = Some(max_side);
    let mut reader = ::image::io::Reader::new(std::io::Cursor::new(&data[..]));
    reader.limits(limits);
    let reader = match reader.with_guessed_format() {
        Ok(reader) => reader,
        Err(error) => return Err(::image::ImageError::IoError(error)),
    };
    let decoded = reader.decode()?;
    Ok((decoded.to_rgba8().into_raw(), decoded.width(), decoded.height()))
}

/// The raster that loading makes of a decoder's output: the decoded buffer
/// binarized at `LOAD_THRESHOLD`. There is none where the buffer does not
/// hold four bytes per pixel.
pub open spec fn loaded(bytes: Seq<u8>, width: u32, height: u32) -> Option<ImageView> {
    if bytes.len() == 4 * (width * height) {
        Some(ImageView::from_bytes(bytes, width as nat, height as nat).binarize(LOAD_THRESHOLD))
    } else {
        None
    }
}

/// The raster that loading makes of a file: what `loaded` makes of the
/// decoder's answer, where the file is of a format that the library decodes
/// and the decoder accepts it with no side longer than `MAX_SIDE`.
pub open spec fn load_of(data: Seq<u8>) -> Option<ImageView> {
    if vouched(data) {
        match decoded(data, MAX_SIDE) {
            Some((bytes, width, height)) => loaded(bytes, width, height),
            None => None,
        }
    } else {
        None
    }
}

impl Image {
    /// Makes a raster of a decoder's output and binarizes it at
    /// `LOAD_THRESHOLD`. Fails where `bytes` does not hold four bytes for
    /// each of the `width * height` pixels.
    pub fn from_decoded(bytes: Vec<u8>, width: u32, height: u32) -> (r: Result<Image, LoadError>)
        ensures
            match loaded(bytes@, width, height) {
                Some(view) => r matches Ok(image) && image@ == view && view.wf(),
                None => r == Err::<Image, LoadError>(LoadError::DecodeFailure),
            },
    {
        match Image::from_rgba8(bytes, width, height) {
            Some(raw) => Ok(raw.binarize(LOAD_THRESHOLD)),
            None => Err(LoadError::DecodeFailure),
        }
    }

    /// Decodes an encoded image and binarizes it at `LOAD_THRESHOLD`.
    ///
    /// A file whose leading bytes are not those of BMP, PNM, DDS or
    /// farbfeld is a `DecodeFailure`, and so is one that the decoder
    /// rejects. A raster that comes back is the decoder's answer binarized,
    /// with no side longer than `MAX_SIDE`.
    pub fn new_with_data(data: Vec<u8>) -> (r: Result<Image, LoadError>)
        ensures
            match load_of(data@) {
                Some(view) => r matches Ok(image) && image@ == view && view.wf() && view.binary()
                    && view.width <= MAX_SIDE && view.height <= MAX_SIDE,
                None => r == Err::<Image, LoadError>(LoadError::DecodeFailure),
            },
    {
        if !vouches(&data) {
            return Err(LoadError::DecodeFailure);
        }
        match decode_rgba8(&data, MAX_SIDE) {
            Ok((bytes, width, height)) => Image::from_decoded(bytes, width, height),
            Err(_) => Err(LoadError::DecodeFailure),
        }
    }
}

} // verus!
