//! The boundary to the PNG encoder.
use vstd::prelude::*;
use vstd::string::StringExecFns;
use crate::color::Rgb;

verus! {

/// The encoder's error value, carried through unread.
#[verifier::external_type_specification]
#[verifier::external_body]
pub struct ExEncoderError(lodepng::Error);

/// The PNG file that the encoder produces for a row-major buffer of 24-bit
/// pixels with the given width and height, whenever it produces one.
pub uninterp spec fn png_bytes(pixels: Seq<Rgb>, width: int, height: int) -> Seq<u8>;

/// Whether an image of these dimensions can go to the encoder: its
/// scanlines, each three bytes per pixel and one byte more, must together
/// stay within what one data chunk of a PNG file holds once compressed.
pub open spec fn encodable(width: int, height: int) -> bool {
    height * (3 * width + 1) <= 0x7000_0000
}

/// Why an image could not be encoded.
#[derive(Debug)]
pub enum EncodeError {
    /// The image is larger than the library hands to the encoder.
    TooLarge,
    /// The encoder failed.
    Encoder {
        /// The encoder's own description of the failure.
        message: String,
    },
}

impl EncodeError {
    /// The failure in words: the encoder's description, or a fixed
    /// sentence for an image that is too large.
    pub fn message(&self) -> (text: String)
        ensures
            self matches EncodeError::Encoder { message } ==> text@ == message@,
            self is TooLarge ==> text@ == "image too large to encode"@,
    {
        match self {
            EncodeError::TooLarge => String::from_str("image too large to encode"),
            EncodeError::Encoder { message } => message.clone(),
        }
    }
}

/// Tests whether an image of these dimensions can go to the encoder.
pub fn is_encodable(width: usize, height: usize) -> (r: bool)
    ensures
        r == encodable(width as int, height as int),
{
    if height == 0 {
        true
    } else if width > 0x2555_5555 || height > 0x7000_0000 {
        assert(!encodable(width as int, height as int)) by (nonlinear_arith)
            requires
                height >= 1,
                width > 0x2555_5555 || height > 0x7000_0000,
                width >= 0,
        ;
        false
    } else {
        let line: u64 = 3 * (width as u64) + 1;
        assert(height * line <= 0x7000_0000 * 0x7000_0000) by (nonlinear_arith)
            requires
                0 <= height <= 0x7000_0000,
                0 <= line <= 0x7000_0000,
        ;
        (height as u64) * line <= 0x7000_0000
    }
}

/// Calls `lodepng::encode24` on the buffer.
///
/// Trusted: a successful call returns the encoder's output for exactly
/// these pixels and dimensions; the encoder refuses an image without rows
/// or without columns, and one whose width or height does not fit in 32
/// bits. The encoder holds two assertions of its own, which the
/// preconditions keep from firing: the buffer must hold `width * height`
/// pixels, and the compressed scanlines must stay below 2^31 bytes, which
/// they do for every image that is `encodable`.
#[verifier::external_body]
pub(crate) fn encode_rgb(pixels: &Vec<Rgb>, width: usize, height: usize) -> (r: Result<
    Vec<u8>,
    lodepng::Error,
>)
    requires
        pixels@.len() == width * height,
        encodable(width as int, height as int),
    ensures
        r matches Ok(bytes) ==> bytes@ == png_bytes(pixels@, width as int, height as int),
        width == 0 || height == 0 ==> r is Err,
        width > u32::MAX || height > u32::MAX ==> r is Err,
{
    let mut image: Vec<lodepng::RGB<u8>> = Vec::with_capacity(pixels.len());
    for c in pixels.iter() {
        image.push(lodepng::RGB { r: c.r, g: c.g, b: c.b });
    }
    lodepng::encode24(&image, width, height)
}

/// Renders the encoder's error with its `Display` impl. Nothing is claimed
/// of the text.
#[verifier::external_body]
pub(crate) fn describe(error: &lodepng::Error) -> (message: String) {
    format!("{}", error)
}

/// Turns the encoder's outcome into the library's: the bytes of a
/// finished file are handed on as they are, and an error is replaced by
/// its description.
pub fn file_of(outcome: Result<Vec<u8>, lodepng::Error>) -> (file: Result<Vec<u8>, EncodeError>)
    ensures
        outcome matches Ok(bytes) ==> (file matches Ok(same) && same == bytes),
        outcome is Err ==> (file matches Err(e) && e is Encoder),
{
    match outcome {
        Ok(bytes) => Ok(bytes),
        Err(error) => Err(EncodeError::Encoder { message: describe(&error) }),
    }
}

} // verus!
