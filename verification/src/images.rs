//! Decoding subtitle images, which are PNG files: the size of the first one
//! sets the size of the output, and each one goes to the device as raw RGBA.

use crate::pipe::fits_texture;
use vstd::prelude::*;

verus! {

/// A decoded image: its size and its pixels as rows of RGBA bytes.
#[derive(Debug, Clone)]
pub struct DecodedImage {
    /// The width in pixels.
    pub width: u32,
    /// The height in pixels.
    pub height: u32,
    /// The pixels, four bytes each.
    pub pixels: Vec<u8>,
}

/// What decoding the bytes of a PNG file gives: width, height and RGBA
/// pixels, or the decoder's complaint.
pub uninterp spec fn decoded_image(data: Seq<u8>) -> Result<(u32, u32, Seq<u8>), Seq<char>>;

/// Calls `image::load_from_memory_with_format` with the PNG format, which
/// decodes the bytes with the built-in PNG decoder and consults nothing but
/// the bytes, and `DynamicImage::to_rgba8`, which copies the result as
/// eight-bit RGBA. An error is handed on as its message. The contract only
/// names the result.
#[verifier::external_body]
pub(crate) fn decode_image(data: &[u8]) -> (r: Result<DecodedImage, String>)
    ensures
        match r {
            Ok(img) => decoded_image(data@) == Ok::<(u32, u32, Seq<u8>), Seq<char>>(
                (img.width, img.height, img.pixels@),
            ),
            Err(m) => decoded_image(data@) == Err::<(u32, u32, Seq<u8>), Seq<char>>(m@),
        },
{
    match image::load_from_memory_with_format(data, image::ImageFormat::Png) {
        Ok(img) => {
            let rgba = img.to_rgba8();
            Ok(DecodedImage { width: rgba.width(), height: rgba.height(), pixels: rgba.into_raw() })
        },
        Err(e) => Err(e.to_string()),
    }
}

/// The message for an image that cannot be decoded.
pub open spec fn decode_error(complaint: Seq<char>) -> Seq<char> {
    "Erreur décodage image: "@ + complaint
}

/// The size of the output that follows from decoding the first subtitle
/// image: the image's own size, or an error that carries the decoder's
/// complaint.
pub open spec fn size_of_decoded(decoded: Result<(u32, u32, Seq<u8>), Seq<char>>) -> Result<
    (i32, i32),
    Seq<char>,
> {
    match decoded {
        Ok((w, h, _)) => Ok((w as i32, h as i32)),
        Err(m) => Err(decode_error(m)),
    }
}

/// What a decoding result holds.
pub open spec fn decoded_view(decoded: Result<DecodedImage, String>) -> Result<
    (u32, u32, Seq<u8>),
    Seq<char>,
> {
    match decoded {
        Ok(img) => Ok((img.width, img.height, img.pixels@)),
        Err(m) => Err(m@),
    }
}

/// What a size or an error message holds.
pub open spec fn size_view(size: Result<(i32, i32), String>) -> Result<(i32, i32), Seq<char>> {
    match size {
        Ok(s) => Ok(s),
        Err(m) => Err(m@),
    }
}

/// The size of the output, given the decoded first subtitle image.
pub fn target_size_of(decoded: &Result<DecodedImage, String>) -> (size: Result<(i32, i32), String>)
    ensures
        size_view(size) == size_of_decoded(decoded_view(*decoded)),
{
    match decoded {
        Ok(img) => Ok((
            #[verifier::truncate]
            (img.width as i32),
            #[verifier::truncate]
            (img.height as i32),
        )),
        Err(m) => {
            let mut message = String::from_str("Erreur décodage image: ");
            message.append(m.as_str());
            Err(message)
        },
    }
}

/// The size of the output, given the bytes of the first subtitle image.
pub fn target_size(first_image: &[u8]) -> (size: Result<(i32, i32), String>)
    ensures
        size_view(size) == size_of_decoded(decoded_image(first_image@)),
{
    let decoded = decode_image(first_image);
    target_size_of(&decoded)
}

/// The pixels to upload for a decoded subtitle: those of an image that was
/// decoded and has the size of the frame; nothing otherwise.
pub open spec fn upload_of(decoded: Result<(u32, u32, Seq<u8>), Seq<char>>, width: u32, height: u32) -> Option<
    Seq<u8>,
> {
    match decoded {
        Ok((w, h, pixels)) => if w == width && h == height && pixels.len() == width * height * 4 {
            Some(pixels)
        } else {
            None
        },
        Err(_) => None,
    }
}

/// The pixels of a subtitle as they go to the device, given its decoded
/// image.
pub fn subtitle_upload_of(decoded: Result<DecodedImage, String>, width: u32, height: u32) -> (pixels:
    Option<Vec<u8>>)
    ensures
        match pixels {
            Some(p) => upload_of(decoded_view(decoded), width, height) == Some(p@),
            None => upload_of(decoded_view(decoded), width, height) is None,
        },
{
    match decoded {
        Ok(img) => {
            if fits_texture(img.width, img.height, &img.pixels, width, height) {
                Some(img.pixels)
            } else {
                None
            }
        },
        Err(_) => None,
    }
}

/// The pixels of a subtitle as they go to the device, given the bytes of its
/// image file.
pub fn subtitle_upload(file: &[u8], width: u32, height: u32) -> (pixels: Option<Vec<u8>>)
    ensures
        match pixels {
            Some(p) => upload_of(decoded_image(file@), width, height) == Some(p@),
            None => upload_of(decoded_image(file@), width, height) is None,
        },
{
    subtitle_upload_of(decode_image(file), width, height)
}

} // verus!
