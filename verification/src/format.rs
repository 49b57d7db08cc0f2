//! The containers a picture can be written in, and the writing itself.

use crate::canvas::{rgba_bytes, Canvas, CanvasView};
use crate::color::Color;
use crate::error::EmogenError;
use vstd::prelude::*;

verus! {

/// A container format for the finished picture.
#[derive(Clone, Copy, Debug, PartialEq, Eq, Structural)]
pub enum OutputFormat {
    Png,
    /// JPEG at the given quality, from 1, the worst, to 100, the best.
    Jpeg(u8),
    Gif,
    Ico,
}

/// The MIME type of each format.
pub open spec fn mime_of(format: OutputFormat) -> Seq<char> {
    match format {
        OutputFormat::Png => "image/png"@,
        OutputFormat::Jpeg(_) => "image/jpeg"@,
        OutputFormat::Gif => "image/gif"@,
        OutputFormat::Ico => "image/x-icon"@,
    }
}

/// The file extension of each format.
pub open spec fn extension_of(format: OutputFormat) -> Seq<char> {
    match format {
        OutputFormat::Png => "png"@,
        OutputFormat::Jpeg(_) => "jpg"@,
        OutputFormat::Gif => "gif"@,
        OutputFormat::Ico => "ico"@,
    }
}

/// The MIME type to announce a picture of this format with.
pub fn format2mime(format: &OutputFormat) -> (mime: String)
    ensures
        mime@ == mime_of(*format),
{
    match format {
        OutputFormat::Png => "image/png".to_owned(),
        OutputFormat::Jpeg(_) => "image/jpeg".to_owned(),
        OutputFormat::Gif => "image/gif".to_owned(),
        OutputFormat::Ico => "image/x-icon".to_owned(),
    }
}

/// The extension of a file name for a picture of this format.
pub fn format2ext(format: &OutputFormat) -> (ext: String)
    ensures
        ext@ == extension_of(*format),
{
    match format {
        OutputFormat::Png => "png".to_owned(),
        OutputFormat::Jpeg(_) => "jpg".to_owned(),
        OutputFormat::Gif => "gif".to_owned(),
        OutputFormat::Ico => "ico".to_owned(),
    }
}

/// `image::ImageError`, carried through unread.
#[verifier::external_type_specification]
#[verifier::external_body]
pub struct ExImageError(image::ImageError);

/// The file that `image::DynamicImage::write_to` writes for an RGBA picture
/// of the given bytes and size in the given format, or `None` where it
/// returns an error.
pub uninterp spec fn encoded_image(
    rgba: Seq<u8>,
    width: u32,
    height: u32,
    format: OutputFormat,
) -> Option<Seq<u8>>;

/// Whether a picture of this size is within the limits of the container:
/// JPEG and GIF hold at most 65535 pixels each way, ICO at most 256.
pub open spec fn fits_container(format: OutputFormat, width: u32, height: u32) -> bool {
    match format {
        OutputFormat::Png => true,
        OutputFormat::Jpeg(_) => width <= 0xFFFF && height <= 0xFFFF,
        OutputFormat::Gif => width <= 0xFFFF && height <= 0xFFFF,
        OutputFormat::Ico => width <= 256 && height <= 256,
    }
}

/// Calls `image::DynamicImage::write_to` on an RGBA picture made of the
/// bytes, with a vector to write to. What it writes depends on the picture
/// and the format alone. It returns an error for a picture beyond the limits
/// of the container: the JPEG and GIF encoders of the `image` crate refuse a
/// width or height that does not fit in 16 bits, its ICO encoder one above
/// 256.
#[verifier::external_body]
fn write_image(rgba: Vec<u8>, width: u32, height: u32, format: OutputFormat) -> (r: Result<
    Vec<u8>,
    image::ImageError,
>)
    requires
        width > 0,
        height > 0,
        rgba@.len() == 4 * width * height,
    ensures
        r matches Ok(file) ==> encoded_image(rgba@, width, height, format) == Some(file@),
        r is Err ==> encoded_image(rgba@, width, height, format) is None,
        !fits_container(format, width, height) ==> r is Err,
{
    let picture = image::RgbaImage::from_raw(width, height, rgba).unwrap();
    let target = match format {
        OutputFormat::Png => image::ImageOutputFormat::Png,
        OutputFormat::Jpeg(quality) => image::ImageOutputFormat::Jpeg(quality),
        OutputFormat::Gif => image::ImageOutputFormat::Gif,
        OutputFormat::Ico => image::ImageOutputFormat::Ico,
    };
    let mut file = Vec::new();
    image::DynamicImage::ImageRgba8(picture).write_to(&mut file, target)?;
    Ok(file)
}

/// The file of a canvas in a format: that of its pixels, where the canvas
/// has any and the container takes them.
pub open spec fn encoding_of(
    pixels: Seq<Color>,
    width: u32,
    height: u32,
    format: OutputFormat,
) -> Option<Seq<u8>> {
    if width == 0 || height == 0 {
        None
    } else {
        encoded_image(rgba_bytes(pixels), width, height, format)
    }
}

/// What `encode` may return for a canvas and a format: the file of the
/// canvas, or the encoding error where it has none.
pub open spec fn is_encoding(
    outcome: Result<Seq<u8>, EmogenError>,
    canvas: CanvasView,
    format: OutputFormat,
) -> bool {
    let file = encoding_of(canvas.pixels, canvas.width as u32, canvas.height as u32, format);
    match outcome {
        Ok(bytes) => file == Some(bytes),
        Err(error) => file is None && error == EmogenError::Encode,
    }
}

/// What a result of `encode` holds.
pub open spec fn outcome_view(r: Result<Vec<u8>, EmogenError>) -> Result<Seq<u8>, EmogenError> {
    match r {
        Ok(file) => Ok(file@),
        Err(error) => Err(error),
    }
}

/// Encoding the same canvas twice in the same format gives the same bytes,
/// or fails both times.
pub proof fn lemma_encode_twice(
    first: Result<Seq<u8>, EmogenError>,
    second: Result<Seq<u8>, EmogenError>,
    canvas: CanvasView,
    format: OutputFormat,
)
    requires
        is_encoding(first, canvas, format),
        is_encoding(second, canvas, format),
    ensures
        first == second,
{
}

/// Writes a canvas as a file of the given format. The same canvas and format
/// give the same file every time. A canvas without pixels has no file, nor
/// has one beyond the limits of the container.
pub fn encode(canvas: &Canvas, format: OutputFormat) -> (r: Result<Vec<u8>, EmogenError>)
    ensures
        is_encoding(outcome_view(r), canvas@, format),
        !fits_container(format, canvas@.width as u32, canvas@.height as u32) ==> r is Err,
{
    let width = canvas.width();
    let height = canvas.height();
    if width == 0 || height == 0 {
        return Err(EmogenError::Encode);
    }
    match write_image(canvas.to_rgba_bytes(), width, height, format) {
        Ok(file) => Ok(file),
        Err(_) => Err(EmogenError::Encode),
    }
}

} // verus!
