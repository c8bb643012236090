//! The icon of the window, and the name under which the desktop finds it.

use vstd::prelude::*;

verus! {

/// What the desktop looks for as `<name>.desktop`.
pub const APP_ID: &'static str = "sicompass";

/// The name that people see.
pub const APP_NAME: &'static str = "Sicompass";

/// The pixels of a PNG file, red, green, blue and alpha for each, with its
/// width and height, or why it cannot be read.
pub uninterp spec fn picture(bytes: Seq<u8>) -> Result<(Seq<u8>, u32, u32), Seq<char>>;

/// What a picture is.
pub open spec fn picture_view(p: Result<(Vec<u8>, u32, u32), String>) -> Result<
    (Seq<u8>, u32, u32),
    Seq<char>,
> {
    match p {
        Ok((pixels, width, height)) => Ok((pixels@, width, height)),
        Err(e) => Err(e@),
    }
}

/// `image::load_from_memory_with_format` for PNG, with the picture brought to
/// four bytes for each pixel. The format is given and not guessed, so the
/// pixels, the size and the error are functions of the bytes; how a picture is
/// read is not said here.
#[verifier::external_body]
fn load_rgba(bytes: &[u8]) -> (res: Result<(Vec<u8>, u32, u32), String>)
    ensures
        picture_view(res) == picture(bytes@),
{
    let rgba = ::image::load_from_memory_with_format(bytes, ::image::ImageFormat::Png)
        .map_err(|e| e.to_string())?
        .to_rgba8();
    let (width, height) = rgba.dimensions();
    Ok((rgba.into_raw(), width, height))
}

/// The pixels of the icon of the window, from the PNG file that holds it.
pub fn window_icon(icon_png: &[u8]) -> (res: Result<(Vec<u8>, u32, u32), String>)
    ensures
        picture_view(res) == picture(icon_png@),
{
    load_rgba(icon_png)
}

/// How many bytes a row of the icon has, where that can be counted.
pub fn pitch(width: u32) -> (res: Option<u32>)
    ensures
        res == if 4 * width <= u32::MAX {
            Some((4 * width) as u32)
        } else {
            None
        },
{
    width.checked_mul(4)
}

} // verus!
