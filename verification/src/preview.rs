//! Thumbnails of pictures in the file list: which files get one, and how
//! the downloaded bytes become pixels.

use vstd::prelude::*;
use crate::messages::{AppMsg, Msg};
use crate::text::{ends_with, has_suffix, lowered, to_lowercase};

verus! {

/// Whether the file `name` is shown with a thumbnail: its lowercase name
/// ends in `.png`, `.jpg` or `.jpeg`.
pub open spec fn is_picture(name: Seq<char>) -> bool {
    let lower = lowered(name);
    has_suffix(lower, ".png"@) || has_suffix(lower, ".jpg"@) || has_suffix(lower, ".jpeg"@)
}

/// Whether the file `name` is shown with a thumbnail.
pub fn is_image_name(name: &str) -> (r: bool)
    ensures
        r == is_picture(name@),
{
    let lower = to_lowercase(name);
    ends_with(lower.as_str(), ".png") || ends_with(lower.as_str(), ".jpg") || ends_with(
        lower.as_str(),
        ".jpeg",
    )
}

/// What `image::load_from_memory` followed by a conversion to 8-bit RGBA
/// gives for the bytes `bytes`: width, height and pixel bytes, or nothing when
/// the bytes are no picture it can decode.
pub uninterp spec fn decoded_rgba(bytes: Seq<u8>) -> Option<(u32, u32, Seq<u8>)>;

/// Calls `image::load_from_memory` and converts the picture to 8-bit RGBA
/// with `to_rgba8`. The result is named `decoded_rgba`; beyond that, the
/// contract states that the pixel bytes are four per pixel, as the RGBA
/// buffer that `to_rgba8` builds holds `4 * width * height` bytes. Nothing is
/// stated of which bytes decode or of the pixels they give.
#[verifier::external_body]
fn decode_rgba(bytes: &[u8]) -> (res: Option<(u32, u32, Vec<u8>)>)
    ensures
        match res {
            None => decoded_rgba(bytes@) is None,
            Some(t) => decoded_rgba(bytes@) == Some((t.0, t.1, t.2@)),
        },
        res matches Some(t) ==> t.2@.len() == 4 * t.0 * t.1,
{
    match image::load_from_memory(bytes) {
        Ok(picture) => {
            let rgba = picture.to_rgba8();
            let (width, height) = rgba.dimensions();
            Some((width, height, rgba.into_raw()))
        },
        Err(_) => None,
    }
}

/// The message for the thumbnail of `name` once its bytes were decoded:
/// the pixels when decoding gave a picture, a failure otherwise.
pub fn preview_msg(name: String, decoded: Option<(u32, u32, Vec<u8>)>) -> (m: AppMsg)
    ensures
        match decoded {
            Some(t) => m@ == Msg::ImageLoaded(name@, t.0, t.1, t.2@),
            None => m@ == Msg::ImageFailed(name@),
        },
{
    match decoded {
        Some(t) => AppMsg::ImageLoaded(name, t.0, t.1, t.2),
        None => AppMsg::ImageFailed(name),
    }
}

/// The message for the thumbnail of `name`, given the bytes the server sent
/// (`None` when the download failed): the decoded pixels, or a failure when
/// the download failed or the bytes are no picture. The pixels of a loaded
/// thumbnail are four bytes for each of its `width * height` pixels.
pub fn preview_outcome(name: String, bytes: Option<Vec<u8>>) -> (m: AppMsg)
    ensures
        m@ matches Msg::ImageLoaded(_, w, h, px) ==> px.len() == 4 * w * h,
        match bytes {
            None => m@ == Msg::ImageFailed(name@),
            Some(b) => match decoded_rgba(b@) {
                Some(t) => m@ == Msg::ImageLoaded(name@, t.0, t.1, t.2),
                None => m@ == Msg::ImageFailed(name@),
            },
        },
{
    match bytes {
        None => AppMsg::ImageFailed(name),
        Some(b) => {
            let decoded = decode_rgba(b.as_slice());
            preview_msg(name, decoded)
        },
    }
}

} // verus!
