//! Pictures: where they are fetched from, and what they decode to.
use crate::text;
use crate::urls;
use crate::urls::{image_url, ImageOptions, ImageType, Url};
use vstd::prelude::*;

verus! {

/// What a picture is fetched for.
#[derive(Debug, Clone, Copy, PartialEq, Eq, Structural)]
pub enum PictureUse {
    /// A card or a row of a listing.
    Thumbnail,
    /// The header of an album.
    Cover,
    /// Behind the page of a film or a series.
    Backdrop,
    /// A member of the cast.
    Portrait,
}

impl PictureUse {
    /// The kind of image that is used.
    pub open spec fn image_type(self) -> ImageType {
        match self {
            PictureUse::Backdrop => ImageType::Backdrop,
            _ => ImageType::Primary,
        }
    }

    /// The size and quality that are asked for, beside the tag.
    pub open spec fn options(self, tag: Option<String>) -> ImageOptions {
        match self {
            PictureUse::Thumbnail => ImageOptions {
                tag,
                fill_height: Some(360),
                fill_width: None,
                quality: Some(90),
            },
            PictureUse::Cover => ImageOptions {
                tag,
                fill_height: Some(600),
                fill_width: None,
                quality: Some(92),
            },
            PictureUse::Backdrop => ImageOptions {
                tag,
                fill_height: None,
                fill_width: Some(1280),
                quality: Some(90),
            },
            PictureUse::Portrait => ImageOptions {
                tag,
                fill_height: Some(200),
                fill_width: None,
                quality: Some(90),
            },
        }
    }
}

/// The address of a picture of an item or a person.
pub fn picture_url(base: &Url, purpose: PictureUse, id: &str, tag: String) -> (r: Url)
    requires
        urls::can_be_base(base@),
        urls::has_room(base@, id@.len() + tag@.len() + 100),
    ensures
        r@ == urls::with_pairs(
            urls::extended_path(base@, urls::image_segments(id@, purpose.image_type())),
            urls::image_pairs(purpose.options(Some(tag))),
        ),
        urls::is_web(base@) && urls::is_plain(id@) ==> r@ == urls::with_pairs(
            urls::web_joined(base@, urls::image_segments(id@, purpose.image_type())),
            urls::image_pairs(purpose.options(Some(tag))),
        ),
{
    let (fill_height, fill_width, quality) = match purpose {
        PictureUse::Thumbnail => (Some(360u32), None, 90u8),
        PictureUse::Cover => (Some(600u32), None, 92u8),
        PictureUse::Backdrop => (None, Some(1280u32), 90u8),
        PictureUse::Portrait => (Some(200u32), None, 90u8),
    };
    let image_type = match purpose {
        PictureUse::Backdrop => ImageType::Backdrop,
        _ => ImageType::Primary,
    };
    let opts = ImageOptions { tag: Some(tag), fill_height, fill_width, quality: Some(quality) };
    assert(text::or_empty(opts.tag) == tag@);
    image_url(base, id, image_type, &opts)
}

/// What the `image` crate makes of a file: the pixels of the picture it holds,
/// four bytes each and row by row, with its width and height; or in words why it
/// cannot decode it.
pub uninterp spec fn decoded_image(bytes: Seq<u8>) -> Result<(Seq<u8>, u32, u32), Seq<char>>;

/// A decoded picture: four bytes per pixel, row by row.
#[derive(Debug)]
pub struct Picture {
    pub rgba: Vec<u8>,
    pub width: u32,
    pub height: u32,
}

/// `image::load_from_memory` decodes a picture in a format that it recognises,
/// and `to_rgba8` and `into_raw` lay it out as four bytes per pixel.
#[verifier::external_body]
fn load_picture(bytes: &[u8]) -> (r: Result<Picture, String>)
    ensures
        match r {
            Ok(p) => decoded_image(bytes@) == Ok::<(Seq<u8>, u32, u32), Seq<char>>(
                (p.rgba@, p.width, p.height),
            ) && p.rgba@.len() == 4 * p.width * p.height,
            Err(why) => decoded_image(bytes@) == Err::<(Seq<u8>, u32, u32), Seq<char>>(why@),
        },
{
    match image::load_from_memory(bytes) {
        Ok(img) => {
            let img = img.to_rgba8();
            let (width, height) = img.dimensions();
            Ok(Picture { rgba: img.into_raw(), width, height })
        },
        Err(e) => Err(e.to_string()),
    }
}

/// What is reported when a decoder gives up: what it said.
pub fn decode_failure(why: &str) -> (r: String)
    ensures
        r@ == "decode: "@ + why@,
{
    text::joined("decode: ", why)
}

/// Decodes a picture. An error says what the decoder said.
pub fn decode_picture(bytes: &[u8]) -> (r: Result<Picture, String>)
    ensures
        match decoded_image(bytes@) {
            Ok((pixels, width, height)) => {
                &&& r matches Ok(p)
                &&& p.rgba@ == pixels
                &&& p.width == width
                &&& p.height == height
                &&& pixels.len() == 4 * width * height
            },
            Err(why) => r matches Err(e) && e@ == "decode: "@ + why,
        },
{
    match load_picture(bytes) {
        Ok(p) => Ok(p),
        Err(why) => Err(decode_failure(why.as_str())),
    }
}

// ------------------------------------------------------------ laws

/// A picture is fetched with its own tag and in the size of its use: a row is
/// smaller than a cover and larger than a portrait, and only the backdrop goes by
/// its width and is an image of its own kind.
pub proof fn law_picture_sizes(tag: Option<String>)
    ensures
        PictureUse::Thumbnail.options(tag).tag == tag && PictureUse::Cover.options(tag).tag == tag
            && PictureUse::Backdrop.options(tag).tag == tag && PictureUse::Portrait.options(tag).tag == tag,
        PictureUse::Portrait.options(tag).fill_height == Some(200u32),
        PictureUse::Thumbnail.options(tag).fill_height == Some(360u32),
        PictureUse::Cover.options(tag).fill_height == Some(600u32),
        PictureUse::Backdrop.options(tag).fill_width == Some(1280u32),
        PictureUse::Backdrop.options(tag).fill_height is None,
        PictureUse::Portrait.options(tag).fill_width is None && PictureUse::Thumbnail.options(tag).fill_width
            is None && PictureUse::Cover.options(tag).fill_width is None,
        PictureUse::Cover.options(tag).quality == Some(92u8),
        PictureUse::Portrait.options(tag).quality == Some(90u8) && PictureUse::Thumbnail.options(tag).quality
            == Some(90u8) && PictureUse::Backdrop.options(tag).quality == Some(90u8),
        PictureUse::Backdrop.image_type() == ImageType::Backdrop,
        PictureUse::Portrait.image_type() == ImageType::Primary && PictureUse::Thumbnail.image_type()
            == ImageType::Primary && PictureUse::Cover.image_type() == ImageType::Primary,
{
}

} // verus!
