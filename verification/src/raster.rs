//! RGBA pictures, and the two operations of the `image` crate that
//! composing a sheet needs: decoding a PNG file and blending one picture
//! onto another.
use vstd::prelude::*;
use vstd::slice::slice_to_vec;

verus! {

/// The error of a failed decoding.
#[verifier::external_type_specification]
#[verifier::external_body]
pub struct ExImageError(image::ImageError);

/// The width, height and RGBA pixels, row by row, of the PNG file `bytes`
/// as the `image` crate decodes it; none when it does not decode.
pub uninterp spec fn decoded_png(bytes: Seq<u8>) -> Option<(u32, u32, Seq<u8>)>;

/// The RGBA pixels of a `bottom_width` by `bottom_height` picture after the
/// `top_width` by `top_height` picture `top` is blended onto it, with its top
/// left corner at `(x, y)`, by `image::imageops::overlay`.
pub uninterp spec fn overlaid(
    bottom: Seq<u8>,
    bottom_width: int,
    bottom_height: int,
    top: Seq<u8>,
    top_width: int,
    top_height: int,
    x: int,
    y: int,
) -> Seq<u8>;

/// Decodes a PNG file with `image::load_from_memory_with_format`, then
/// turns it into RGBA pixels with `DynamicImage::to_rgba8`. Claimed: the
/// result is the one [`decoded_png`] names, a function of the bytes alone,
/// and holds four bytes per pixel, as the source shows of `to_rgba8`.
#[verifier::external_body]
pub fn decode_png(bytes: &[u8]) -> (r: Result<(u32, u32, Vec<u8>), image::ImageError>)
    ensures
        match r {
            Ok((w, h, p)) => decoded_png(bytes@) == Some((w, h, p@)) && p@.len() == 4 * w * h,
            Err(_) => decoded_png(bytes@) is None,
        },
{
    match image::load_from_memory_with_format(bytes, image::ImageFormat::Png) {
        Ok(img) => {
            let rgba = img.to_rgba8();
            Ok((rgba.width(), rgba.height(), rgba.into_raw()))
        },
        Err(e) => Err(e),
    }
}

/// Blends `top` onto `bottom`, both RGBA pixels of pictures of the given
/// sizes, with `image::imageops::overlay`; what falls outside `bottom` is cut
/// off. Claimed: the pixels become those [`overlaid`] names, and their number
/// stays, as the source shows (the buffer is only written in place).
#[verifier::external_body]
pub fn overlay_rgba(
    bottom: &mut Vec<u8>,
    bottom_width: u32,
    bottom_height: u32,
    top: &[u8],
    top_width: u32,
    top_height: u32,
    x: u32,
    y: u32,
)
    requires
        old(bottom)@.len() == 4 * bottom_width * bottom_height,
        top@.len() == 4 * top_width * top_height,
    ensures
        final(bottom)@ == overlaid(old(bottom)@, bottom_width as int, bottom_height as int, top@, top_width as int, top_height as int, x as int, y as int),
        final(bottom)@.len() == old(bottom)@.len(),
{
    let data = std::mem::take(bottom);
    let mut page: image::RgbaImage = image::ImageBuffer::from_raw(bottom_width, bottom_height, data).unwrap();
    let picture: image::ImageBuffer<image::Rgba<u8>, &[u8]> = image::ImageBuffer::from_raw(top_width, top_height, top).unwrap();
    image::imageops::overlay(&mut page, &picture, x, y);
    *bottom = page.into_raw();
}

/// An RGBA picture: its size and its pixels, row by row, four bytes each.
pub struct Picture {
    pub width: u32,
    pub height: u32,
    pub pixels: Vec<u8>,
}

/// What a picture is: its size and its pixels.
pub struct PictureView {
    pub width: int,
    pub height: int,
    pub pixels: Seq<u8>,
}

impl View for Picture {
    type V = PictureView;

    open spec fn view(&self) -> PictureView {
        PictureView { width: self.width as int, height: self.height as int, pixels: self.pixels@ }
    }
}

/// The picture has four bytes for each of its pixels.
pub open spec fn picture_ok(p: PictureView) -> bool {
    p.pixels.len() == 4 * p.width * p.height
}

/// `bottom` with `top` blended onto it, top left corner at `(x, y)`.
pub open spec fn overlay_at(bottom: PictureView, top: PictureView, x: int, y: int) -> PictureView {
    PictureView {
        width: bottom.width,
        height: bottom.height,
        pixels: overlaid(bottom.pixels, bottom.width, bottom.height, top.pixels, top.width, top.height, x, y),
    }
}

/// The picture the first `4 * width * height` bytes of `data` make.
pub open spec fn raw_picture(width: u32, height: u32, data: Seq<u8>) -> PictureView {
    PictureView { width: width as int, height: height as int, pixels: data.take(4 * width * height) }
}

impl Picture {
    /// The picture of a PNG file; fails when the file does not decode.
    pub fn from_png(bytes: &[u8]) -> (r: Result<Picture, image::ImageError>)
        ensures
            match r {
                Ok(p) => decoded_png(bytes@) == Some((p.width, p.height, p.pixels@)) && picture_ok(p@),
                Err(_) => decoded_png(bytes@) is None,
            },
    {
        match decode_png(bytes) {
            Ok((width, height, pixels)) => Ok(Picture { width, height, pixels }),
            Err(e) => Err(e),
        }
    }

    /// The picture of the given size whose pixels start `data`; none when
    /// `data` is too short for it.
    pub fn from_rgba(width: u32, height: u32, data: &[u8]) -> (r: Option<Picture>)
        ensures
            match r {
                Some(p) => p@ == raw_picture(width, height, data@) && picture_ok(p@),
                None => data@.len() < 4 * width * height,
            },
            r is Some <==> 4 * width * height <= data@.len(),
    {
        assert(4 * width * height <= 4 * 0xffff_ffffnat * 0xffff_ffffnat) by (nonlinear_arith)
            requires
                width <= 0xffff_ffff,
                height <= 0xffff_ffff,
        ;
        let needed: u128 = 4u128 * (width as u128) * (height as u128);
        if (data.len() as u128) < needed {
            return None;
        }
        let mut pixels = slice_to_vec(data);
        pixels.truncate(needed as usize);
        Some(Picture { width, height, pixels })
    }

    /// A fully transparent picture of the given size.
    pub fn transparent(width: u32, height: u32) -> (p: Picture)
        requires
            4 * width * height <= usize::MAX,
        ensures
            p.width == width,
            p.height == height,
            p.pixels@ == Seq::new((4 * width * height) as nat, |i: int| 0u8),
    {
        assert(4 * width * height <= 4 * 0xffff_ffffnat * 0xffff_ffffnat) by (nonlinear_arith)
            requires
                width <= 0xffff_ffff,
                height <= 0xffff_ffff,
        ;
        let n: usize = (4u128 * (width as u128) * (height as u128)) as usize;
        let pixels = vec![0u8; n];
        assert(pixels@ =~= Seq::new((4 * width * height) as nat, |i: int| 0u8));
        Picture { width, height, pixels }
    }

    /// A copy of the picture.
    pub fn copy(&self) -> (p: Picture)
        ensures
            p@ == self@,
    {
        let pixels = slice_to_vec(self.pixels.as_slice());
        Picture { width: self.width, height: self.height, pixels }
    }

    /// Blends `top` onto the picture, with its top left corner at `(x, y)`.
    pub fn overlay(&mut self, top: &Picture, x: u32, y: u32)
        requires
            picture_ok(old(self)@),
            picture_ok(top@),
        ensures
            final(self)@ == overlay_at(old(self)@, top@, x as int, y as int),
            picture_ok(final(self)@),
    {
        overlay_rgba(&mut self.pixels, self.width, self.height, top.pixels.as_slice(), top.width, top.height, x, y);
    }
}

} // verus!
