//! RGBA pixel buffers: the size check that every buffer handed to the tray or
//! to an encoder must pass, decoding of the tray icon, and PNG encoding of
//! captured images.

use vstd::prelude::*;

verus! {

/// An RGBA buffer holds four bytes per pixel, one pixel per point of the
/// `width` by `height` rectangle.
pub open spec fn fits(len: nat, width: u32, height: u32) -> bool {
    len == 4 * (width as nat) * (height as nat)
}

/// Why a pixel buffer was refused.
#[derive(Clone, Copy, Debug, PartialEq, Eq, Structural)]
pub enum PixelError {
    /// The byte count is not a multiple of four.
    ByteCountNotDivisibleBy4,
    /// The number of pixels differs from width times height.
    DimensionsVsPixelCount,
}

/// Checks a buffer's size against its dimensions.
pub fn check_pixel_buffer(len: usize, width: u32, height: u32) -> (r: Result<(), PixelError>)
    ensures
        r is Ok <==> fits(len as nat, width, height),
        r == Err::<(), PixelError>(PixelError::ByteCountNotDivisibleBy4) <==> len % 4 != 0,
{
    let n = len as u64;
    proof {
        let w = width as nat;
        let h = height as nat;
        assert(4 * w * h == 4 * (w * h)) by (nonlinear_arith);
        assert(w * h <= 0xffff_ffffnat * 0xffff_ffffnat) by (nonlinear_arith)
            requires
                w <= 0xffff_ffffnat,
                h <= 0xffff_ffffnat,
        ;
        assert((4 * (w * h)) % 4 == 0);
    }
    if n % 4 != 0 {
        return Err(PixelError::ByteCountNotDivisibleBy4);
    }
    let pixels = width as u64 * height as u64;
    if n / 4 == pixels {
        Ok(())
    } else {
        Err(PixelError::DimensionsVsPixelCount)
    }
}

/// An RGBA image whose buffer fits its dimensions.
#[derive(Clone, Debug)]
pub struct RgbaPixels {
    pub rgba: Vec<u8>,
    pub width: u32,
    pub height: u32,
}

impl RgbaPixels {
    pub open spec fn wf(&self) -> bool {
        fits(self.rgba@.len(), self.width, self.height)
    }

    /// Takes a buffer and its dimensions, refusing a buffer of the wrong size.
    pub fn from_rgba(rgba: Vec<u8>, width: u32, height: u32) -> (r: Result<RgbaPixels, PixelError>)
        ensures
            r is Ok <==> fits(rgba@.len(), width, height),
            r is Ok ==> r->Ok_0.rgba@ == rgba@ && r->Ok_0.width == width && r->Ok_0.height
                == height && r->Ok_0.wf(),
            r == Err::<RgbaPixels, PixelError>(PixelError::ByteCountNotDivisibleBy4) <==> rgba@.len()
                % 4 != 0,
    {
        match check_pixel_buffer(rgba.len(), width, height) {
            Ok(()) => Ok(RgbaPixels { rgba, width, height }),
            Err(e) => Err(e),
        }
    }
}

/// The RGBA pixels (buffer, width, height) that the `image` crate decodes from
/// the bytes of an image file, or `None` where it cannot decode them.
pub uninterp spec fn rgba_decoding(bytes: Seq<u8>) -> Option<(Seq<u8>, u32, u32)>;

/// Relies on `image::load_from_memory`, which guesses the format from the bytes
/// and decodes them, and on `DynamicImage::into_rgba8`, `dimensions` and
/// `into_raw` to read the result as RGBA.
#[verifier::external_body]
fn decode_rgba(bytes: &Vec<u8>) -> (r: Option<(Vec<u8>, u32, u32)>)
    ensures
        r is Some <==> rgba_decoding(bytes@) is Some,
        r is Some ==> (r->Some_0.0@, r->Some_0.1, r->Some_0.2) == rgba_decoding(bytes@)->0,
{
    match image::load_from_memory(bytes) {
        Ok(img) => {
            let rgba = img.into_rgba8();
            let (width, height) = rgba.dimensions();
            Some((rgba.into_raw(), width, height))
        },
        Err(_) => None,
    }
}

/// Why the tray icon could not be loaded.
#[derive(Clone, Copy, Debug, PartialEq, Eq, Structural)]
pub enum IconError {
    /// The file's bytes are not an image that can be decoded.
    Undecodable,
    /// The decoded pixels do not fit their dimensions.
    BadPixels(PixelError),
}

/// Decodes the bytes of the icon file into RGBA pixels ready for the tray.
pub fn load_icon(bytes: &Vec<u8>) -> (r: Result<RgbaPixels, IconError>)
    ensures
        r is Ok <==> (rgba_decoding(bytes@) is Some && fits(
            rgba_decoding(bytes@)->Some_0.0.len(),
            rgba_decoding(bytes@)->Some_0.1,
            rgba_decoding(bytes@)->Some_0.2,
        )),
        r is Ok ==> r->Ok_0.wf() && (r->Ok_0.rgba@, r->Ok_0.width, r->Ok_0.height)
            == rgba_decoding(bytes@)->0,
        r == Err::<RgbaPixels, IconError>(IconError::Undecodable) <==> rgba_decoding(bytes@) is None,
{
    match decode_rgba(bytes) {
        Some((rgba, width, height)) => match RgbaPixels::from_rgba(rgba, width, height) {
            Ok(p) => Ok(p),
            Err(e) => Err(IconError::BadPixels(e)),
        },
        None => Err(IconError::Undecodable),
    }
}

/// The PNG file that the `image` crate encodes from an RGBA buffer of the given
/// dimensions, or `None` where its encoder fails.
pub uninterp spec fn png_encoding(rgba: Seq<u8>, width: u32, height: u32) -> Option<Seq<u8>>;

/// Relies on `image::write_buffer_with_format` with `ColorType::Rgba8` and
/// `ImageOutputFormat::Png`, written into memory. Its PNG encoder panics on a
/// buffer whose size does not fit the dimensions, hence the `requires`.
#[verifier::external_body]
fn write_png(rgba: &Vec<u8>, width: u32, height: u32) -> (r: Option<Vec<u8>>)
    requires
        fits(rgba@.len(), width, height),
    ensures
        r is Some <==> png_encoding(rgba@, width, height) is Some,
        r is Some ==> r->0@ == png_encoding(rgba@, width, height)->0,
{
    let mut out = std::io::Cursor::new(Vec::new());
    match image::write_buffer_with_format(
        &mut out,
        rgba,
        width,
        height,
        image::ColorType::Rgba8,
        image::ImageOutputFormat::Png,
    ) {
        Ok(()) => Some(out.into_inner()),
        Err(_) => None,
    }
}

impl RgbaPixels {
    /// The image as a PNG file, or `None` where the encoder fails.
    pub fn to_png(&self) -> (r: Option<Vec<u8>>)
        requires
            self.wf(),
        ensures
            r is Some <==> png_encoding(self.rgba@, self.width, self.height) is Some,
            r is Some ==> r->0@ == png_encoding(self.rgba@, self.width, self.height)->0,
    {
        write_png(&self.rgba, self.width, self.height)
    }
}

} // verus!
