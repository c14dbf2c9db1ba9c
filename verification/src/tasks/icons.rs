//! The application icon: the master artwork resampled to every icon size,
//! each size encoded as PNG, and all of them packed into one ICO file.
use vstd::prelude::*;
use image::ImageEncoder;
use crate::tasks::artwork::{
    ico_container, ico_header_len, lemma_total_len_prefix, ico_sizes, spec_ico_file, total_len, byte_views, ICO_SIZES,
};

verus! {

#[verifier::external_type_specification]
#[verifier::external_body]
pub struct ExImageError(image::ImageError);

/// The PNG file that the `image` crate's PNG encoder writes for RGBA pixels
/// with best compression and adaptive filtering.
pub uninterp spec fn png_encoding(rgba: Seq<u8>, width: u32, height: u32) -> Seq<u8>;

/// The colour of pixel `i` of an RGBA buffer.
pub open spec fn pixel_colour(rgba: Seq<u8>, i: int) -> (u8, u8, u8, u8) {
    (rgba[4 * i], rgba[4 * i + 1], rgba[4 * i + 2], rgba[4 * i + 3])
}

/// Every pixel of an RGBA buffer has `colour`.
pub open spec fn is_uniform(rgba: Seq<u8>, colour: (u8, u8, u8, u8)) -> bool {
    forall|i: int| 0 <= i < rgba.len() / 4 ==> #[trigger] pixel_colour(rgba, i) == colour
}

/// `pixels` can be the square `side`-pixel `master` resampled to `size`
/// pixels square: it holds `size × size` RGBA pixels, and a master of one
/// colour resamples to that colour.
pub open spec fn resized_from(master: Seq<u8>, side: u32, size: u32, pixels: Seq<u8>) -> bool {
    &&& pixels.len() == 4 * size * size
    &&& side > 0 ==> forall|colour: (u8, u8, u8, u8)|
        #[trigger] is_uniform(master, colour) ==> is_uniform(pixels, colour)
}

/// Resamples with `image::DynamicImage::resize_exact` and the Lanczos3 filter.
/// The `image` crate's `imageops::resize` returns an image of exactly the
/// requested dimensions, so the result holds `size × size` RGBA pixels. Each
/// output channel is a weighted mean of input channels whose weights are
/// divided by their sum, then clamped and rounded to the nearest integer, so a
/// one-colour image keeps its colour. Other pixel values are not stated: the
/// filter weights come from the platform's floating-point sine, which need not
/// agree between machines.
#[verifier::external_body]
fn resize_square(rgba: &Vec<u8>, side: u32, size: u32) -> (r: Vec<u8>)
    requires
        rgba@.len() == 4 * side * side,
        size > 0,
        16 * side * size <= isize::MAX,
        16 * size * size <= isize::MAX,
    ensures
        resized_from(rgba@, side, size, r@),
{
    let source = image::RgbaImage::from_raw(side, side, rgba.clone()).unwrap();
    image::DynamicImage::ImageRgba8(source).resize_exact(
        size,
        size,
        image::imageops::FilterType::Lanczos3,
    ).into_rgba8().into_raw()
}

/// Encodes with `image::codecs::png::PngEncoder` at best compression with
/// adaptive filtering. The encoder checks that the buffer holds exactly
/// `width × height` RGBA pixels; what it writes is named. For 8-bit RGBA
/// written into a `Vec`, the `png` crate's encoder refuses exactly a zero width or
/// height: writes to a `Vec` do not fail and the image data is split into
/// chunks of allowed length.
#[verifier::external_body]
fn encode_png(rgba: &Vec<u8>, width: u32, height: u32) -> (r: Result<Vec<u8>, image::ImageError>)
    requires
        rgba@.len() == 4 * width * height,
    ensures
        r matches Ok(bytes) ==> bytes@ == png_encoding(rgba@, width, height),
        r is Ok <==> (width > 0 && height > 0),
{
    let mut bytes: Vec<u8> = Vec::new();
    let encoder = image::codecs::png::PngEncoder::new_with_quality(
        &mut bytes,
        image::codecs::png::CompressionType::Best,
        image::codecs::png::FilterType::Adaptive,
    );
    match encoder.write_image(rgba, width, height, image::ExtendedColorType::Rgba8) {
        Ok(()) => Ok(bytes),
        Err(error) => Err(error),
    }
}

/// `png` is the PNG encoding of the master resampled to `size` pixels square.
pub open spec fn is_resized_png(master: Seq<u8>, side: u32, size: u32, png: Seq<u8>) -> bool {
    exists|pixels: Seq<u8>|
        resized_from(master, side, size, pixels) && png == png_encoding(pixels, size, size)
}

/// The buffers that resampling a `side`-pixel square to `size` pixels
/// allocates fit the address space.
pub open spec fn resizable(side: u32, size: u32) -> bool {
    16 * side * size <= isize::MAX && 16 * size * size <= isize::MAX
}

/// The PNG file of an RGBA image of `width × height` pixels; exactly the
/// images without pixels are refused.
pub fn encode_rgba_png(rgba: &Vec<u8>, width: u32, height: u32) -> (r: Result<
    Vec<u8>,
    image::ImageError,
>)
    requires
        rgba@.len() == 4 * width * height,
    ensures
        r matches Ok(bytes) ==> bytes@ == png_encoding(rgba@, width, height),
        r is Ok <==> (width > 0 && height > 0),
{
    encode_png(rgba, width, height)
}

/// The RGBA pixels of a square `side`-pixel image resampled to `size` pixels
/// square with the Lanczos3 filter; a size of zero gives no pixels. Beyond the
/// length and the one-colour law, which pixels it yields is not stated (see
/// `resize_square`).
pub fn resample_square(rgba: &Vec<u8>, side: u32, size: u32) -> (r: Vec<u8>)
    requires
        rgba@.len() == 4 * side * side,
        resizable(side, size),
    ensures
        resized_from(rgba@, side, size, r@),
{
    if size == 0 {
        Vec::new()
    } else {
        resize_square(rgba, side, size)
    }
}

/// Resamples a square RGBA master to `size` pixels square and encodes it as
/// PNG; a size of zero is refused by the encoder. Which pixels the resampling
/// yields is stated as far as `resample_square` states it.
pub fn render_square_png(master: &Vec<u8>, side: u32, size: u32) -> (r: Result<
    Vec<u8>,
    image::ImageError,
>)
    requires
        master@.len() == 4 * side * side,
        resizable(side, size),
    ensures
        r is Ok <==> size > 0,
        r matches Ok(bytes) ==> is_resized_png(master@, side, size, bytes@),
{
    let resized = resample_square(master, side, size);
    let encoded = encode_png(&resized, size, size);
    assert(encoded matches Ok(bytes) ==> bytes@ == png_encoding(resized@, size, size));
    encoded
}

/// Why no icon file could be made.
#[derive(Debug)]
pub enum IcoError {
    /// The PNG encoder refused one of the sizes; for a valid master this does
    /// not happen (see `encode_ico`).
    Encoding(image::ImageError),
    /// The encoded images do not fit the 32-bit offsets of an ICO directory.
    TooLarge,
}

/// One PNG image per entry of `ICO_SIZES`, each the master resampled to that size.
pub open spec fn ico_images(master: Seq<u8>, side: u32, images: Seq<Seq<u8>>) -> bool {
    images.len() == ICO_SIZES.len() && forall|i: int|
        0 <= i < images.len() ==> is_resized_png(master, side, ico_sizes()[i], #[trigger] images[i])
}

/// The application icon for a square RGBA master: one PNG entry per size of
/// `ICO_SIZES`, smallest first, each the master resampled to that size.
pub fn encode_ico(master: &Vec<u8>, side: u32) -> (r: Result<Vec<u8>, IcoError>)
    requires
        master@.len() == 4 * side * side,
        resizable(side, 256),
    ensures
        r matches Ok(bytes) ==> exists|images: Seq<Seq<u8>>|
            ico_images(master@, side, images) && bytes@ == spec_ico_file(images),
        r matches Err(error) ==> error is TooLarge,
        r matches Err(IcoError::TooLarge) ==> exists|images: Seq<Seq<u8>>|
            ico_images(master@, side, images) && ico_header_len(9) + total_len(images) > u32::MAX,
{
    let mut images: Vec<Vec<u8>> = Vec::new();
    let mut index: usize = 0;
    while index < ICO_SIZES.len()
        invariant
            master@.len() == 4 * side * side,
            resizable(side, 256),
            index <= 9,
            images@.len() == index,
            forall|i: int|
                0 <= i < index ==> is_resized_png(master@, side, ico_sizes()[i], #[trigger] images@[i]@),
        decreases 9 - index,
    {
        let size = ICO_SIZES[index];
        assert(size == ico_sizes()[index as int]);
        assert(16 * side * size <= 16 * side * 256 && 16 * size * size <= 16 * 256 * 256)
            by (nonlinear_arith)
            requires
                size <= 256,
        ;
        match render_square_png(master, side, size) {
            Ok(png) => images.push(png),
            Err(error) => return Err(IcoError::Encoding(error)),
        }
        index = index + 1;
    }
    let ghost views = byte_views(images@);
    assert(ico_images(master@, side, views));
    let mut total: u64 = 6 + 16 * 9;
    let mut counted: usize = 0;
    while counted < images.len()
        invariant
            images@.len() == 9,
            views == byte_views(images@),
            ico_images(master@, side, views),
            counted <= 9,
            total == ico_header_len(9) + total_len(views.subrange(0, counted as int)),
            total <= u32::MAX,
        decreases 9 - counted,
    {
        assert(views.subrange(0, counted + 1).drop_last() == views.subrange(0, counted as int));
        assert(views.subrange(0, counted + 1).last() == images@[counted as int]@);
        let image_len = images[counted].len() as u64;
        if image_len > 0xffff_ffff - total {
            proof {
                lemma_total_len_prefix(views, counted + 1);
            }
            return Err(IcoError::TooLarge);
        }
        total = total + image_len;
        counted = counted + 1;
    }
    assert(views.subrange(0, 9) == views);
    Ok(ico_container(&images))
}

} // verus!
