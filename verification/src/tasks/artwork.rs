//! Checks and layouts behind the generated icons and wordmarks. Images are
//! read through their alpha channel, one byte per pixel in row-major order.
use vstd::prelude::*;
use crate::wav::{le_u16, le_u32, push_le_u16, push_le_u32};

verus! {

/// Pixels with an alpha at or below this are export noise, not artwork.
pub const NOISE_ALPHA: u8 = 8;

/// Transparent margin kept around the visible artwork when it is cropped.
pub const CROP_PADDING: u32 = 6;

pub open spec fn in_image(width: u32, height: u32, x: int, y: int) -> bool {
    0 <= x < width && 0 <= y < height
}

pub open spec fn pixel_visible(width: u32, alpha: Seq<u8>, x: int, y: int) -> bool {
    alpha[y * width + x] > NOISE_ALPHA
}

/// `left..=right` × `top..=bottom` is the smallest box holding every visible pixel.
pub open spec fn is_visible_box(
    width: u32,
    height: u32,
    alpha: Seq<u8>,
    left: int,
    top: int,
    right: int,
    bottom: int,
) -> bool {
    &&& forall|x: int, y: int|
        in_image(width, height, x, y) && #[trigger] pixel_visible(width, alpha, x, y) ==> left <= x
            <= right && top <= y <= bottom
    &&& exists|y: int| in_image(width, height, left, y) && pixel_visible(width, alpha, left, y)
    &&& exists|x: int| in_image(width, height, x, top) && pixel_visible(width, alpha, x, top)
    &&& exists|y: int| in_image(width, height, right, y) && pixel_visible(width, alpha, right, y)
    &&& exists|x: int| in_image(width, height, x, bottom) && pixel_visible(width, alpha, x, bottom)
}

pub open spec fn has_visible_pixel(width: u32, height: u32, alpha: Seq<u8>) -> bool {
    exists|x: int, y: int| in_image(width, height, x, y) && #[trigger] pixel_visible(width, alpha, x, y)
}

/// The visible box grown by `CROP_PADDING` on every side, kept inside the image.
pub open spec fn padded_box(
    width: u32,
    height: u32,
    left: int,
    top: int,
    right: int,
    bottom: int,
) -> (u32, u32, u32, u32) {
    (
        (if left >= CROP_PADDING { left - CROP_PADDING } else { 0 }) as u32,
        (if top >= CROP_PADDING { top - CROP_PADDING } else { 0 }) as u32,
        (if right + CROP_PADDING <= width - 1 { right + CROP_PADDING } else { width - 1 }) as u32,
        (if bottom + CROP_PADDING <= height - 1 { bottom + CROP_PADDING } else { height - 1 }) as u32,
    )
}

/// Cropping to the padded box keeps every visible pixel.
pub proof fn lemma_padded_box_keeps_visible_pixels(
    width: u32,
    height: u32,
    alpha: Seq<u8>,
    left: int,
    top: int,
    right: int,
    bottom: int,
    x: int,
    y: int,
)
    requires
        is_visible_box(width, height, alpha, left, top, right, bottom),
        in_image(width, height, x, y),
        pixel_visible(width, alpha, x, y),
    ensures
        ({
            let padded = padded_box(width, height, left, top, right, bottom);
            padded.0 <= x <= padded.2 && padded.1 <= y <= padded.3
        }),
{
}

/// The crop around visible artwork keeps `CROP_PADDING` pixels on each side
/// of it, or stops at the image border where fewer remain: each padded edge is
/// at most `CROP_PADDING` pixels outside the artwork, never past the border,
/// and either exactly `CROP_PADDING` outside or on the border.
pub proof fn lemma_padded_box_margins(
    width: u32,
    height: u32,
    alpha: Seq<u8>,
    left: int,
    top: int,
    right: int,
    bottom: int,
)
    requires
        is_visible_box(width, height, alpha, left, top, right, bottom),
    ensures
        ({
            let (l, t, r, b) = padded_box(width, height, left, top, right, bottom);
            &&& 0 <= l <= left && left - l <= CROP_PADDING && (l == 0 || l == left - CROP_PADDING)
            &&& 0 <= t <= top && top - t <= CROP_PADDING && (t == 0 || t == top - CROP_PADDING)
            &&& right <= r <= width - 1 && r - right <= CROP_PADDING
            &&& (r == width - 1 || r == right + CROP_PADDING)
            &&& bottom <= b <= height - 1 && b - bottom <= CROP_PADDING
            &&& (b == height - 1 || b == bottom + CROP_PADDING)
        }),
{
    let y = choose|y: int| in_image(width, height, left, y) && pixel_visible(width, alpha, left, y);
    let x = choose|x: int| in_image(width, height, x, top) && pixel_visible(width, alpha, x, top);
    let y2 = choose|y: int| in_image(width, height, right, y) && pixel_visible(width, alpha, right, y);
    let x2 = choose|x: int|
        in_image(width, height, x, bottom) && pixel_visible(width, alpha, x, bottom);
    assert(left <= right && top <= bottom);
}

pub open spec fn scanned(px: int, py: int, x: int, y: int) -> bool {
    py < y || (py == y && px < x)
}

proof fn lemma_pixel_index(width: u32, height: u32, x: int, y: int)
    requires
        in_image(width, height, x, y),
    ensures
        0 <= y * width + x < width * height,
{
    assert(0 <= y * width + x < width * height) by (nonlinear_arith)
        requires
            0 <= x < width,
            0 <= y < height,
    ;
}

/// The padded box around the visible pixels of an image, or `None` when
/// nothing in it is visible.
pub fn alpha_bounds(width: u32, height: u32, alpha: &[u8]) -> (r: Option<(u32, u32, u32, u32)>)
    requires
        alpha@.len() == width * height,
    ensures
        r is None <==> !has_visible_pixel(width, height, alpha@),
        r matches Some(padded) ==> exists|left: int, top: int, right: int, bottom: int|
            is_visible_box(width, height, alpha@, left, top, right, bottom) && padded == padded_box(
                width,
                height,
                left,
                top,
                right,
                bottom,
            ),
{
    let mut left: u32 = width;
    let mut top: u32 = height;
    let mut right: u32 = 0;
    let mut bottom: u32 = 0;
    let mut found = false;
    let ghost mut left_row: int = 0;
    let ghost mut top_column: int = 0;
    let ghost mut right_row: int = 0;
    let ghost mut bottom_column: int = 0;
    let total = alpha.len();
    let mut y: u32 = 0;
    while y < height
        invariant
            alpha@.len() == width * height,
            total == alpha@.len(),
            y <= height,
            found ==> forall|px: int, py: int|
                in_image(width, height, px, py) && scanned(px, py, 0, y as int)
                    && #[trigger] pixel_visible(width, alpha@, px, py) ==> left <= px <= right
                    && top <= py <= bottom,
            !found ==> forall|px: int, py: int|
                in_image(width, height, px, py) && scanned(px, py, 0, y as int)
                    ==> !#[trigger] pixel_visible(width, alpha@, px, py),
            found ==> in_image(width, height, left as int, left_row) && pixel_visible(
                width,
                alpha@,
                left as int,
                left_row,
            ),
            found ==> in_image(width, height, top_column, top as int) && pixel_visible(
                width,
                alpha@,
                top_column,
                top as int,
            ),
            found ==> in_image(width, height, right as int, right_row) && pixel_visible(
                width,
                alpha@,
                right as int,
                right_row,
            ),
            found ==> in_image(width, height, bottom_column, bottom as int) && pixel_visible(
                width,
                alpha@,
                bottom_column,
                bottom as int,
            ),
        decreases height - y,
    {
        let mut x: u32 = 0;
        while x < width
            invariant
                alpha@.len() == width * height,
                total == alpha@.len(),
                y < height,
                x <= width,
                found ==> forall|px: int, py: int|
                    in_image(width, height, px, py) && scanned(px, py, x as int, y as int)
                        && #[trigger] pixel_visible(width, alpha@, px, py) ==> left <= px <= right
                        && top <= py <= bottom,
                !found ==> forall|px: int, py: int|
                    in_image(width, height, px, py) && scanned(px, py, x as int, y as int)
                        ==> !#[trigger] pixel_visible(width, alpha@, px, py),
                found ==> in_image(width, height, left as int, left_row) && pixel_visible(
                    width,
                    alpha@,
                    left as int,
                    left_row,
                ),
                found ==> in_image(width, height, top_column, top as int) && pixel_visible(
                    width,
                    alpha@,
                    top_column,
                    top as int,
                ),
                found ==> in_image(width, height, right as int, right_row) && pixel_visible(
                    width,
                    alpha@,
                    right as int,
                    right_row,
                ),
                found ==> in_image(width, height, bottom_column, bottom as int) && pixel_visible(
                    width,
                    alpha@,
                    bottom_column,
                    bottom as int,
                ),
            decreases width - x,
        {
            proof {
                lemma_pixel_index(width, height, x as int, y as int);
                assert(y * width <= y * width + x);
                assert(y * width + x < total);
            }
            let index: usize = (y as usize) * (width as usize) + (x as usize);
            if alpha[index] > NOISE_ALPHA {
                assert(pixel_visible(width, alpha@, x as int, y as int));
                if !found || x < left {
                    left = x;
                    proof {
                        left_row = y as int;
                    }
                }
                if !found || y < top {
                    top = y;
                    proof {
                        top_column = x as int;
                    }
                }
                if !found || x > right {
                    right = x;
                    proof {
                        right_row = y as int;
                    }
                }
                if !found || y > bottom {
                    bottom = y;
                    proof {
                        bottom_column = x as int;
                    }
                }
                found = true;
            } else {
                assert(!pixel_visible(width, alpha@, x as int, y as int));
            }
            x = x + 1;
        }
        y = y + 1;
    }
    if !found {
        return None;
    }
    let padded_left = if left >= CROP_PADDING {
        left - CROP_PADDING
    } else {
        0
    };
    let padded_top = if top >= CROP_PADDING {
        top - CROP_PADDING
    } else {
        0
    };
    let padded_right = if right as u64 + CROP_PADDING as u64 <= width as u64 - 1 {
        right + CROP_PADDING
    } else {
        width - 1
    };
    let padded_bottom = if bottom as u64 + CROP_PADDING as u64 <= height as u64 - 1 {
        bottom + CROP_PADDING
    } else {
        height - 1
    };
    let padded = (padded_left, padded_top, padded_right, padded_bottom);
    proof {
        assert(is_visible_box(
            width,
            height,
            alpha@,
            left as int,
            top as int,
            right as int,
            bottom as int,
        ));
        assert(padded == padded_box(width, height, left as int, top as int, right as int, bottom as int));
    }
    Some(padded)
}


/// The smallest side an icon master may have.
pub const ICON_MASTER_MIN_SIZE: u32 = 512;

/// Why an icon master cannot be used.
#[derive(Clone, Copy, Debug, PartialEq, Eq, Structural)]
pub enum IconMasterError {
    NotSquare { width: u32, height: u32 },
    TooSmall { width: u32, height: u32 },
    /// Every pixel is fully opaque, so the artwork has no real alpha channel.
    NoTransparency,
}

pub open spec fn has_transparent_pixel(alpha: Seq<u8>) -> bool {
    exists|i: int| 0 <= i < alpha.len() && alpha[i] < 255
}

pub open spec fn spec_check_icon_master(width: u32, height: u32, alpha: Seq<u8>) -> Result<
    (),
    IconMasterError,
> {
    if width != height {
        Err(IconMasterError::NotSquare { width, height })
    } else if width < ICON_MASTER_MIN_SIZE {
        Err(IconMasterError::TooSmall { width, height })
    } else if !has_transparent_pixel(alpha) {
        Err(IconMasterError::NoTransparency)
    } else {
        Ok(())
    }
}

/// Accepts a square master of at least `ICON_MASTER_MIN_SIZE` pixels with
/// some transparency.
pub fn check_icon_master(width: u32, height: u32, alpha: &[u8]) -> (r: Result<(), IconMasterError>)
    ensures
        r == spec_check_icon_master(width, height, alpha@),
{
    if width != height {
        return Err(IconMasterError::NotSquare { width, height });
    }
    if width < ICON_MASTER_MIN_SIZE {
        return Err(IconMasterError::TooSmall { width, height });
    }
    let mut index: usize = 0;
    while index < alpha.len()
        invariant
            width == height,
            width >= ICON_MASTER_MIN_SIZE,
            index <= alpha@.len(),
            forall|i: int| 0 <= i < index ==> alpha@[i] == 255,
        decreases alpha@.len() - index,
    {
        if alpha[index] < 255 {
            assert(alpha@[index as int] < 255);
            return Ok(());
        }
        index = index + 1;
    }
    Err(IconMasterError::NoTransparency)
}

/// Every size the application icon carries, in pixels.
pub const ICO_SIZES: [u32; 9] = [16, 20, 24, 32, 40, 48, 64, 128, 256];

pub open spec fn ico_sizes() -> Seq<u32> {
    seq![16, 20, 24, 32, 40, 48, 64, 128, 256]
}

/// The width or height byte of a directory entry: 256 is written as 0.
pub open spec fn ico_dimension(size: u32) -> u8 {
    if size == 256 {
        0
    } else {
        size as u8
    }
}

pub open spec fn byte_views(images: Seq<Vec<u8>>) -> Seq<Seq<u8>> {
    images.map_values(|image: Vec<u8>| image@)
}

/// Total length of the images.
pub open spec fn total_len(images: Seq<Seq<u8>>) -> int
    decreases images.len(),
{
    if images.len() == 0 {
        0
    } else {
        total_len(images.drop_last()) + images.last().len()
    }
}

/// The images one after another.
pub open spec fn concat(images: Seq<Seq<u8>>) -> Seq<u8>
    decreases images.len(),
{
    if images.len() == 0 {
        Seq::empty()
    } else {
        concat(images.drop_last()) + images.last()
    }
}

/// One 16-byte directory entry: PNG payload, 32 bits per pixel.
pub open spec fn ico_entry(size: u32, image_len: int, offset: int) -> Seq<u8> {
    seq![ico_dimension(size), ico_dimension(size), 0u8, 0u8] + le_u16(1) + le_u16(32) + le_u32(
        image_len as u32,
    ) + le_u32(offset as u32)
}

/// The directory entries of `images`, the i-th one sized `ico_sizes()[i]`, the
/// first image starting at `first_offset` and each next one right after.
pub open spec fn ico_directory(images: Seq<Seq<u8>>, first_offset: int) -> Seq<u8>
    decreases images.len(),
{
    if images.len() == 0 {
        Seq::empty()
    } else {
        ico_directory(images.drop_last(), first_offset) + ico_entry(
            ico_sizes()[images.len() - 1],
            images.last().len() as int,
            first_offset + total_len(images.drop_last()),
        )
    }
}

/// Size of the header and directory of an icon with `count` images.
pub open spec fn ico_header_len(count: int) -> int {
    6 + 16 * count
}

/// An ICO file holding `images` as PNG payloads, one per entry of `ico_sizes()`.
pub open spec fn spec_ico_file(images: Seq<Seq<u8>>) -> Seq<u8> {
    le_u16(0) + le_u16(1) + le_u16(images.len() as u16) + ico_directory(
        images,
        ico_header_len(images.len() as int),
    ) + concat(images)
}

proof fn lemma_total_len_nonneg(images: Seq<Seq<u8>>)
    ensures
        total_len(images) >= 0,
    decreases images.len(),
{
    if images.len() > 0 {
        lemma_total_len_nonneg(images.drop_last());
    }
}

pub(crate) proof fn lemma_total_len_prefix(images: Seq<Seq<u8>>, count: int)
    requires
        0 <= count <= images.len(),
    ensures
        0 <= total_len(images.subrange(0, count)) <= total_len(images),
    decreases images.len() - count,
{
    lemma_total_len_nonneg(images.subrange(0, count));
    if count < images.len() {
        lemma_total_len_prefix(images, count + 1);
        assert(images.subrange(0, count + 1).drop_last() == images.subrange(0, count));
    } else {
        assert(images.subrange(0, count) == images);
    }
}

proof fn lemma_ico_entry_len(size: u32, image_len: int, offset: int)
    ensures
        ico_entry(size, image_len, offset).len() == 16,
{
}

proof fn lemma_ico_directory_entry(images: Seq<Seq<u8>>, first_offset: int, i: int)
    requires
        0 <= i < images.len(),
    ensures
        ico_directory(images, first_offset).len() == 16 * images.len(),
        ico_directory(images, first_offset).subrange(16 * i, 16 * i + 16) == ico_entry(
            ico_sizes()[i],
            images[i].len() as int,
            first_offset + total_len(images.subrange(0, i)),
        ),
    decreases images.len(),
{
    let last = images.len() - 1;
    let prefix = images.drop_last();
    let entry = ico_entry(
        ico_sizes()[last],
        images.last().len() as int,
        first_offset + total_len(prefix),
    );
    lemma_ico_entry_len(ico_sizes()[last], images.last().len() as int, first_offset + total_len(prefix));
    if i < last {
        lemma_ico_directory_entry(prefix, first_offset, i);
        assert(prefix.subrange(0, i) == images.subrange(0, i));
        assert(ico_directory(images, first_offset).subrange(16 * i, 16 * i + 16)
            == ico_directory(prefix, first_offset).subrange(16 * i, 16 * i + 16));
    } else {
        let before = ico_directory(prefix, first_offset);
        if last > 0 {
            lemma_ico_directory_entry(prefix, first_offset, 0);
        } else {
            assert(prefix.len() == 0);
            assert(before == Seq::<u8>::empty());
        }
        assert(before.len() == 16 * last);
        assert(ico_directory(images, first_offset) == before + entry);
        assert(images.subrange(0, i) == prefix);
        assert(entry.len() == 16);
        assert(ico_directory(images, first_offset).subrange(16 * i, 16 * i + 16) =~= entry);
    }
}

proof fn lemma_concat_image(images: Seq<Seq<u8>>, i: int)
    requires
        0 <= i < images.len(),
    ensures
        concat(images).len() == total_len(images),
        0 <= total_len(images.subrange(0, i)),
        total_len(images.subrange(0, i)) + images[i].len() <= total_len(images),
        concat(images).subrange(
            total_len(images.subrange(0, i)),
            total_len(images.subrange(0, i)) + images[i].len(),
        ) == images[i],
    decreases images.len(),
{
    let last = images.len() - 1;
    let prefix = images.drop_last();
    lemma_total_len_nonneg(prefix);
    if i < last {
        lemma_concat_image(prefix, i);
        assert(prefix.subrange(0, i) == images.subrange(0, i));
        let start = total_len(images.subrange(0, i));
        assert(concat(images).subrange(start, start + images[i].len()) == concat(prefix).subrange(
            start,
            start + images[i].len(),
        ));
    } else {
        if last > 0 {
            lemma_concat_image(prefix, 0);
        } else {
            assert(prefix.len() == 0);
        }
        assert(images.subrange(0, i) == prefix);
        assert(concat(prefix).len() == total_len(prefix));
        assert(concat(images) == concat(prefix) + images.last());
        assert(images.last() == images[i]);
        assert(concat(images).subrange(total_len(prefix), total_len(prefix) + images[i].len())
            =~= images[i]);
    }
}

/// The layout of an icon file: the i-th directory entry describes the i-th
/// image (its size, byte length and offset), and that offset is where the
/// image's bytes lie in the file.
pub proof fn lemma_ico_file_layout(images: Seq<Seq<u8>>, i: int)
    requires
        images.len() == ICO_SIZES.len(),
        0 <= i < images.len(),
    ensures
        ({
            let file = spec_ico_file(images);
            let offset = ico_header_len(9) + total_len(images.subrange(0, i));
            &&& file.subrange(0, 6) == le_u16(0) + le_u16(1) + le_u16(9)
            &&& file.subrange(6 + 16 * i, 6 + 16 * i + 16) == ico_entry(
                ico_sizes()[i],
                images[i].len() as int,
                offset,
            )
            &&& offset + images[i].len() <= file.len()
            &&& file.subrange(offset, offset + images[i].len()) == images[i]
        }),
{
    let header = le_u16(0) + le_u16(1) + le_u16(9);
    let directory = ico_directory(images, ico_header_len(9));
    let file = spec_ico_file(images);
    lemma_ico_directory_entry(images, ico_header_len(9), i);
    lemma_concat_image(images, i);
    assert(file == header + directory + concat(images));
    assert(header.len() == 6);
    let start = total_len(images.subrange(0, i));
    assert(file.subrange(0, 6) == header);
    assert(file.subrange(6 + 16 * i, 6 + 16 * i + 16) == directory.subrange(16 * i, 16 * i + 16));
    assert(file.subrange(150 + start, 150 + start + images[i].len()) == concat(images).subrange(
        start,
        start + images[i].len(),
    ));
}

/// Assembles an icon from the PNG encodings of the master at each of
/// `ICO_SIZES`, in that order.
pub fn ico_container(images: &Vec<Vec<u8>>) -> (r: Vec<u8>)
    requires
        images@.len() == ICO_SIZES.len(),
        ico_header_len(images@.len() as int) + total_len(byte_views(images@)) <= u32::MAX,
    ensures
        r@ == spec_ico_file(byte_views(images@)),
{
    let ghost views = byte_views(images@);
    let count = images.len();
    let mut ico: Vec<u8> = Vec::new();
    push_le_u16(&mut ico, 0);
    push_le_u16(&mut ico, 1);
    push_le_u16(&mut ico, count as u16);
    let ghost header = ico@;
    let header_len: u32 = 6 + 16 * (count as u32);
    let mut offset: u32 = header_len;
    let mut index: usize = 0;
    while index < count
        invariant
            count == images@.len(),
            count == ICO_SIZES.len(),
            views == byte_views(images@),
            header_len == ico_header_len(count as int),
            ico_header_len(count as int) + total_len(views) <= u32::MAX,
            index <= count,
            offset == header_len + total_len(views.subrange(0, index as int)),
            ico@ == header + ico_directory(views.subrange(0, index as int), header_len as int),
        decreases count - index,
    {
        let ghost before = views.subrange(0, index as int);
        let ghost after = views.subrange(0, index + 1);
        assert(after.drop_last() == before);
        assert(after.last() == images@[index as int]@);
        proof {
            lemma_total_len_prefix(views, index + 1);
        }
        let size = ICO_SIZES[index];
        assert(size == ico_sizes()[index as int]);
        let dimension: u8 = if size == 256 {
            0
        } else {
            size as u8
        };
        let image_len = images[index].len();
        ico.push(dimension);
        ico.push(dimension);
        ico.push(0);
        ico.push(0);
        push_le_u16(&mut ico, 1);
        push_le_u16(&mut ico, 32);
        push_le_u32(&mut ico, image_len as u32);
        push_le_u32(&mut ico, offset);
        assert(ico@ == header + ico_directory(after, header_len as int));
        offset = offset + image_len as u32;
        index = index + 1;
    }
    assert(views.subrange(0, count as int) == views);
    let ghost directory = ico@;
    let mut image_index: usize = 0;
    while image_index < count
        invariant
            count == images@.len(),
            views == byte_views(images@),
            image_index <= count,
            ico@ == directory + concat(views.subrange(0, image_index as int)),
        decreases count - image_index,
    {
        let ghost before = views.subrange(0, image_index as int);
        let ghost after = views.subrange(0, image_index + 1);
        assert(after.drop_last() == before);
        let image = &images[image_index];
        let mut byte_index: usize = 0;
        while byte_index < image.len()
            invariant
                byte_index <= image@.len(),
                ico@ == directory + concat(before) + image@.subrange(0, byte_index as int),
            decreases image@.len() - byte_index,
        {
            ico.push(image[byte_index]);
            byte_index = byte_index + 1;
            assert(image@.subrange(0, byte_index as int) == image@.subrange(0, byte_index - 1).push(
                image@[byte_index - 1],
            ));
        }
        assert(image@.subrange(0, image@.len() as int) == image@);
        assert(after.last() == image@);
        image_index = image_index + 1;
    }
    ico
}

} // verus!
