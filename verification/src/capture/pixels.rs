//! Images as rows of red, green, blue and alpha bytes, and their encodings.

use image::codecs::jpeg::JpegEncoder;
use image::codecs::png::{CompressionType, FilterType, PngEncoder};
use image::{imageops, DynamicImage, ExtendedColorType, ImageEncoder, RgbaImage};
use vstd::prelude::*;
use vstd::string::*;

use crate::config::ImageFormat;

verus! {

// ---------------------------------------------------------------------------
// Images
// ---------------------------------------------------------------------------

/// A picture of four bytes for each pixel, from the top row to the bottom row.
#[derive(Debug)]
pub struct Image {
    width: u32,
    height: u32,
    pixels: Vec<u8>,
}

/// What an [`Image`] holds.
#[verifier::ext_equal]
pub struct ImageView {
    pub width: u32,
    pub height: u32,
    pub pixels: Seq<u8>,
}

/// How many pixels there are.
pub open spec fn area(width: u32, height: u32) -> int {
    width * height
}

/// Where the byte of a channel of a pixel stands.
pub open spec fn place(width: u32, x: int, y: int, channel: int) -> int {
    4 * (y * width + x) + channel
}

impl ImageView {
    /// Whether there are as many bytes as the size asks for.
    pub open spec fn is_image(self) -> bool {
        self.pixels.len() == 4 * area(self.width, self.height)
    }

    /// The byte of a channel of a pixel.
    pub open spec fn at(self, x: int, y: int, channel: int) -> u8 {
        self.pixels[place(self.width, x, y, channel)]
    }
}

proof fn lemma_place(width: u32, height: u32, x: int, y: int, channel: int)
    requires
        0 <= x < width,
        0 <= y < height,
        0 <= channel < 4,
    ensures
        0 <= y * width,
        0 <= y * width + x < area(width, height),
        0 <= place(width, x, y, channel) < 4 * area(width, height),
{
    assert(0 <= y * width && y * width + x < width * height) by (nonlinear_arith)
        requires
            0 <= x < width,
            0 <= y < height,
    ;
}

/// Every pixel of a picture has its coordinates.
proof fn lemma_coordinates(width: u32, height: u32, i: int)
    requires
        0 <= i < 4 * area(width, height),
    ensures
        0 < width,
        0 <= (i / 4) % (width as int) < width,
        0 <= (i / 4) / (width as int) < height,
        0 <= i % 4 < 4,
        i == place(width, (i / 4) % (width as int), (i / 4) / (width as int), i % 4),
{
    let w = width as int;
    let h = height as int;
    let p = i / 4;
    assert(w > 0 && h > 0) by (nonlinear_arith)
        requires
            0 <= w,
            0 <= h,
            0 < 4 * (w * h),
    ;
    vstd::arithmetic::div_mod::lemma_fundamental_div_mod(p, w);
    assert(p / w < h) by (nonlinear_arith)
        requires
            p == w * (p / w) + p % w,
            0 <= p % w < w,
            0 <= p < w * h,
            w > 0,
    ;
    assert(0 <= p / w) by (nonlinear_arith)
        requires
            0 <= p,
            w > 0,
    ;
    assert(w * (p / w) == (p / w) * w) by (nonlinear_arith);
}

impl View for Image {
    type V = ImageView;

    closed spec fn view(&self) -> ImageView {
        ImageView { width: self.width, height: self.height, pixels: self.pixels@ }
    }
}

impl Image {
    #[verifier::type_invariant]
    closed spec fn valid(self) -> bool {
        self.pixels.len() == 4 * area(self.width, self.height)
    }

    /// A picture whose bytes are all zero.
    pub fn new(width: u32, height: u32) -> (r: Image)
        requires
            4 * area(width, height) <= usize::MAX,
        ensures
            r@.is_image(),
            r@.width == width,
            r@.height == height,
            forall|i: int| 0 <= i < r@.pixels.len() ==> #[trigger] r@.pixels[i] == 0,
    {
        proof {
            assert(0 <= width * height) by (nonlinear_arith);
        }
        let len: usize = (4 * (width as u128 * height as u128)) as usize;
        let pixels: Vec<u8> = vec![0u8; len];
        Image { width, height, pixels }
    }

    /// A picture of these bytes, where there are enough of them. Bytes past the
    /// last pixel are dropped.
    pub fn from_raw(width: u32, height: u32, pixels: Vec<u8>) -> (r: Option<Image>)
        ensures
            r is Some <==> pixels.len() >= 4 * area(width, height),
            r is Some <==> pixels.len() >= 4 * (width * height),
            r matches Some(image) ==> image@.pixels.len() == 4 * (width * height),
            r matches Some(image) ==> forall|i: int|
                0 <= i < 4 * (width * height) ==> #[trigger] image@.pixels[i] == pixels@[i],
            r matches Some(image) ==> image@.is_image() && image@.width == width
                && image@.height == height && image@.pixels == pixels@.take(
                4 * area(width, height),
            ),
    {
        proof {
            assert(0 <= width * height <= 0xffff_ffff * 0xffff_ffff) by (nonlinear_arith)
                requires
                    0 <= width <= 0xffff_ffff,
                    0 <= height <= 0xffff_ffff,
            ;
        }
        let needed: u128 = 4 * (width as u128 * height as u128);
        if (pixels.len() as u128) < needed {
            return None;
        }
        let mut kept: Vec<u8> = pixels;
        kept.truncate(needed as usize);
        Some(Image { width, height, pixels: kept })
    }

    pub fn width(&self) -> (r: u32)
        ensures
            r == self@.width,
    {
        self.width
    }

    pub fn height(&self) -> (r: u32)
        ensures
            r == self@.height,
    {
        self.height
    }

    pub fn dimensions(&self) -> (r: (u32, u32))
        ensures
            r == (self@.width, self@.height),
    {
        (self.width, self.height)
    }

    /// The bytes, row by row.
    pub fn as_raw(&self) -> (r: &Vec<u8>)
        ensures
            r@ == self@.pixels,
            self@.is_image(),
    {
        proof {
            use_type_invariant(self);
        }
        &self.pixels
    }

    /// The bytes of one pixel.
    pub fn get_pixel(&self, x: u32, y: u32) -> (r: [u8; 4])
        requires
            x < self@.width,
            y < self@.height,
        ensures
            forall|c: int| 0 <= c < 4 ==> #[trigger] r@[c] == self@.at(x as int, y as int, c),
            forall|c: int|
                0 <= c < 4 ==> #[trigger] r@[c] == self@.pixels[4 * (y * self@.width + x) + c],
    {
        proof {
            use_type_invariant(self);
            lemma_place(self.width, self.height, x as int, y as int, 0);
            lemma_place(self.width, self.height, x as int, y as int, 3);
        }
        let at: usize = 4 * (y as usize * self.width as usize + x as usize);
        [self.pixels[at], self.pixels[at + 1], self.pixels[at + 2], self.pixels[at + 3]]
    }

    /// The part of the picture that starts at a pixel and has a size.
    pub fn crop(&self, x: u32, y: u32, width: u32, height: u32) -> (r: Image)
        requires
            x + width <= self@.width,
            y + height <= self@.height,
        ensures
            r@.is_image(),
            r@.width == width,
            r@.height == height,
            forall|i: int, j: int, c: int|
                0 <= i < width && 0 <= j < height && 0 <= c < 4 ==> #[trigger] r@.at(i, j, c)
                    == self@.at(x + i, y + j, c),
    {
        proof {
            use_type_invariant(self);
        }
        let pixels: Vec<u8> = crop_pixels(
            &self.pixels,
            self.width,
            self.height,
            x,
            y,
            width,
            height,
        );
        Image { width, height, pixels }
    }

    /// The picture with the alpha of its first pixels set to the bytes of `coverage`. The colours
    /// stay as they are.
    pub fn apply_coverage(self, coverage: &Vec<u8>) -> (r: Image)
        ensures
            r@ == covered(self@, coverage@),
            r@.width == self@.width,
            r@.height == self@.height,
            r@.pixels.len() == self@.pixels.len(),
            forall|k: int|
                0 <= k < self@.pixels.len() ==> #[trigger] r@.pixels[k] == if k % 4 == 3 && k / 4
                    < coverage@.len() {
                    coverage@[k / 4]
                } else {
                    self@.pixels[k]
                },
    {
        proof {
            use_type_invariant(&self);
        }
        let mut pixels: Vec<u8> = self.pixels;
        let ghost before = pixels@;
        let count: usize = pixels.len() / 4;
        let mut i: usize = 0;
        while i < count && i < coverage.len()
            invariant
                0 <= i <= count,
                i <= coverage.len(),
                pixels.len() == before.len(),
                count == before.len() / 4,
                forall|k: int|
                    0 <= k < before.len() ==> #[trigger] pixels@[k] == if k % 4 == 3 && k / 4 < i {
                        coverage@[k / 4]
                    } else {
                        before[k]
                    },
            decreases count - i,
        {
            let byte: u8 = coverage[i];
            pixels.set(4 * i + 3, byte);
            i += 1;
        }
        assert(pixels@ =~= covered(self@, coverage@).pixels);
        Image { width: self.width, height: self.height, pixels }
    }

    /// The colours without the alpha: three bytes for each pixel.
    pub fn to_rgb(&self) -> (r: Vec<u8>)
        ensures
            r@ == packed(self@.pixels),
            r.len() == 3 * area(self@.width, self@.height),
            r.len() == 3 * (self@.width * self@.height),
            forall|k: int|
                0 <= k < r.len() ==> #[trigger] r@[k] == self@.pixels[4 * (k / 3) + k % 3],
    {
        proof {
            use_type_invariant(self);
            assert(0 <= self.width * self.height) by (nonlinear_arith);
        }
        let count: usize = self.pixels.len() / 4;
        let mut rgb: Vec<u8> = Vec::new();
        let mut i: usize = 0;
        while i < count
            invariant
                0 <= i <= count,
                count == self.pixels.len() / 4,
                rgb.len() == 3 * i,
                forall|k: int|
                    0 <= k < 3 * i ==> #[trigger] rgb@[k] == self.pixels@[4 * (k / 3) + k % 3],
            decreases count - i,
        {
            rgb.push(self.pixels[4 * i]);
            rgb.push(self.pixels[4 * i + 1]);
            rgb.push(self.pixels[4 * i + 2]);
            i += 1;
        }
        assert(rgb@ =~= packed(self@.pixels));
        rgb
    }
}

/// A picture with its alpha taken from `coverage`, as far as that reaches.
pub open spec fn covered(image: ImageView, coverage: Seq<u8>) -> ImageView {
    ImageView {
        width: image.width,
        height: image.height,
        pixels: Seq::new(
            image.pixels.len(),
            |k: int|
                if k % 4 == 3 && k / 4 < coverage.len() {
                    coverage[k / 4]
                } else {
                    image.pixels[k]
                },
        ),
    }
}

/// The colours of each pixel, without its alpha.
pub open spec fn packed(pixels: Seq<u8>) -> Seq<u8> {
    Seq::new(3 * (pixels.len() / 4), |k: int| pixels[4 * (k / 3) + k % 3])
}

/// `image::imageops::crop_imm` and `SubImage::to_image`.
///
/// A copy of the pixels of a part that lies within the image, row by row.
#[verifier::external_body]
fn crop_pixels(
    pixels: &Vec<u8>,
    width: u32,
    height: u32,
    x: u32,
    y: u32,
    part_width: u32,
    part_height: u32,
) -> (r: Vec<u8>)
    requires
        pixels.len() == 4 * area(width, height),
        x + part_width <= width,
        y + part_height <= height,
    ensures
        r.len() == 4 * area(part_width, part_height),
        forall|i: int, j: int, c: int|
            0 <= i < part_width && 0 <= j < part_height && 0 <= c < 4
                ==> r@[#[trigger] place(part_width, i, j, c)] == pixels@[place(
                width,
                x + i,
                y + j,
                c,
            )],
{
    let whole = RgbaImage::from_raw(width, height, pixels.clone()).unwrap();
    imageops::crop_imm(&whole, x, y, part_width, part_height).to_image().into_raw()
}

// ---------------------------------------------------------------------------
// Bytes from the screen
// ---------------------------------------------------------------------------

/// Whether the byte at `k` belongs to a whole pixel.
pub open spec fn in_pixel(len: int, k: int) -> bool {
    4 * (k / 4) + 4 <= len
}

/// The bytes with every pixel made opaque.
pub open spec fn opaque(pixels: Seq<u8>) -> Seq<u8> {
    Seq::new(
        pixels.len(),
        |k: int|
            if in_pixel(pixels.len() as int, k) && k % 4 == 3 {
                255u8
            } else {
                pixels[k]
            },
    )
}

/// The bytes with the first and the third of each pixel exchanged, and every
/// pixel made opaque.
pub open spec fn swapped_opaque(pixels: Seq<u8>) -> Seq<u8> {
    Seq::new(
        pixels.len(),
        |k: int|
            if !in_pixel(pixels.len() as int, k) {
                pixels[k]
            } else if k % 4 == 0 {
                pixels[k + 2]
            } else if k % 4 == 1 {
                pixels[k]
            } else if k % 4 == 2 {
                pixels[k - 2]
            } else {
                255u8
            },
    )
}

/// Makes every pixel opaque. The screen is read with an alpha of zero.
pub fn force_opaque(pixels: &mut Vec<u8>)
    ensures
        final(pixels)@ == opaque(old(pixels)@),
{
    let count: usize = pixels.len() / 4;
    let mut i: usize = 0;
    while i < count
        invariant
            0 <= i <= count,
            count == old(pixels)@.len() / 4,
            pixels.len() == old(pixels)@.len(),
            forall|k: int|
                0 <= k < pixels.len() ==> #[trigger] pixels@[k] == if k < 4 * i && k % 4 == 3 {
                    255u8
                } else {
                    old(pixels)@[k]
                },
        decreases count - i,
    {
        pixels.set(4 * i + 3, 255);
        i += 1;
    }
    assert(pixels@ =~= opaque(old(pixels)@));
}

/// Turns pixels of blue, green, red and alpha into opaque pixels of red, green,
/// blue and alpha.
pub fn bgra_to_rgba(pixels: &mut Vec<u8>)
    ensures
        final(pixels)@ == swapped_opaque(old(pixels)@),
{
    let count: usize = pixels.len() / 4;
    let ghost before = pixels@;
    let mut i: usize = 0;
    while i < count
        invariant
            0 <= i <= count,
            before == old(pixels)@,
            count == before.len() / 4,
            pixels.len() == before.len(),
            forall|k: int|
                0 <= k < pixels.len() ==> #[trigger] pixels@[k] == if k < 4 * i {
                    swapped_opaque(before)[k]
                } else {
                    before[k]
                },
        decreases count - i,
    {
        let first: u8 = pixels[4 * i];
        let third: u8 = pixels[4 * i + 2];
        pixels.set(4 * i, third);
        pixels.set(4 * i + 2, first);
        pixels.set(4 * i + 3, 255);
        i += 1;
    }
    assert(pixels@ =~= swapped_opaque(before));
}

// ---------------------------------------------------------------------------
// Encodings
// ---------------------------------------------------------------------------

/// The PNG file of opaque or transparent pixels, or the words of the error.
pub uninterp spec fn png_file(pixels: Seq<u8>, width: u32, height: u32) -> Result<
    Seq<u8>,
    Seq<char>,
>;

/// The JPEG file of three bytes for each pixel, or the words of the error.
pub uninterp spec fn jpeg_file(rgb: Seq<u8>, width: u32, height: u32, quality: u8) -> Result<
    Seq<u8>,
    Seq<char>,
>;

/// The picture in a PNG file, or the words of the error.
pub uninterp spec fn png_picture(bytes: Seq<u8>) -> Result<ImageView, Seq<char>>;

/// The picture in a JPEG file, or the words of the error.
pub uninterp spec fn jpeg_picture(bytes: Seq<u8>) -> Result<ImageView, Seq<char>>;

/// The three bytes for each pixel of a picture that is scaled to fit a square, with
/// its width and its height.
pub uninterp spec fn shrunk(pixels: Seq<u8>, width: u32, height: u32, edge: u32) -> (
    Seq<u8>,
    u32,
    u32,
);

/// The most bytes of a picture that are read.
pub const READER_LIMIT: usize = 0x2000_0000;

/// The picture in a file of a format, or the words of the error.
pub open spec fn picture_in(bytes: Seq<u8>, format: ImageFormat) -> Result<ImageView, Seq<char>> {
    match format {
        ImageFormat::Png => png_picture(bytes),
        ImageFormat::Jpeg => jpeg_picture(bytes),
    }
}

/// What a result holds.
pub open spec fn bytes_view(r: Result<Vec<u8>, String>) -> Result<Seq<u8>, Seq<char>> {
    match r {
        Ok(bytes) => Ok(bytes@),
        Err(error) => Err(error@),
    }
}

/// What a result holds.
pub open spec fn image_view(r: Result<Image, String>) -> Result<ImageView, Seq<char>> {
    match r {
        Ok(image) => Ok(image@),
        Err(error) => Err(error@),
    }
}

/// Whether reading a file gave this picture.
pub open spec fn shows(read: Result<ImageView, Seq<char>>, image: ImageView) -> bool {
    read == Ok::<ImageView, Seq<char>>(image)
}

/// Whether a picture of this size has pixels.
pub open spec fn has_pixels(width: u32, height: u32) -> bool {
    width > 0 && height > 0
}

/// Whether a picture of this size has pixels and a place in a JPEG file.
pub open spec fn fits_jpeg(width: u32, height: u32) -> bool {
    1 <= width <= 65535 && 1 <= height <= 65535
}

/// Whether a picture of this size has a file of this format.
pub open spec fn encodable(width: u32, height: u32, format: ImageFormat) -> bool {
    match format {
        ImageFormat::Png => has_pixels(width, height),
        ImageFormat::Jpeg => fits_jpeg(width, height),
    }
}

/// The bytes that every PNG file starts with.
pub open spec fn has_png_signature(bytes: Seq<u8>) -> bool {
    bytes.len() >= 8 && bytes.take(8) == seq![0x89u8, 0x50, 0x4e, 0x47, 0x0d, 0x0a, 0x1a, 0x0a]
}

/// The bytes that every JPEG file starts with.
pub open spec fn has_jpeg_signature(bytes: Seq<u8>) -> bool {
    bytes.len() >= 3 && bytes.take(3) == seq![0xffu8, 0xd8, 0xff]
}

/// `image::codecs::png::PngEncoder::write_image`, fast and with adaptive filters,
/// to memory.
///
/// The file depends on the arguments alone. There is one for every picture that
/// has pixels, and it starts as every PNG file does. A picture of no more bytes than
/// are read is read back from it byte for byte.
#[verifier::external_body]
fn write_png(pixels: &Vec<u8>, width: u32, height: u32) -> (r: Result<Vec<u8>, String>)
    requires
        pixels.len() == 4 * area(width, height),
    ensures
        bytes_view(r) == png_file(pixels@, width, height),
        r is Ok <==> has_pixels(width, height),
        r matches Ok(bytes) ==> has_png_signature(bytes@),
        r matches Ok(bytes) ==> (pixels.len() <= READER_LIMIT ==> shows(
            png_picture(bytes@),
            (ImageView { width, height, pixels: pixels@ }),
        )),
{
    let mut out = Vec::new();
    PngEncoder::new_with_quality(&mut out, CompressionType::Fast, FilterType::Adaptive)
        .write_image(pixels, width, height, ExtendedColorType::Rgba8)
        .map_err(|e| e.to_string())?;
    Ok(out)
}

/// `image::codecs::jpeg::JpegEncoder::encode` to memory.
///
/// The file depends on the arguments alone. There is one for every picture whose
/// sides can be told in sixteen bits and are not zero.
#[verifier::external_body]
fn write_jpeg(rgb: &Vec<u8>, width: u32, height: u32, quality: u8) -> (r: Result<Vec<u8>, String>)
    requires
        rgb.len() == 3 * area(width, height),
    ensures
        bytes_view(r) == jpeg_file(rgb@, width, height, quality),
        r is Ok <==> fits_jpeg(width, height),
{
    let mut out = Vec::new();
    JpegEncoder::new_with_quality(&mut out, quality)
        .encode(rgb, width, height, ExtendedColorType::Rgb8)
        .map_err(|e| e.to_string())?;
    Ok(out)
}

/// `image::load_from_memory_with_format` and `DynamicImage::to_rgba8`.
///
/// The picture has as many bytes as its size asks for, and it depends on the file
/// alone: the JPEG decoder works in integers, and its code for the vector units of a
/// processor gives the bits that its plain code gives. No picture of more pixels
/// than bytes may be read is given, since each pixel is at least one byte.
#[verifier::external_body]
fn read_image(bytes: &Vec<u8>, format: ImageFormat) -> (r: Result<Image, String>)
    ensures
        r matches Ok(image) ==> image@.is_image(),
        r matches Ok(image) ==> area(image@.width, image@.height) <= READER_LIMIT,
        image_view(r) == picture_in(bytes@, format),
{
    let format = match format {
        ImageFormat::Png => image::ImageFormat::Png,
        ImageFormat::Jpeg => image::ImageFormat::Jpeg,
    };
    let rgba = image::load_from_memory_with_format(bytes, format)
        .map_err(|e| e.to_string())?
        .to_rgba8();
    let (width, height) = rgba.dimensions();
    Ok(Image { width, height, pixels: rgba.into_raw() })
}

/// `image::load_from_memory` and `DynamicImage::to_rgba8`.
///
/// The format is told from the first bytes: a PNG or a JPEG file is read as such.
/// Which other formats are read depends on how the decoders were built, so of other
/// bytes it is only said that a picture has as many bytes as its size asks for.
#[verifier::external_body]
fn read_any_image(bytes: &Vec<u8>) -> (r: Result<Image, String>)
    ensures
        r matches Ok(image) ==> image@.is_image(),
        has_png_signature(bytes@) ==> image_view(r) == png_picture(bytes@),
        has_jpeg_signature(bytes@) ==> image_view(r) == jpeg_picture(bytes@),
{
    let rgba = image::load_from_memory(bytes).map_err(|e| e.to_string())?.to_rgba8();
    let (width, height) = rgba.dimensions();
    Ok(Image { width, height, pixels: rgba.into_raw() })
}

/// `DynamicImage::thumbnail` of eight bits for each channel, and
/// `DynamicImage::to_rgb8`.
///
/// The thumbnail has pixels, none of its sides is longer than asked for, and it has
/// three bytes for each pixel. It depends on the arguments alone. The sums of the
/// pixels that become one are counted in 32 bits: the bounds on the picture and on
/// the square keep them there.
#[verifier::external_body]
fn shrink_pixels(pixels: &Vec<u8>, width: u32, height: u32, edge: u32) -> (r: (Vec<u8>, u32, u32))
    requires
        pixels.len() == 4 * area(width, height),
        area(width, height) <= READER_LIMIT,
        256 <= edge <= 65535,
    ensures
        (r.0@, r.1, r.2) == shrunk(pixels@, width, height, edge),
        1 <= r.1 <= edge,
        1 <= r.2 <= edge,
        r.0.len() == 3 * area(r.1, r.2),
{
    let whole = RgbaImage::from_raw(width, height, pixels.clone()).unwrap();
    let rgb = DynamicImage::ImageRgba8(whole).thumbnail(edge, edge).to_rgb8();
    let (width, height) = rgb.dimensions();
    (rgb.into_raw(), width, height)
}

fn prefixed(prefix: &str, error: String) -> (r: String)
    ensures
        r@ == prefix@ + error@,
{
    let mut out: String = prefix.to_owned();
    out.append(error.as_str());
    out
}

/// A result with words put before its error.
pub open spec fn with_prefix(r: Result<Seq<u8>, Seq<char>>, prefix: Seq<char>) -> Result<
    Seq<u8>,
    Seq<char>,
> {
    match r {
        Ok(bytes) => Ok(bytes),
        Err(error) => Err(prefix + error),
    }
}

fn add_prefix(r: Result<Vec<u8>, String>, prefix: &str) -> (q: Result<Vec<u8>, String>)
    ensures
        bytes_view(q) == with_prefix(bytes_view(r), prefix@),
{
    match r {
        Ok(bytes) => Ok(bytes),
        Err(error) => Err(prefixed(prefix, error)),
    }
}

/// The file of a capture.
pub open spec fn capture_file(image: ImageView, format: ImageFormat, quality: u8) -> Result<
    Seq<u8>,
    Seq<char>,
> {
    match format {
        ImageFormat::Png => with_prefix(
            png_file(image.pixels, image.width, image.height),
            "encoding PNG: "@,
        ),
        ImageFormat::Jpeg => with_prefix(
            jpeg_file(packed(image.pixels), image.width, image.height, quality),
            "encoding JPEG: "@,
        ),
    }
}

/// Encodes a capture for the disk.
pub fn encode_capture(image: &Image, format: ImageFormat, quality: u8) -> (r: Result<
    Vec<u8>,
    String,
>)
    ensures
        bytes_view(r) == capture_file(image@, format, quality),
        format is Png ==> match png_file(image@.pixels, image@.width, image@.height) {
            Ok(file) => r is Ok && r->Ok_0@ == file,
            Err(words) => r is Err && r->Err_0@ == "encoding PNG: "@ + words,
        },
        format is Jpeg ==> match jpeg_file(
            packed(image@.pixels),
            image@.width,
            image@.height,
            quality,
        ) {
            Ok(file) => r is Ok && r->Ok_0@ == file,
            Err(words) => r is Err && r->Err_0@ == "encoding JPEG: "@ + words,
        },
        r is Ok <==> encodable(image@.width, image@.height, format),
        r matches Ok(bytes) ==> (format is Png ==> has_png_signature(bytes@)),
        r matches Ok(bytes) ==> (format is Png && image@.pixels.len() <= READER_LIMIT ==> shows(
            png_picture(bytes@),
            image@,
        )),
{
    let width: u32 = image.width();
    let height: u32 = image.height();
    match format {
        ImageFormat::Png => add_prefix(write_png(image.as_raw(), width, height), "encoding PNG: "),
        ImageFormat::Jpeg => {
            let rgb: Vec<u8> = image.to_rgb();
            add_prefix(write_jpeg(&rgb, width, height, quality), "encoding JPEG: ")
        },
    }
}

/// Encodes a frozen desktop for the overlay to draw on. It is shown, never saved.
pub fn encode_preview(image: &Image) -> (r: Result<Vec<u8>, String>)
    ensures
        bytes_view(r) == with_prefix(
            jpeg_file(packed(image@.pixels), image@.width, image@.height, 82),
            "encoding overlay backdrop: "@,
        ),
        match jpeg_file(packed(image@.pixels), image@.width, image@.height, 82) {
            Ok(file) => r is Ok && r->Ok_0@ == file,
            Err(words) => r is Err && r->Err_0@ == "encoding overlay backdrop: "@ + words,
        },
        r is Ok <==> fits_jpeg(image@.width, image@.height),
{
    let rgb: Vec<u8> = image.to_rgb();
    add_prefix(
        write_jpeg(&rgb, image.width(), image.height(), 82),
        "encoding overlay backdrop: ",
    )
}

/// Encodes the three bytes for each pixel of a thumbnail.
pub fn encode_thumbnail(rgb: &Vec<u8>, width: u32, height: u32) -> (r: Result<Vec<u8>, String>)
    requires
        rgb.len() == 3 * area(width, height),
    ensures
        bytes_view(r) == with_prefix(
            jpeg_file(rgb@, width, height, 78),
            "encoding thumbnail: "@,
        ),
        match jpeg_file(rgb@, width, height, 78) {
            Ok(file) => r is Ok && r->Ok_0@ == file,
            Err(words) => r is Err && r->Err_0@ == "encoding thumbnail: "@ + words,
        },
        r is Ok <==> fits_jpeg(width, height),
{
    add_prefix(write_jpeg(rgb, width, height, 78), "encoding thumbnail: ")
}

/// The longest side of a thumbnail.
pub const THUMBNAIL_EDGE: u32 = 400;

/// Whether a file is the JPEG of a picture that is small enough.
pub open spec fn is_thumbnail_file(file: Seq<u8>) -> bool {
    exists|rgb: Seq<u8>, width: u32, height: u32|
        {
            &&& #[trigger] jpeg_file(rgb, width, height, 78) == Ok::<Seq<u8>, Seq<char>>(file)
            &&& 1 <= width <= THUMBNAIL_EDGE
            &&& 1 <= height <= THUMBNAIL_EDGE
            &&& rgb.len() == 3 * area(width, height)
        }
}

/// The words for a file that cannot be read.
pub open spec fn unreadable_message(name: Seq<char>, why: Seq<char>) -> Seq<char> {
    "decoding "@ + name + ": "@ + why
}

/// The thumbnail of a picture.
pub open spec fn thumbnail_of(image: ImageView) -> Result<Seq<u8>, Seq<char>> {
    let t = shrunk(image.pixels, image.width, image.height, THUMBNAIL_EDGE);
    jpeg_file(t.0, t.1, t.2, 78)
}

/// Makes the thumbnail of an image file. `name` is what an error calls the file.
/// Every file that can be read has one.
pub(crate) fn make_thumbnail(bytes: &Vec<u8>, format: ImageFormat, name: &str) -> (r: Result<
    Vec<u8>,
    String,
>)
    ensures
        bytes_view(r) == match picture_in(bytes@, format) {
            Ok(image) => thumbnail_of(image),
            Err(e) => Err(unreadable_message(name@, e)),
        },
        r is Ok <==> picture_in(bytes@, format) is Ok,
        r matches Ok(file) ==> is_thumbnail_file(file@),
        match if format is Png {
            png_picture(bytes@)
        } else {
            jpeg_picture(bytes@)
        } {
            Ok(image) => {
                let small = shrunk(image.pixels, image.width, image.height, 400);
                &&& r is Ok
                &&& jpeg_file(small.0, small.1, small.2, 78) == Ok::<Seq<u8>, Seq<char>>(r->Ok_0@)
            },
            Err(words) => r is Err && r->Err_0@ == "decoding "@ + name@ + ": "@ + words,
        },
{
    match read_image(bytes, format) {
        Ok(image) => {
            let t: (Vec<u8>, u32, u32) = shrink_pixels(
                image.as_raw(),
                image.width(),
                image.height(),
                THUMBNAIL_EDGE,
            );
            let file: Result<Vec<u8>, String> = encode_thumbnail(&t.0, t.1, t.2);
            assert(bytes_view(file) == jpeg_file(t.0@, t.1, t.2, 78));
            file
        },
        Err(e) => {
            let mut out: String = "decoding ".to_owned();
            out.append(name);
            out.append(": ");
            out.append(e.as_str());
            assert(out@ == unreadable_message(name@, e@));
            Err(out)
        },
    }
}

/// Reads a saved capture.
pub fn decode_capture(bytes: &Vec<u8>, format: ImageFormat) -> (r: Result<Image, String>)
    ensures
        r matches Ok(image) ==> image@.is_image(),
        image_view(r) == picture_in(bytes@, format),
        match if format is Png {
            png_picture(bytes@)
        } else {
            jpeg_picture(bytes@)
        } {
            Ok(image) => r is Ok && r->Ok_0@ == image,
            Err(words) => r is Err && r->Err_0@ == words,
        },
{
    read_image(bytes, format)
}

/// Reads an image of any known format. PNG and JPEG are always known.
pub fn decode_any(bytes: &Vec<u8>) -> (r: Result<Image, String>)
    ensures
        r matches Ok(image) ==> image@.is_image(),
        has_png_signature(bytes@) ==> image_view(r) == png_picture(bytes@),
        has_jpeg_signature(bytes@) ==> image_view(r) == jpeg_picture(bytes@),
{
    read_any_image(bytes)
}

// ---------------------------------------------------------------------------
// Laws
// ---------------------------------------------------------------------------

/// Two pictures of one size that agree in every pixel are the same picture.
pub proof fn pixels_make_the_picture(a: ImageView, b: ImageView)
    requires
        a.is_image(),
        b.is_image(),
        a.width == b.width,
        a.height == b.height,
        forall|x: int, y: int, c: int|
            0 <= x < a.width && 0 <= y < a.height && 0 <= c < 4 ==> #[trigger] a.at(x, y, c)
                == b.at(x, y, c),
    ensures
        a == b,
{
    assert forall|i: int| 0 <= i < a.pixels.len() implies a.pixels[i] == b.pixels[i] by {
        let w = a.width as int;
        lemma_coordinates(a.width, a.height, i);
        assert(a.at((i / 4) % w, (i / 4) / w, i % 4) == b.at((i / 4) % w, (i / 4) / w, i % 4));
    }
    assert(a.pixels =~= b.pixels);
}

/// Masking a picture touches no colour.
pub proof fn masking_keeps_the_colours(image: ImageView, coverage: Seq<u8>, x: int, y: int, c: int)
    requires
        image.is_image(),
        0 <= x < image.width,
        0 <= y < image.height,
        0 <= c < 3,
    ensures
        covered(image, coverage).is_image(),
        covered(image, coverage).at(x, y, c) == image.at(x, y, c),
        covered(image, coverage).at(x, y, 3) == if y * image.width + x < coverage.len() {
            coverage[y * image.width + x]
        } else {
            image.at(x, y, 3)
        },
{
    lemma_place(image.width, image.height, x, y, c);
    lemma_place(image.width, image.height, x, y, 3);
    let n = y * image.width + x;
    assert((4 * n + 3) / 4 == n && (4 * n + 3) % 4 == 3);
    assert((4 * n + c) % 4 == c);
}

/// Pixels read from the screen come out opaque, with their colours in order.
pub proof fn screen_pixels_become_opaque(pixels: Seq<u8>, n: int)
    requires
        0 <= n,
        4 * n + 4 <= pixels.len(),
    ensures
        swapped_opaque(pixels)[4 * n] == pixels[4 * n + 2],
        swapped_opaque(pixels)[4 * n + 1] == pixels[4 * n + 1],
        swapped_opaque(pixels)[4 * n + 2] == pixels[4 * n],
        swapped_opaque(pixels)[4 * n + 3] == 255,
        opaque(pixels)[4 * n] == pixels[4 * n],
        opaque(pixels)[4 * n + 1] == pixels[4 * n + 1],
        opaque(pixels)[4 * n + 2] == pixels[4 * n + 2],
        opaque(pixels)[4 * n + 3] == 255,
{
}

/// The bytes of a picture stand row by row, four for each pixel.
pub proof fn bytes_stand_row_by_row(image: ImageView, x: int, y: int, c: int)
    ensures
        image.at(x, y, c) == image.pixels[4 * (y * image.width + x) + c],
        image.is_image() <==> image.pixels.len() == 4 * (image.width * image.height),
        image.is_image() && 0 <= x < image.width && 0 <= y < image.height && 0 <= c < 4 ==> 0 <= 4
            * (y * image.width + x) + c < image.pixels.len(),
{
    if image.is_image() && 0 <= x < image.width && 0 <= y < image.height && 0 <= c < 4 {
        lemma_place(image.width, image.height, x, y, c);
    }
}

/// A mask sets the alpha of the first pixels to its own bytes, one for each, and
/// changes no other byte.
pub proof fn a_mask_sets_the_alpha(image: ImageView, coverage: Seq<u8>, n: int)
    requires
        0 <= n,
        4 * n + 4 <= image.pixels.len(),
    ensures
        covered(image, coverage).width == image.width,
        covered(image, coverage).height == image.height,
        covered(image, coverage).pixels.len() == image.pixels.len(),
        covered(image, coverage).pixels[4 * n] == image.pixels[4 * n],
        covered(image, coverage).pixels[4 * n + 1] == image.pixels[4 * n + 1],
        covered(image, coverage).pixels[4 * n + 2] == image.pixels[4 * n + 2],
        n < coverage.len() ==> covered(image, coverage).pixels[4 * n + 3] == coverage[n],
        n >= coverage.len() ==> covered(image, coverage).pixels[4 * n + 3] == image.pixels[4 * n
            + 3],
{
}

/// Taking the alpha away leaves the three colours of each pixel, in order.
pub proof fn colours_stay_in_order(pixels: Seq<u8>, n: int)
    requires
        0 <= n,
        4 * n + 4 <= pixels.len(),
    ensures
        packed(pixels).len() == 3 * (pixels.len() / 4),
        packed(pixels)[3 * n] == pixels[4 * n],
        packed(pixels)[3 * n + 1] == pixels[4 * n + 1],
        packed(pixels)[3 * n + 2] == pixels[4 * n + 2],
{
}

/// Bytes past the last whole pixel stay as they are, and none are added or lost.
pub proof fn loose_bytes_stay(pixels: Seq<u8>, k: int)
    ensures
        opaque(pixels).len() == pixels.len(),
        swapped_opaque(pixels).len() == pixels.len(),
        0 <= k < pixels.len() && pixels.len() < 4 * (k / 4) + 4 ==> opaque(pixels)[k] == pixels[k]
            && swapped_opaque(pixels)[k] == pixels[k],
{
}

/// A file is read as what its format says, and its picture is what comes out.
pub proof fn files_are_read_by_their_format(bytes: Seq<u8>, image: ImageView)
    ensures
        picture_in(bytes, ImageFormat::Png) == png_picture(bytes),
        picture_in(bytes, ImageFormat::Jpeg) == jpeg_picture(bytes),
        shows(png_picture(bytes), image) <==> (png_picture(bytes) is Ok && png_picture(bytes)->Ok_0
            == image),
        shows(jpeg_picture(bytes), image) <==> (jpeg_picture(bytes) is Ok && jpeg_picture(
            bytes,
        )->Ok_0 == image),
{
}

/// Which sizes have a file: every one with pixels has a PNG file, and a JPEG file
/// where neither side is longer than its format can tell.
pub proof fn sizes_that_have_a_file(width: u32, height: u32)
    ensures
        encodable(width, height, ImageFormat::Png) <==> width != 0 && height != 0,
        encodable(width, height, ImageFormat::Jpeg) <==> width != 0 && height != 0 && width
            < 0x1_0000 && height < 0x1_0000,
        has_pixels(width, height) <==> width != 0 && height != 0,
        fits_jpeg(width, height) <==> width != 0 && height != 0 && width < 0x1_0000 && height
            < 0x1_0000,
{
}

/// The file of a capture is that of its pixels: all four bytes of each in a PNG
/// file, the colours alone, at the quality asked for, in a JPEG file. An error
/// says which encoder it came from.
pub proof fn captures_keep_their_pixels(image: ImageView, quality: u8)
    ensures
        match png_file(image.pixels, image.width, image.height) {
            Ok(file) => capture_file(image, ImageFormat::Png, quality) is Ok && capture_file(
                image,
                ImageFormat::Png,
                quality,
            )->Ok_0 == file,
            Err(words) => capture_file(image, ImageFormat::Png, quality) is Err && capture_file(
                image,
                ImageFormat::Png,
                quality,
            )->Err_0 == "encoding PNG: "@ + words,
        },
        match jpeg_file(packed(image.pixels), image.width, image.height, quality) {
            Ok(file) => capture_file(image, ImageFormat::Jpeg, quality) is Ok && capture_file(
                image,
                ImageFormat::Jpeg,
                quality,
            )->Ok_0 == file,
            Err(words) => capture_file(image, ImageFormat::Jpeg, quality) is Err && capture_file(
                image,
                ImageFormat::Jpeg,
                quality,
            )->Err_0 == "encoding JPEG: "@ + words,
        },
{
}

/// A thumbnail is the JPEG file, at a quality of 78, of the picture that is scaled
/// to fit a square of 400 pixels a side.
pub proof fn a_thumbnail_is_a_small_jpeg(image: ImageView)
    ensures
        ({
            let small = shrunk(image.pixels, image.width, image.height, 400);
            thumbnail_of(image) == jpeg_file(small.0, small.1, small.2, 78)
        }),
{
}

/// A thumbnail file is a JPEG file of at least one pixel and at most 400 a side.
/// Gives the pixels and the size.
pub proof fn a_thumbnail_file_is_small(file: Seq<u8>) -> (small: (Seq<u8>, u32, u32))
    requires
        is_thumbnail_file(file),
    ensures
        jpeg_file(small.0, small.1, small.2, 78) == Ok::<Seq<u8>, Seq<char>>(file),
        0 < small.1 <= 400,
        0 < small.2 <= 400,
        small.0.len() == 3 * (small.1 * small.2),
{
    choose|rgb: Seq<u8>, width: u32, height: u32|
        {
            &&& #[trigger] jpeg_file(rgb, width, height, 78) == Ok::<Seq<u8>, Seq<char>>(file)
            &&& 1 <= width <= THUMBNAIL_EDGE
            &&& 1 <= height <= THUMBNAIL_EDGE
            &&& rgb.len() == 3 * area(width, height)
        }
}

/// How PNG and JPEG files start.
pub proof fn files_start_with_their_signature(bytes: Seq<u8>)
    ensures
        has_png_signature(bytes) <==> (bytes.len() >= 8 && bytes[0] == 0x89 && bytes[1] == 0x50
            && bytes[2] == 0x4e && bytes[3] == 0x47 && bytes[4] == 0x0d && bytes[5] == 0x0a
            && bytes[6] == 0x1a && bytes[7] == 0x0a),
        has_jpeg_signature(bytes) <==> (bytes.len() >= 3 && bytes[0] == 0xff && bytes[1] == 0xd8
            && bytes[2] == 0xff),
{
    let png = seq![0x89u8, 0x50, 0x4e, 0x47, 0x0d, 0x0a, 0x1a, 0x0a];
    let jpeg = seq![0xffu8, 0xd8, 0xff];
    if bytes.len() >= 8 {
        let head = bytes.take(8);
        assert(head[0] == bytes[0] && head[1] == bytes[1] && head[2] == bytes[2] && head[3]
            == bytes[3] && head[4] == bytes[4] && head[5] == bytes[5] && head[6] == bytes[6]
            && head[7] == bytes[7]);
        if head[0] == png[0] && head[1] == png[1] && head[2] == png[2] && head[3] == png[3]
            && head[4] == png[4] && head[5] == png[5] && head[6] == png[6] && head[7] == png[7] {
            assert(head =~= png);
        }
    }
    if bytes.len() >= 3 {
        let head = bytes.take(3);
        assert(head[0] == bytes[0] && head[1] == bytes[1] && head[2] == bytes[2]);
        if head[0] == jpeg[0] && head[1] == jpeg[1] && head[2] == jpeg[2] {
            assert(head =~= jpeg);
        }
    }
}

/// Results are shown as they are, and words put before an error leave what succeeded
/// alone.
pub proof fn results_are_shown_as_they_are(
    bytes: Result<Vec<u8>, String>,
    image: Result<Image, String>,
    prefix: Seq<char>,
    name: Seq<char>,
    why: Seq<char>,
)
    ensures
        bytes is Ok ==> bytes_view(bytes) is Ok && bytes_view(bytes)->Ok_0 == bytes->Ok_0@,
        bytes is Err ==> bytes_view(bytes) is Err && bytes_view(bytes)->Err_0 == bytes->Err_0@,
        image is Ok ==> image_view(image) is Ok && image_view(image)->Ok_0 == image->Ok_0@,
        image is Err ==> image_view(image) is Err && image_view(image)->Err_0 == image->Err_0@,
        bytes is Ok ==> with_prefix(bytes_view(bytes), prefix) == bytes_view(bytes),
        bytes is Err ==> with_prefix(bytes_view(bytes), prefix) == Err::<Seq<u8>, Seq<char>>(
            prefix + bytes->Err_0@,
        ),
        unreadable_message(name, why) == "decoding "@ + name + ": "@ + why,
{
}

} // verus!
