//! Textures from image files.

use crate::text;
use crate::tiff;
use crate::vk;
use vstd::prelude::*;

verus! {

// ---------------------------------------------------------------------------
// Textures
// ---------------------------------------------------------------------------

/// How a texture is loaded.
#[derive(Debug, Clone, Copy, PartialEq, Eq, Structural)]
pub struct TextureLoadPreferences {
    pub is_srgb: bool,
    pub register_bindless: bool,
}

impl Default for TextureLoadPreferences {
    fn default() -> (r: Self)
        ensures
            r == (TextureLoadPreferences { is_srgb: false, register_bindless: true }),
    {
        TextureLoadPreferences { is_srgb: false, register_bindless: true }
    }
}

/// An image on the device.
#[derive(Debug, Clone, Copy, PartialEq, Eq, Structural)]
pub struct ImageInfo {
    pub image_type: i32,
    pub format: i32,
    pub width: u32,
    pub height: u32,
    pub depth: u32,
    pub mip_levels: u32,
    pub array_layers: u32,
    pub tiling: i32,
    pub usage: u32,
}

/// A texture that is loaded once: its image, and its place in the heap of
/// textures, `u32::MAX` where it is in none.
#[derive(Debug, Clone, Copy, PartialEq, Eq)]
pub struct TextureAsset {
    image: u64,
    heap_handle: Option<u32>,
}

impl TextureAsset {
    pub closed spec fn in_heap(&self) -> Option<u32> {
        self.heap_handle
    }

    pub closed spec fn view(&self) -> u64 {
        self.image
    }

    /// A texture, and its place in the heap if it was put there.
    pub fn new(image: u64, heap_handle: Option<u32>) -> (r: Self)
        ensures
            r.view() == image,
            r.in_heap() == heap_handle,
    {
        TextureAsset { image, heap_handle }
    }

    /// The place in the heap.
    pub fn handle(&self) -> (r: u32)
        ensures
            r == (match self.in_heap() {
                Some(h) => h,
                None => u32::MAX,
            }),
    {
        match self.heap_handle {
            Some(h) => h,
            None => u32::MAX,
        }
    }

    /// The place that is given back when the texture goes.
    pub fn release(self) -> (r: Option<u32>)
        ensures
            r == self.in_heap(),
    {
        self.heap_handle
    }
}

// ---------------------------------------------------------------------------
// Decoding
// ---------------------------------------------------------------------------

#[verifier::external_type_specification]
#[verifier::external_body]
pub struct ExDynamicImage(image::DynamicImage);

#[verifier::external_type_specification]
#[verifier::external_body]
pub struct ExImageError(image::ImageError);

/// The file formats that are told by their names.
#[derive(Debug, Clone, Copy, PartialEq, Eq, Structural)]
pub enum ImageFormat {
    Png,
    Jpeg,
    Tiff,
}

/// What a pixel consists of.
#[derive(Debug, Clone, Copy, PartialEq, Eq, Structural)]
pub enum ImageColor {
    L8,
    La8,
    Rgb8,
    Rgba8,
    L16,
    La16,
    Rgb16,
    Rgba16,
    Rgb32F,
    Rgba32F,
    Other,
}

/// The number of bytes of a pixel.
pub open spec fn pixel_size(color: ImageColor) -> int {
    match color {
        ImageColor::L8 => 1,
        ImageColor::La8 => 2,
        ImageColor::Rgb8 => 3,
        ImageColor::Rgba8 => 4,
        ImageColor::L16 => 2,
        ImageColor::La16 => 4,
        ImageColor::Rgb16 => 6,
        ImageColor::Rgba16 => 8,
        ImageColor::Rgb32F => 12,
        ImageColor::Rgba32F => 16,
        ImageColor::Other => 0,
    }
}

/// The pixels of an image, its width and its height, and its rows one after the
/// other.
pub uninterp spec fn image_parts(image: image::DynamicImage) -> (ImageColor, u32, u32, Seq<u8>);

/// The images that a file may be decoded to, each as its parts, over all
/// machines on which a `usize` has `word` bits; none where it cannot be read.
/// Without a format it is guessed.
pub uninterp spec fn image_outcomes(
    format: Option<ImageFormat>,
    data: Seq<u8>,
    word: u32,
) -> Set<(ImageColor, u32, u32, Seq<u8>)>;

/// The samples of a pixel are of one byte each.
pub open spec fn has_byte_samples(color: ImageColor) -> bool {
    color is L8 || color is La8 || color is Rgb8 || color is Rgba8
}

/// The same samples of two bytes, with the bytes of each the other way round.
pub open spec fn swapped(bytes: Seq<u8>) -> Seq<u8> {
    Seq::new(
        bytes.len(),
        |i: int|
            if i % 2 == 0 {
                bytes[i + 1]
            } else {
                bytes[i - 1]
            },
    )
}

/// Two outcomes of decoding the same file of a given format: they have the same
/// kind of pixels and the same size. From a PNG file they have the same
/// samples; those of two bytes are in the order of the machine.
pub open spec fn same_image(
    format: ImageFormat,
    a: (ImageColor, u32, u32, Seq<u8>),
    b: (ImageColor, u32, u32, Seq<u8>),
) -> bool {
    &&& a.0 == b.0
    &&& a.1 == b.1
    &&& a.2 == b.2
    &&& format is Png ==> a.3 == b.3 || (!has_byte_samples(a.0) && a.3 == swapped(b.3))
}

/// An outcome of decoding a file.
pub open spec fn an_outcome(format: ImageFormat, data: Seq<u8>, word: u32) -> (
    ImageColor,
    u32,
    u32,
    Seq<u8>,
) {
    choose|p: (ImageColor, u32, u32, Seq<u8>)|
        image_outcomes(Some(format), data, word).contains(p)
}

/// What a file of a given format holds: the kind of its pixels, its width and
/// its height; none where it cannot be read.
pub open spec fn image_header(format: ImageFormat, data: Seq<u8>, word: u32) -> Option<
    (ImageColor, u32, u32),
> {
    if image_outcomes(Some(format), data, word) == Set::<
        (ImageColor, u32, u32, Seq<u8>),
    >::empty() {
        None
    } else {
        let p = an_outcome(format, data, word);
        Some((p.0, p.1, p.2))
    }
}

/// The bytes of the pixels of a PNG file, row by row. Samples of two bytes are
/// in one of the two orders.
pub open spec fn png_pixels(data: Seq<u8>, word: u32) -> Seq<u8> {
    an_outcome(ImageFormat::Png, data, word).3
}

/// A file can be handed to the decoder: as a PNG or JPEG file any file can, and
/// otherwise one whose strips and tiles fit, where it is a TIFF file.
pub open spec fn decodable(format: Option<ImageFormat>, data: Seq<u8>) -> bool {
    format == Some(ImageFormat::Png) || format == Some(ImageFormat::Jpeg) || tiff::chunks_fit(data)
}

/// `image::ImageReader::decode`, for a format that is set or, with none, that
/// is guessed from the data. Whether a file of a given format can be read
/// depends on the data and on the size of a `usize`, which bounds the size of
/// buffers. The kind of its pixels and its size depend on them alone, and for a
/// PNG file the samples do. There are as many bytes as the pixels take.
///
/// For a TIFF file, the decoder multiplies the number of strips or tiles with
/// that of the planes as numbers of fixed size, makes room for a row of a strip
/// or a tile, and looks for the rows of a whole tile in the planes behind the
/// first. So the file has to be one whose strips and tiles fit.
///
/// Left unsaid: that the samples of JPEG and TIFF files depend on the data
/// alone, as the decoder for JPEG has routines for the processor that it finds;
/// and that anything of a guessed format does, which decoders that a program
/// registers can change.
#[verifier::external_body]
fn decode_image(format: Option<ImageFormat>, data: &[u8]) -> (r: Result<
    image::DynamicImage,
    image::ImageError,
>)
    requires
        decodable(format, data@),
    ensures
        r matches Ok(i) ==> image_outcomes(format, data@, usize::BITS).contains(image_parts(i)),
        format matches Some(f) ==> match r {
            Ok(i) => forall|p: (ImageColor, u32, u32, Seq<u8>)| #[trigger]
                image_outcomes(format, data@, usize::BITS).contains(p) ==> same_image(
                    f,
                    image_parts(i),
                    p,
                ),
            Err(_) => image_outcomes(format, data@, usize::BITS)
                == Set::<(ImageColor, u32, u32, Seq<u8>)>::empty(),
        },
        r matches Ok(i) ==> image_parts(i).0 is Other || image_parts(i).3.len() == image_parts(i).1
            * image_parts(i).2 * pixel_size(image_parts(i).0),
{
    let mut reader = image::ImageReader::new(std::io::Cursor::new(data));
    match format {
        Some(ImageFormat::Png) => reader.set_format(image::ImageFormat::Png),
        Some(ImageFormat::Jpeg) => reader.set_format(image::ImageFormat::Jpeg),
        Some(ImageFormat::Tiff) => reader.set_format(image::ImageFormat::Tiff),
        None => reader = reader.with_guessed_format().map_err(image::ImageError::IoError)?,
    }
    reader.decode()
}

/// `image::DynamicImage::color`: what a pixel consists of.
#[verifier::external_body]
fn image_color(image: &image::DynamicImage) -> (r: ImageColor)
    ensures
        r == image_parts(*image).0,
{
    match image.color() {
        image::ColorType::L8 => ImageColor::L8,
        image::ColorType::La8 => ImageColor::La8,
        image::ColorType::Rgb8 => ImageColor::Rgb8,
        image::ColorType::Rgba8 => ImageColor::Rgba8,
        image::ColorType::L16 => ImageColor::L16,
        image::ColorType::La16 => ImageColor::La16,
        image::ColorType::Rgb16 => ImageColor::Rgb16,
        image::ColorType::Rgba16 => ImageColor::Rgba16,
        image::ColorType::Rgb32F => ImageColor::Rgb32F,
        image::ColorType::Rgba32F => ImageColor::Rgba32F,
        _ => ImageColor::Other,
    }
}

/// `image::DynamicImage::width`.
#[verifier::external_body]
fn image_width(image: &image::DynamicImage) -> (r: u32)
    ensures
        r == image_parts(*image).1,
{
    image.width()
}

/// `image::DynamicImage::height`.
#[verifier::external_body]
fn image_height(image: &image::DynamicImage) -> (r: u32)
    ensures
        r == image_parts(*image).2,
{
    image.height()
}

/// `image::DynamicImage::into_bytes`: the bytes of the pixels.
#[verifier::external_body]
fn image_bytes(image: image::DynamicImage) -> (r: Vec<u8>)
    ensures
        r@ == image_parts(image).3,
{
    image.into_bytes()
}

/// A decoded image.
pub struct DecodedImage {
    pub color: ImageColor,
    pub width: u32,
    pub height: u32,
    pub bytes: Vec<u8>,
}

/// Why a texture cannot be loaded.
#[derive(Debug)]
pub enum ImageLoadingError {
    /// There is no texture format for the pixels.
    UnknownTextureColorType,
    /// The file cannot be read.
    ImageError(image::ImageError),
    /// The file cannot be read.
    PngDecodingError(png::DecodingError),
    /// The strips or tiles of a TIFF file cannot be decoded.
    TiffChunks,
}

#[verifier::external_type_specification]
#[verifier::external_body]
pub struct ExPngDecodingError(png::DecodingError);

/// The format that the ending of a file name tells; with none it is guessed.
pub open spec fn format_of_extension(extension: Seq<char>) -> Option<ImageFormat> {
    if extension == "png"@ {
        Some(ImageFormat::Png)
    } else if extension == "jpg"@ || extension == "jpeg"@ {
        Some(ImageFormat::Jpeg)
    } else if extension == "tif"@ || extension == "tiff"@ {
        Some(ImageFormat::Tiff)
    } else {
        None
    }
}

/// The format that the ending of a file name tells.
pub fn image_format(extension: &str) -> (r: Option<ImageFormat>)
    ensures
        r == format_of_extension(extension@),
{
    if text::str_eq(extension, "png") {
        Some(ImageFormat::Png)
    } else if text::str_eq(extension, "jpg") || text::str_eq(extension, "jpeg") {
        Some(ImageFormat::Jpeg)
    } else if text::str_eq(extension, "tif") || text::str_eq(extension, "tiff") {
        Some(ImageFormat::Tiff)
    } else {
        None
    }
}

/// The texture format for pixels. Pixels without alpha get one, and pixels of
/// 16 bits and more hold no sRGB values.
pub open spec fn format_of_color(color: ImageColor, is_srgb: bool) -> Option<i32> {
    match color {
        ImageColor::L8 => Some(
            if is_srgb {
                vk::FORMAT_R8_SRGB
            } else {
                vk::FORMAT_R8_UNORM
            },
        ),
        ImageColor::La8 => Some(
            if is_srgb {
                vk::FORMAT_R8G8_SRGB
            } else {
                vk::FORMAT_R8G8_UNORM
            },
        ),
        ImageColor::Rgb8 | ImageColor::Rgba8 => Some(
            if is_srgb {
                vk::FORMAT_R8G8B8A8_SRGB
            } else {
                vk::FORMAT_R8G8B8A8_UNORM
            },
        ),
        ImageColor::L16 => Some(vk::FORMAT_R16_UNORM),
        ImageColor::La16 => Some(vk::FORMAT_R16G16_UNORM),
        ImageColor::Rgb16 | ImageColor::Rgba16 => Some(vk::FORMAT_R16G16B16A16_UNORM),
        ImageColor::Rgb32F | ImageColor::Rgba32F => Some(vk::FORMAT_R32G32B32A32_SFLOAT),
        ImageColor::Other => None,
    }
}

/// The texture format for pixels.
pub fn texture_format(color: ImageColor, is_srgb: bool) -> (r: Option<i32>)
    ensures
        r == format_of_color(color, is_srgb),
{
    match color {
        ImageColor::L8 => {
            if is_srgb {
                Some(vk::FORMAT_R8_SRGB)
            } else {
                Some(vk::FORMAT_R8_UNORM)
            }
        },
        ImageColor::La8 => {
            if is_srgb {
                Some(vk::FORMAT_R8G8_SRGB)
            } else {
                Some(vk::FORMAT_R8G8_UNORM)
            }
        },
        ImageColor::Rgb8 | ImageColor::Rgba8 => {
            if is_srgb {
                Some(vk::FORMAT_R8G8B8A8_SRGB)
            } else {
                Some(vk::FORMAT_R8G8B8A8_UNORM)
            }
        },
        ImageColor::L16 => Some(vk::FORMAT_R16_UNORM),
        ImageColor::La16 => Some(vk::FORMAT_R16G16_UNORM),
        ImageColor::Rgb16 | ImageColor::Rgba16 => Some(vk::FORMAT_R16G16B16A16_UNORM),
        ImageColor::Rgb32F | ImageColor::Rgba32F => Some(vk::FORMAT_R32G32B32A32_SFLOAT),
        ImageColor::Other => None,
    }
}

/// A texture of one level and some layers.
pub open spec fn flat_texture(
    format: i32,
    width: u32,
    height: u32,
    layers: u32,
    usage: u32,
) -> ImageInfo {
    ImageInfo {
        image_type: vk::IMAGE_TYPE_TYPE_2D,
        format,
        width,
        height,
        depth: 1,
        mip_levels: 1,
        array_layers: layers,
        tiling: vk::IMAGE_TILING_OPTIMAL,
        usage,
    }
}

/// The texture for pixels of a kind, if there is one.
pub fn image_texture(color: ImageColor, width: u32, height: u32, is_srgb: bool, usage: u32) -> (r:
    Option<ImageInfo>)
    ensures
        r == (match format_of_color(color, is_srgb) {
            Some(format) => Some(flat_texture(format, width, height, 1, usage)),
            None => None,
        }),
{
    match texture_format(color, is_srgb) {
        Some(format) => Some(
            ImageInfo {
                image_type: vk::IMAGE_TYPE_TYPE_2D,
                format,
                width,
                height,
                depth: 1,
                mip_levels: 1,
                array_layers: 1,
                tiling: vk::IMAGE_TILING_OPTIMAL,
                usage,
            },
        ),
        None => None,
    }
}

/// The parts of a decoded image.
pub open spec fn parts(image: DecodedImage) -> (ImageColor, u32, u32, Seq<u8>) {
    (image.color, image.width, image.height, image.bytes@)
}

/// The texture for a decoded image, and its pixels.
pub fn texture_of_image(image: image::DynamicImage, is_srgb: bool, usage: u32) -> (r: Result<
    (ImageInfo, DecodedImage),
    ImageLoadingError,
>)
    ensures
        match format_of_color(image_parts(image).0, is_srgb) {
            Some(format) => r matches Ok((info, decoded)) && {
                &&& info == flat_texture(
                    format,
                    image_parts(image).1,
                    image_parts(image).2,
                    1,
                    usage,
                )
                &&& parts(decoded) == image_parts(image)
            },
            None => r matches Err(ImageLoadingError::UnknownTextureColorType),
        },
{
    let color: ImageColor = image_color(&image);
    let width: u32 = image_width(&image);
    let height: u32 = image_height(&image);
    match image_texture(color, width, height, is_srgb, usage) {
        Some(info) => Ok(
            (info, DecodedImage { color, width, height, bytes: image_bytes(image) }),
        ),
        None => Err(ImageLoadingError::UnknownTextureColorType),
    }
}

/// Pixels of the right number, which come from a file: from a PNG file they are
/// those of the file.
pub open spec fn pixels_come_from(
    decoded: DecodedImage,
    format: Option<ImageFormat>,
    data: Seq<u8>,
) -> bool {
    &&& image_outcomes(format, data, usize::BITS).contains(parts(decoded))
    &&& decoded.bytes@.len() == decoded.width * decoded.height * pixel_size(decoded.color)
    &&& format == Some(ImageFormat::Png) ==> decoded.bytes@ == png_pixels(data, usize::BITS) || (
    !has_byte_samples(decoded.color) && decoded.bytes@ == swapped(png_pixels(data, usize::BITS)))
}

/// Decodes an image, and finds the texture for it.
///
/// For a format that is given, the texture follows from the file and the size of
/// a `usize`, and for a PNG file the pixels do.
pub fn load_image(format: Option<ImageFormat>, data: &[u8], is_srgb: bool, usage: u32) -> (r: Result<
    (ImageInfo, DecodedImage),
    ImageLoadingError,
>)
    ensures
        r matches Ok((info, decoded)) ==> {
            &&& format_of_color(decoded.color, is_srgb) is Some
            &&& info == flat_texture(
                format_of_color(decoded.color, is_srgb)->0,
                decoded.width,
                decoded.height,
                1,
                usage,
            )
            &&& pixels_come_from(decoded, format, data@)
        },
        r matches Err(ImageLoadingError::UnknownTextureColorType) ==> exists|
            p: (ImageColor, u32, u32, Seq<u8>),
        | #[trigger]
            image_outcomes(format, data@, usize::BITS).contains(p) && format_of_color(
                p.0,
                is_srgb,
            ) is None,
        r matches Err(e) ==> e is UnknownTextureColorType || e is ImageError || e is TiffChunks,
        r matches Err(ImageLoadingError::TiffChunks) <==> !decodable(format, data@),
        format is Some && decodable(format, data@) ==> match image_header(
            format->0,
            data@,
            usize::BITS,
        ) {
            Some((color, width, height)) => if format_of_color(color, is_srgb) is Some {
                r matches Ok((info, decoded)) && decoded.color == color && decoded.width == width
                    && decoded.height == height
            } else {
                r matches Err(ImageLoadingError::UnknownTextureColorType)
            },
            None => r matches Err(ImageLoadingError::ImageError(_)),
        },
{
    let any: bool = match format {
        Some(ImageFormat::Png) | Some(ImageFormat::Jpeg) => true,
        _ => false,
    };
    if !any && !tiff::tiff_chunks_fit(data) {
        return Err(ImageLoadingError::TiffChunks);
    }
    let image = match decode_image(format, data) {
        Ok(image) => image,
        Err(e) => {
            return Err(ImageLoadingError::ImageError(e));
        },
    };
    proof {
        let p = image_parts(image);
        assert(image_outcomes(format, data@, usize::BITS).contains(p));
        if let Some(f) = format {
            assert(image_outcomes(format, data@, usize::BITS).contains(
                an_outcome(f, data@, usize::BITS),
            ));
            assert(same_image(f, p, an_outcome(f, data@, usize::BITS)));
        }
    }
    texture_of_image(image, is_srgb, usage)
}

// ---------------------------------------------------------------------------
// Pixels
// ---------------------------------------------------------------------------

/// The bytes of a pixel in the texture, where pixels without alpha are spread.
pub open spec fn texel_size(color: ImageColor) -> int {
    match color {
        ImageColor::Rgb8 => 4,
        ImageColor::Rgb16 => 8,
        ImageColor::Rgb32F => 16,
        _ => pixel_size(color),
    }
}

/// The bytes of a texture for `pixels` pixels.
pub fn texture_length(color: ImageColor, pixels: usize) -> (r: usize)
    requires
        color !is Other,
        pixels * texel_size(color) <= usize::MAX,
    ensures
        r == pixels * texel_size(color),
{
    let texel: usize = match color {
        ImageColor::L8 => 1,
        ImageColor::La8 | ImageColor::L16 => 2,
        ImageColor::Rgb8 | ImageColor::Rgba8 | ImageColor::La16 => 4,
        ImageColor::Rgb16 | ImageColor::Rgba16 => 8,
        ImageColor::Rgb32F | ImageColor::Rgba32F | ImageColor::Other => 16,
    };
    assert(texel == texel_size(color));
    proof {
        vstd::arithmetic::mul::lemma_mul_nonnegative(pixels as int, texel as int);
    }
    pixels * texel
}

/// `n` pixels of `from` bytes stand at the start of texels of `to` bytes.
pub open spec fn spread(src: Seq<u8>, dst: Seq<u8>, from: int, to: int, n: int) -> bool {
    forall|i: int, k: int|
        0 <= i < n && 0 <= k < from ==> #[trigger] dst[texel_at(i, to, k)] == src[texel_at(
            i,
            from,
            k,
        )]
}

/// The place of byte `k` of item `i`, for items of `size` bytes.
pub open spec fn texel_at(i: int, size: int, k: int) -> int {
    i * size + k
}

/// Copies pixels of `from` bytes into texels of `to` bytes; what a texel has
/// more stays as it is, or becomes `filler`.
pub(crate) fn spread_pixels(bytes: &[u8], slice: &mut [u8], from: usize, to: usize, filler: Option<u8>)
    requires
        0 < from < to <= 16,
        bytes@.len() % (from as nat) == 0,
        old(slice)@.len() % (to as nat) == 0,
        bytes@.len() / (from as nat) == old(slice)@.len() / (to as nat),
    ensures
        final(slice)@.len() == old(slice)@.len(),
        spread(
            bytes@,
            final(slice)@,
            from as int,
            to as int,
            (bytes@.len() / (from as nat)) as int,
        ),
        forall|i: int, k: int|
            0 <= i < bytes@.len() / (from as nat) && from <= k < to ==> #[trigger] final(slice)@[texel_at(i, to as int, k)] == (match filler {
                Some(b) => b,
                None => old(slice)@[texel_at(i, to as int, k)],
            }),
{
    let count: usize = bytes.len();
    let n: usize = count / from;
    let total: usize = slice.len();
    let ghost start = slice@;
    proof {
        vstd::arithmetic::div_mod::lemma_fundamental_div_mod(bytes@.len() as int, from as int);
        vstd::arithmetic::div_mod::lemma_fundamental_div_mod(slice@.len() as int, to as int);
        vstd::arithmetic::mul::lemma_mul_is_commutative(from as int, n as int);
        vstd::arithmetic::mul::lemma_mul_is_commutative(to as int, n as int);
    }
    let mut i: usize = 0;
    while i < n
        invariant
            i <= n,
            0 < from < to <= 16,
            bytes@.len() == n * from,
            bytes@.len() == count,
            slice@.len() == n * to,
            slice@.len() == total,
            slice@.len() == start.len(),
            spread(bytes@, slice@, from as int, to as int, i as int),
            forall|j: int, k: int|
                0 <= j < i && from <= k < to ==> #[trigger] slice@[texel_at(j, to as int, k)] == (
                match filler {
                    Some(b) => b,
                    None => start[texel_at(j, to as int, k)],
                }),
            forall|j: int, k: int|
                i <= j < n && 0 <= k < to ==> #[trigger] slice@[texel_at(j, to as int, k)]
                    == start[texel_at(j, to as int, k)],
        decreases n - i,
    {
        let ghost before = slice@;
        let mut k: usize = 0;
        while k < to
            invariant
                k <= to,
                i < n,
                0 < from < to <= 16,
                bytes@.len() == n * from,
                bytes@.len() == count,
                slice@.len() == n * to,
                slice@.len() == total,
                before.len() == n * to,
                forall|p: int|
                    0 <= p < slice@.len() && !(i * to <= p < i * to + k) ==> slice@[p] == before[p],
                forall|l: int|
                    0 <= l < k ==> #[trigger] slice@[texel_at(i as int, to as int, l)] == (if l
                        < from {
                        bytes@[texel_at(i as int, from as int, l)]
                    } else {
                        match filler {
                            Some(b) => b,
                            None => before[texel_at(i as int, to as int, l)],
                        }
                    }),
            decreases to - k,
        {
            proof {
                lemma_within(i as int, n as int, to as int, k as int);
            }
            let place: usize = i * to + k;
            if k < from {
                proof {
                    lemma_within(i as int, n as int, from as int, k as int);
                }
                let b: u8 = bytes[i * from + k];
                slice[place] = b;
            } else {
                if let Some(b) = filler {
                    slice[place] = b;
                }
            }
            k += 1;
        }
        proof {
            assert forall|j: int, l: int| 0 <= j < n && j != i && 0 <= l < to implies slice@[
                #[trigger] texel_at(j, to as int, l)] == before[texel_at(j, to as int, l)] by {
                lemma_within(j, n as int, to as int, l);
                lemma_apart(i as int, j, to as int, l);
            }
        }
        i += 1;
    }
}

proof fn lemma_within(i: int, n: int, size: int, k: int)
    requires
        0 <= i < n,
        0 <= k < size,
    ensures
        0 <= i * size,
        0 <= i * size + k < n * size,
{
    assert(0 <= i * size && i * size + size <= n * size) by (nonlinear_arith)
        requires
            0 <= i < n,
            0 < size,
    ;
}

proof fn lemma_apart(i: int, j: int, size: int, k: int)
    requires
        i != j,
        0 <= k < size,
    ensures
        !(i * size <= j * size + k < i * size + size),
{
    assert(j < i ==> j * size + size <= i * size) by (nonlinear_arith)
        requires
            0 < size,
    ;
    assert(i < j ==> i * size + size <= j * size) by (nonlinear_arith)
        requires
            0 < size,
    ;
}

/// Writes the pixels of an image into the memory of its texture. Where pixels
/// have no alpha, that of the texture stays as it is.
pub fn write_pixels(color: ImageColor, bytes: &[u8], slice: &mut [u8])
    requires
        color !is Other,
        bytes@.len() % (pixel_size(color) as nat) == 0,
        old(slice)@.len() % (texel_size(color) as nat) == 0,
        bytes@.len() / (pixel_size(color) as nat) == old(slice)@.len() / (texel_size(color) as nat),
    ensures
        final(slice)@.len() == old(slice)@.len(),
        spread(
            bytes@,
            final(slice)@,
            pixel_size(color),
            texel_size(color),
            (bytes@.len() / (pixel_size(color) as nat)) as int,
        ),
        forall|i: int, k: int|
            0 <= i < bytes@.len() / (pixel_size(color) as nat) && pixel_size(color) <= k
                < texel_size(color) ==> #[trigger] final(slice)@[texel_at(
                i,
                texel_size(color),
                k,
            )] == old(slice)@[texel_at(i, texel_size(color), k)],
{
    match color {
        ImageColor::Rgb8 => spread_pixels(bytes, slice, 3, 4, None),
        ImageColor::Rgb16 => spread_pixels(bytes, slice, 6, 8, None),
        ImageColor::Rgb32F => spread_pixels(bytes, slice, 12, 16, None),
        _ => {
            proof {
                let size = pixel_size(color);
                vstd::arithmetic::div_mod::lemma_fundamental_div_mod(bytes@.len() as int, size);
                vstd::arithmetic::div_mod::lemma_fundamental_div_mod(slice@.len() as int, size);
            }
            copy_bytes(bytes, slice);
        },
    }
}

fn copy_bytes(bytes: &[u8], slice: &mut [u8])
    requires
        bytes@.len() == old(slice)@.len(),
    ensures
        final(slice)@ == bytes@,
{
    let n: usize = bytes.len();
    let mut i: usize = 0;
    while i < n
        invariant
            i <= n,
            n == bytes@.len(),
            n == slice@.len(),
            forall|j: int| 0 <= j < i ==> slice@[j] == bytes@[j],
        decreases n - i,
    {
        slice[i] = bytes[i];
        i += 1;
    }
    assert(slice@ =~= bytes@);
}

/// The number of samples of a pixel, and the bytes of each.
pub open spec fn samples(color: ImageColor) -> (int, int) {
    match color {
        ImageColor::L8 => (1, 1),
        ImageColor::La8 => (2, 1),
        ImageColor::Rgb8 => (3, 1),
        ImageColor::Rgba8 => (4, 1),
        ImageColor::L16 => (1, 2),
        ImageColor::La16 => (2, 2),
        ImageColor::Rgb16 => (3, 2),
        ImageColor::Rgba16 => (4, 2),
        ImageColor::Rgb32F => (3, 4),
        ImageColor::Rgba32F => (4, 4),
        ImageColor::Other => (0, 0),
    }
}

/// The pixels of an image become texels: each sample a component of the same
/// size, and pixels of three samples get a fourth component. Samples of four
/// bytes are floats, the others fractions, and of those only samples of one byte
/// are taken as sRGB, where that is asked for.
pub proof fn law_texture_formats_fit_the_pixels(color: ImageColor, is_srgb: bool)
    ensures
        format_of_color(color, is_srgb) is None <==> color is Other,
        pixel_size(color) == samples(color).0 * samples(color).1,
        format_of_color(color, is_srgb) matches Some(format) ==> {
            let (count, bytes) = samples(color);
            let components = if count == 3 {
                4
            } else {
                count
            };
            &&& crate::dds::format_size(format as int) == (components * bytes, components)
            &&& texel_size(color) == components * bytes
            &&& crate::dds::format_layout(format as int) is Plain
            &&& bytes == 4 <==> crate::dds::format_kind(format as int) is Float
            &&& bytes == 2 ==> crate::dds::format_kind(format as int) is Unorm
            &&& bytes == 1 ==> format_of_color(color, true)->0 == format_of_color(color, false)->0
                + 6
            &&& bytes > 1 ==> format_of_color(color, true) == format_of_color(color, false)
            &&& bytes == 1 && !is_srgb ==> format == vk::FORMAT_R8_UNORM || format
                == vk::FORMAT_R8G8_UNORM || format == vk::FORMAT_R8G8B8A8_UNORM
        },
        has_byte_samples(color) <==> samples(color).1 == 1,
{
}

/// A texture of an image is as large as the image, flat, of one level, and in
/// the layers, the format and the use that are asked for.
pub proof fn law_flat_textures(format: i32, width: u32, height: u32, layers: u32, usage: u32)
    ensures
        ({
            let r = flat_texture(format, width, height, layers, usage);
            &&& r.image_type == vk::IMAGE_TYPE_TYPE_2D
            &&& r.format == format
            &&& r.width == width
            &&& r.height == height
            &&& r.depth == 1
            &&& r.mip_levels == 1
            &&& r.array_layers == layers
            &&& r.tiling == vk::IMAGE_TILING_OPTIMAL
            &&& r.usage == usage
        }),
{
}

/// The ending of a file name tells its format; other endings tell nothing.
pub proof fn law_endings_tell_formats(extension: Seq<char>)
    ensures
        format_of_extension(extension) == Some(ImageFormat::Png) <==> extension == "png"@,
        format_of_extension(extension) == Some(ImageFormat::Jpeg) <==> extension == "jpg"@
            || extension == "jpeg"@,
        format_of_extension(extension) == Some(ImageFormat::Tiff) <==> extension == "tif"@
            || extension == "tiff"@,
        format_of_extension(extension) is Some ==> extension == "png"@ || extension == "jpg"@
            || extension == "jpeg"@ || extension == "tif"@ || extension == "tiff"@,
{
    reveal_strlit("png");
    reveal_strlit("jpg");
    reveal_strlit("jpeg");
    reveal_strlit("tif");
    reveal_strlit("tiff");
    assert("png"@.len() == 3);
    assert("jpg"@.len() == 3);
    assert("tif"@.len() == 3);
    assert("jpeg"@.len() == 4);
    assert("tiff"@.len() == 4);
    assert("png"@[0] != "jpg"@[0] && "png"@[0] != "tif"@[0] && "jpg"@[0] != "tif"@[0]);
    assert("jpeg"@[0] != "tiff"@[0]);
    assert("png"@ != "jpg"@ && "png"@ != "tif"@ && "jpg"@ != "tif"@ && "jpeg"@ != "tiff"@);
}

/// Where pixels are spread, byte `k` of pixel `i` becomes byte `k` of texel `i`.
pub proof fn law_spread_pixels_keep_their_order(
    src: Seq<u8>,
    dst: Seq<u8>,
    from: int,
    to: int,
    n: int,
    i: int,
    k: int,
)
    requires
        spread(src, dst, from, to, n),
        0 <= i < n,
        0 <= k < from,
    ensures
        dst[i * to + k] == src[i * from + k],
{
    assert(dst[texel_at(i, to, k)] == src[texel_at(i, from, k)]);
}

/// Swapping the bytes of samples of two bytes twice changes nothing, and once it
/// puts the second byte of each first.
pub proof fn law_swapped_samples(bytes: Seq<u8>, i: int)
    requires
        bytes.len() % 2 == 0,
        0 <= i,
        2 * i + 1 < bytes.len(),
    ensures
        swapped(swapped(bytes)) == bytes,
        swapped(bytes)[2 * i] == bytes[2 * i + 1],
        swapped(bytes)[2 * i + 1] == bytes[2 * i],
{
    assert(swapped(swapped(bytes)) =~= bytes);
}

/// Every pixel of an image with a texture format finds room in the texture.
pub proof fn law_texels_hold_their_pixels(color: ImageColor, is_srgb: bool)
    requires
        format_of_color(color, is_srgb) is Some,
    ensures
        0 < pixel_size(color) <= texel_size(color),
{
}

} // verus!
