//! Textures from PNG files, one layer for each frame.

use crate::loader;
use crate::loader::ImageInfo;
use crate::loader::ImageLoadingError;
use crate::vk;
use vstd::prelude::*;

verus! {

// ---------------------------------------------------------------------------
// Reader
// ---------------------------------------------------------------------------

/// Kinds of pixels.
#[derive(Debug, Clone, Copy, PartialEq, Eq, Structural)]
pub enum PngColor {
    Grayscale,
    Rgb,
    Indexed,
    GrayscaleAlpha,
    Rgba,
}

/// What the header of a file says. The color and the number of bits are those
/// of the decoded pixels, `bytes_per_pixel` is that of the file.
#[derive(Debug, Clone, Copy, PartialEq, Eq)]
pub struct PngInfo {
    pub color: PngColor,
    pub bits: u8,
    pub width: u32,
    pub height: u32,
    pub bytes_per_pixel: usize,
    pub animated: bool,
    /// The number of frames that the file gives for its animation.
    pub animation_frames: Option<u32>,
}

/// The number of bytes of a pixel.
pub open spec fn pixel_bytes(color: PngColor, bits: u8) -> int {
    let samples = match color {
        PngColor::Grayscale => 1int,
        PngColor::Indexed => 1,
        PngColor::GrayscaleAlpha => 2,
        PngColor::Rgb => 3,
        PngColor::Rgba => 4,
    };
    if bits == 16 {
        2 * samples
    } else {
        samples
    }
}

/// A file that is being read, frame by frame.
#[verifier::external_body]
pub struct PngReader {
    reader: png::Reader<std::io::Cursor<Vec<u8>>>,
}

/// The file that is being read, and the number of frames that were read.
pub uninterp spec fn png_position(reader: PngReader) -> (Seq<u8>, nat);

/// What the header of a file says; none where it cannot be read, on a machine on
/// which a `usize` has `word` bits.
pub uninterp spec fn png_info(data: Seq<u8>, word: u32) -> Option<PngInfo>;

/// The buffer after a frame of a file was read into it; none where the frame
/// cannot be read.
pub uninterp spec fn png_frame(data: Seq<u8>, index: nat, buffer: Seq<u8>) -> Option<Seq<u8>>;

impl PngReader {
    /// `png::Decoder::read_info`: reads the header. A `usize` has to hold the
    /// size of a frame.
    #[verifier::external_body]
    pub(crate) fn open(data: Vec<u8>) -> (r: Result<PngReader, png::DecodingError>)
        ensures
            r is Ok <==> png_info(data@, usize::BITS) is Some,
            r matches Ok(reader) ==> png_position(reader) == (data@, 0nat),
    {
        let reader = png::Decoder::new(std::io::Cursor::new(data)).read_info()?;
        Ok(PngReader { reader })
    }

    /// `png::Reader::output_color_type` and `png::Reader::info`, before the
    /// first frame is read: what the header says. An animated file gives the
    /// number of its frames, and pixels are decoded as they are in the file, so
    /// that each takes whole bytes for each of its samples.
    #[verifier::external_body]
    pub(crate) fn header(&self) -> (r: PngInfo)
        requires
            png_position(*self).1 == 0,
        ensures
            png_info(png_position(*self).0, usize::BITS) == Some(r),
            r.animated ==> r.animation_frames is Some,
            r.bytes_per_pixel == pixel_bytes(r.color, r.bits),
    {
        let ((color, depth), info) = (self.reader.output_color_type(), self.reader.info());
        let color = match color {
            png::ColorType::Grayscale => PngColor::Grayscale,
            png::ColorType::Rgb => PngColor::Rgb,
            png::ColorType::Indexed => PngColor::Indexed,
            png::ColorType::GrayscaleAlpha => PngColor::GrayscaleAlpha,
            png::ColorType::Rgba => PngColor::Rgba,
        };
        let animation_frames = info.animation_control().map(|control| control.num_frames);
        let (width, height, animated) = (info.width, info.height, info.is_animated());
        let (bits, bytes_per_pixel) = (depth as u8, info.bytes_per_pixel());
        PngInfo { color, bits, width, height, bytes_per_pixel, animated, animation_frames }
    }

    /// `png::Reader::next_frame`: reads the next frame to the start of the
    /// buffer. What is in the file, which frame it is and the buffer decide.
    ///
    /// Left unsaid: where the reader stands after a frame that cannot be read.
    #[verifier::external_body]
    pub(crate) fn next_frame(&mut self, buffer: &mut [u8]) -> (r: Result<(), png::DecodingError>)
        ensures
            final(buffer)@.len() == old(buffer)@.len(),
            match r {
                Ok(_) => {
                    &&& png_frame(
                        png_position(*old(self)).0,
                        png_position(*old(self)).1,
                        old(buffer)@,
                    ) == Some(final(buffer)@)
                    &&& png_position(*final(self)) == (
                        png_position(*old(self)).0,
                        png_position(*old(self)).1 + 1,
                    )
                },
                Err(_) => png_frame(
                    png_position(*old(self)).0,
                    png_position(*old(self)).1,
                    old(buffer)@,
                ) is None,
            },
    {
        self.reader.next_frame(buffer).map(|_| ())
    }
}

// ---------------------------------------------------------------------------
// Textures
// ---------------------------------------------------------------------------

/// The number of frames.
pub open spec fn frame_count(info: PngInfo) -> u32 {
    if info.animated {
        info.animation_frames->0
    } else {
        1
    }
}

/// The texture format for pixels.
pub open spec fn format_of_png(color: PngColor, bits: u8) -> Option<i32> {
    match color {
        PngColor::Grayscale => if bits == 8 {
            Some(vk::FORMAT_R8_UNORM)
        } else {
            None
        },
        PngColor::Rgb | PngColor::Rgba => if bits == 4 {
            Some(vk::FORMAT_R4G4B4A4_UNORM_PACK16)
        } else if bits == 8 {
            Some(vk::FORMAT_R8G8B8A8_UNORM)
        } else {
            None
        },
        PngColor::GrayscaleAlpha => if bits == 4 {
            Some(vk::FORMAT_R4G4_UNORM_PACK8)
        } else if bits == 8 {
            Some(vk::FORMAT_R8G8_UNORM)
        } else {
            None
        },
        PngColor::Indexed => None,
    }
}

/// Colors of eight bits become texels of the same number of bytes, one component
/// for each sample; three samples get a fourth. Pairs of four bits and groups of
/// four bits are packed. Palettes and samples of sixteen bits have no format.
pub proof fn law_png_formats_fit_the_pixels(color: PngColor, bits: u8)
    ensures
        bits == 8 && !(color is Indexed) ==> format_of_png(color, bits) is Some && {
            let format = format_of_png(color, bits)->0;
            let samples = pixel_bytes(color, 8);
            &&& crate::dds::format_size(format as int).0 == (if samples == 3 {
                4
            } else {
                samples
            })
            &&& crate::dds::format_size(format as int).1 == crate::dds::format_size(
                format as int,
            ).0
            &&& crate::dds::format_layout(format as int) is Plain
            &&& format == 9 || format == 16 || format == 37
        },
        bits == 4 && (color is Rgb || color is Rgba) ==> format_of_png(color, bits) == Some(
            vk::FORMAT_R4G4B4A4_UNORM_PACK16,
        ),
        bits == 4 && color is GrayscaleAlpha ==> format_of_png(color, bits) == Some(
            vk::FORMAT_R4G4_UNORM_PACK8,
        ),
        bits == 4 && color is Grayscale ==> format_of_png(color, bits) is None,
        color is Indexed || !(bits == 4 || bits == 8) ==> format_of_png(color, bits) is None,
{
}

/// A pixel has as many bytes as samples, twice as many where a sample has
/// sixteen bits. A file has one frame, or as many as its animation.
pub proof fn law_pixels_have_their_bytes(info: PngInfo)
    ensures
        pixel_bytes(PngColor::Grayscale, 8) == 1,
        pixel_bytes(PngColor::Indexed, 8) == 1,
        pixel_bytes(PngColor::GrayscaleAlpha, 8) == 2,
        pixel_bytes(PngColor::Rgb, 8) == 3,
        pixel_bytes(PngColor::Rgba, 8) == 4,
        pixel_bytes(info.color, 16) == 2 * pixel_bytes(info.color, 8),
        info.bits != 16 ==> pixel_bytes(info.color, info.bits) == pixel_bytes(info.color, 8),
        !info.animated ==> frame_count(info) == 1,
        info.animated && info.animation_frames is Some ==> frame_count(info)
            == info.animation_frames->0,
{
}

/// The texture of a file, with a layer for each frame.
pub fn png_texture(info: &PngInfo) -> (r: Option<ImageInfo>)
    requires
        info.animated ==> info.animation_frames is Some,
    ensures
        r == (match format_of_png(info.color, info.bits) {
            Some(format) => Some(
                loader::flat_texture(
                    format,
                    info.width,
                    info.height,
                    frame_count(*info),
                    vk::IMAGE_USAGE_SAMPLED | vk::IMAGE_USAGE_TRANSFER_DST,
                ),
            ),
            None => None,
        }),
{
    let format: i32 = match info.color {
        PngColor::Grayscale => {
            if info.bits == 8 {
                vk::FORMAT_R8_UNORM
            } else {
                return None;
            }
        },
        PngColor::Rgb | PngColor::Rgba => {
            if info.bits == 4 {
                vk::FORMAT_R4G4B4A4_UNORM_PACK16
            } else if info.bits == 8 {
                vk::FORMAT_R8G8B8A8_UNORM
            } else {
                return None;
            }
        },
        PngColor::GrayscaleAlpha => {
            if info.bits == 4 {
                vk::FORMAT_R4G4_UNORM_PACK8
            } else if info.bits == 8 {
                vk::FORMAT_R8G8_UNORM
            } else {
                return None;
            }
        },
        PngColor::Indexed => {
            return None;
        },
    };
    Some(
        ImageInfo {
            image_type: vk::IMAGE_TYPE_TYPE_2D,
            format,
            width: info.width,
            height: info.height,
            depth: 1,
            mip_levels: 1,
            array_layers: frames_of(info),
            tiling: vk::IMAGE_TILING_OPTIMAL,
            usage: vk::IMAGE_USAGE_SAMPLED | vk::IMAGE_USAGE_TRANSFER_DST,
        },
    )
}

fn frames_of(info: &PngInfo) -> (r: u32)
    requires
        info.animated ==> info.animation_frames is Some,
    ensures
        r == frame_count(*info),
{
    if info.animated {
        info.animation_frames.unwrap()
    } else {
        1
    }
}

/// Opens a file, and finds the texture for it.
pub fn open_png(data: Vec<u8>) -> (r: Result<(PngReader, PngInfo, ImageInfo), ImageLoadingError>)
    ensures
        match png_info(data@, usize::BITS) {
            Some(info) => match format_of_png(info.color, info.bits) {
                Some(format) => r matches Ok((reader, i, texture)) && {
                    &&& png_position(reader) == (data@, 0nat)
                    &&& i == info
                    &&& i.animated ==> i.animation_frames is Some
                    &&& i.bytes_per_pixel == pixel_bytes(i.color, i.bits)
                    &&& texture == loader::flat_texture(
                        format,
                        info.width,
                        info.height,
                        frame_count(info),
                        vk::IMAGE_USAGE_SAMPLED | vk::IMAGE_USAGE_TRANSFER_DST,
                    )
                },
                None => r matches Err(ImageLoadingError::UnknownTextureColorType),
            },
            None => r matches Err(ImageLoadingError::PngDecodingError(_)),
        },
{
    let reader = match PngReader::open(data) {
        Ok(reader) => reader,
        Err(e) => {
            return Err(ImageLoadingError::PngDecodingError(e));
        },
    };
    let info: PngInfo = reader.header();
    match png_texture(&info) {
        Some(texture) => Ok((reader, info, texture)),
        None => Err(ImageLoadingError::UnknownTextureColorType),
    }
}

// ---------------------------------------------------------------------------
// Frames
// ---------------------------------------------------------------------------

/// How pixels become texels: pixels of three colors get a fourth value.
pub open spec fn is_spread(info: PngInfo) -> bool {
    info.color is Rgb && (info.bits == 8 || info.bits == 16)
}

/// The bytes of a pixel in the texture.
pub open spec fn texel_bytes(info: PngInfo) -> int {
    if info.color is Rgb && info.bits == 8 {
        4
    } else if info.color is Rgb && info.bits == 16 {
        8
    } else {
        info.bytes_per_pixel as int
    }
}

/// The number of pixels of a frame.
pub open spec fn pixel_count(info: PngInfo) -> int {
    info.width * info.height
}

/// The bytes of all layers of a texture.
pub open spec fn layers_size(info: PngInfo) -> int {
    pixel_count(info) * texel_bytes(info) * frame_count(info)
}

/// Pixels without alpha take the bytes of four samples instead of three, other
/// pixels their own; the texture holds them for every pixel of every frame.
pub proof fn law_layers_hold_their_pixels(info: PngInfo)
    requires
        info.bytes_per_pixel == pixel_bytes(info.color, info.bits),
    ensures
        is_spread(info) <==> info.color is Rgb && (info.bits == 8 || info.bits == 16),
        is_spread(info) ==> 3 * texel_bytes(info) == 4 * pixel_bytes(info.color, info.bits),
        !is_spread(info) ==> texel_bytes(info) == pixel_bytes(info.color, info.bits),
        layers_size(info) == info.width * info.height * texel_bytes(info) * frame_count(info),
{
}

/// The bytes of all layers of a texture, where memory can hold so many.
pub fn texture_size(info: &PngInfo) -> (r: Option<usize>)
    requires
        info.animated ==> info.animation_frames is Some,
        info.bytes_per_pixel == pixel_bytes(info.color, info.bits),
    ensures
        r == (if layers_size(*info) <= usize::MAX {
            Some(layers_size(*info) as usize)
        } else {
            None
        }),
{
    let texel: usize = match info.color {
        PngColor::Rgb => {
            if info.bits == 8 {
                4
            } else if info.bits == 16 {
                8
            } else {
                info.bytes_per_pixel
            }
        },
        _ => info.bytes_per_pixel,
    };
    let (width, height, frames): (u32, u32, u32) = (info.width, info.height, frames_of(info));
    proof {
        let top: int = u32::MAX as int;
        assert(0 <= width * height <= top * top) by (nonlinear_arith)
            requires
                0 <= width <= top,
                0 <= height <= top,
        ;
        let pixels: int = width * height;
        assert(0 <= pixels * texel <= top * top * 8) by (nonlinear_arith)
            requires
                0 <= pixels <= top * top,
                0 <= texel <= 8,
        ;
        let layer: int = pixels * texel;
        assert(0 <= layer * frames <= top * top * 8 * top) by (nonlinear_arith)
            requires
                0 <= layer <= top * top * 8,
                0 <= frames <= top,
        ;
        assert(top * top * 8 * top <= u128::MAX) by (nonlinear_arith)
            requires
                top == 0xffff_ffff,
        ;
        assert(top * top * 8 <= u128::MAX) by (nonlinear_arith)
            requires
                top == 0xffff_ffff,
        ;
        assert(top * top <= u128::MAX) by (nonlinear_arith)
            requires
                top == 0xffff_ffff,
        ;
    }
    let size: u128 = width as u128 * height as u128 * texel as u128 * frames as u128;
    if size <= usize::MAX as u128 {
        Some(size as usize)
    } else {
        None
    }
}

pub open spec fn zeros(n: nat) -> Seq<u8> {
    Seq::new(n, |i: int| 0u8)
}

/// A buffer into which the first `n` frames of a file were read one after the
/// other, where that is possible.
pub open spec fn buffer_after(data: Seq<u8>, n: nat, buffer: Seq<u8>) -> Option<Seq<u8>>
    decreases n,
{
    if n == 0 {
        Some(buffer)
    } else {
        match buffer_after(data, (n - 1) as nat, buffer) {
            Some(b) => png_frame(data, (n - 1) as nat, b),
            None => None,
        }
    }
}

/// Layer `i` of the texture.
pub open spec fn layer(slice: Seq<u8>, size: int, i: int) -> Seq<u8> {
    slice.subrange(i * size, i * size + size)
}

/// The layer of a frame whose pixels are spread: each is followed by bytes that
/// are all ones.
pub open spec fn is_spread_layer(
    pixels: Seq<u8>,
    texels: Seq<u8>,
    from: int,
    to: int,
    n: int,
) -> bool {
    &&& loader::spread(pixels, texels, from, to, n)
    &&& forall|i: int, k: int|
        0 <= i < n && from <= k < to ==> #[trigger] texels[loader::texel_at(i, to, k)] == 255
}

/// The layers of a texture lie one behind the other: byte `k` of layer `i` comes
/// after all bytes of the layers before it.
pub proof fn law_layers_follow_each_other(slice: Seq<u8>, size: int, i: int, k: int)
    requires
        0 <= k < size,
        0 <= i,
        i * size + size <= slice.len(),
    ensures
        layer(slice, size, i).len() == size,
        layer(slice, size, i)[k] == slice[i * size + k],
{
    assert(0 <= i * size) by (nonlinear_arith)
        requires
            0 <= i,
            0 < size,
    ;
}

/// The pixels of a spread layer keep their samples, and their alpha is full.
pub proof fn law_spread_layers_are_opaque(
    pixels: Seq<u8>,
    texels: Seq<u8>,
    from: int,
    to: int,
    n: int,
    i: int,
    k: int,
)
    requires
        is_spread_layer(pixels, texels, from, to, n),
        0 <= i < n,
        0 <= k < to,
    ensures
        k < from ==> texels[i * to + k] == pixels[i * from + k],
        k >= from ==> texels[i * to + k] == 255,
{
    if k < from {
        assert(texels[loader::texel_at(i, to, k)] == pixels[loader::texel_at(i, from, k)]);
    } else {
        assert(texels[loader::texel_at(i, to, k)] == 255);
    }
}

/// Frames are read one after the other into the same buffer, which starts out
/// empty.
pub proof fn law_frames_are_read_in_order(data: Seq<u8>, n: nat, buffer: Seq<u8>)
    ensures
        buffer_after(data, 0, buffer) == Some(buffer),
        buffer_after(data, n, buffer) matches Some(b) ==> buffer_after(data, n + 1, buffer)
            == png_frame(data, n, b),
        buffer_after(data, n, buffer) is None ==> buffer_after(data, n + 1, buffer) is None,
        forall|i: int| 0 <= i < n ==> #[trigger] zeros(n)[i] == 0,
        zeros(n).len() == n,
{
}

/// Frame `i` of a file is in layer `i`.
pub open spec fn frame_loaded(
    info: PngInfo,
    data: Seq<u8>,
    before: Seq<u8>,
    after: Seq<u8>,
    i: int,
) -> bool {
    let size = pixel_count(info) * texel_bytes(info);
    if is_spread(info) {
        let pixel = texel_bytes(info) / 4 * 3;
        buffer_after(
            data,
            (i + 1) as nat,
            zeros((pixel_count(info) * info.bytes_per_pixel) as nat),
        ) matches Some(pixels) && is_spread_layer(
            pixels,
            layer(after, size, i),
            pixel,
            texel_bytes(info),
            pixel_count(info),
        )
    } else {
        png_frame(data, i as nat, layer(before, size, i)) == Some(layer(after, size, i))
    }
}

/// Frame `i` of a file cannot be read.
pub open spec fn frame_fails(info: PngInfo, data: Seq<u8>, before: Seq<u8>, i: int) -> bool {
    if is_spread(info) {
        buffer_after(
            data,
            (i + 1) as nat,
            zeros((pixel_count(info) * info.bytes_per_pixel) as nat),
        ) is None
    } else {
        png_frame(
            data,
            i as nat,
            layer(before, pixel_count(info) * texel_bytes(info), i),
        ) is None
    }
}

/// Copies a part of a slice.
fn copy_part(slice: &[u8], from: usize, len: usize) -> (r: Vec<u8>)
    requires
        from + len <= slice@.len(),
    ensures
        r@ == slice@.subrange(from as int, from + len),
{
    let total: usize = slice.len();
    let mut out: Vec<u8> = Vec::new();
    while out.len() < len
        invariant
            out@.len() <= len,
            from + len <= slice@.len(),
            slice@.len() == total,
            out@ == slice@.subrange(from as int, from + out@.len()),
        decreases len - out@.len(),
    {
        assert(from + out@.len() < slice@.len());
        let place: usize = from + out.len();
        out.push(slice[place]);
        assert(out@ =~= slice@.subrange(from as int, from + out@.len()));
    }
    out
}

/// Copies bytes over a part of a slice.
fn put_part(slice: &mut [u8], from: usize, bytes: &[u8])
    requires
        from + bytes@.len() <= old(slice)@.len(),
    ensures
        final(slice)@.len() == old(slice)@.len(),
        final(slice)@.subrange(from as int, from + bytes@.len()) == bytes@,
        forall|j: int|
            0 <= j < old(slice)@.len() && !(from <= j < from + bytes@.len())
                ==> #[trigger] final(slice)@[j] == old(slice)@[j],
{
    let n: usize = bytes.len();
    let total: usize = slice.len();
    let mut i: usize = 0;
    while i < n
        invariant
            i <= n,
            n == bytes@.len(),
            total == slice@.len(),
            slice@.len() == old(slice)@.len(),
            from + n <= total,
            forall|j: int| 0 <= j < i ==> slice@[from + j] == bytes@[j],
            forall|j: int|
                0 <= j < slice@.len() && !(from <= j < from + i) ==> slice@[j] == old(slice)@[j],
        decreases n - i,
    {
        slice[from + i] = bytes[i];
        i += 1;
    }
    assert(slice@.subrange(from as int, from + n) =~= bytes@);
}

fn zeroed(n: usize) -> (r: Vec<u8>)
    ensures
        r@ == zeros(n as nat),
{
    let mut out: Vec<u8> = Vec::new();
    while out.len() < n
        invariant
            out@.len() <= n,
            out@ == zeros(out@.len()),
        decreases n - out@.len(),
    {
        out.push(0);
        assert(out@ =~= zeros(out@.len()));
    }
    out
}

/// Reads the frames of a file into the memory of its texture.
pub fn read_frames(reader: &mut PngReader, info: &PngInfo, slice: &mut [u8]) -> (r: Result<
    (),
    ImageLoadingError,
>)
    requires
        png_position(*old(reader)).1 == 0,
        info.animated ==> info.animation_frames is Some,
        info.bytes_per_pixel == pixel_bytes(info.color, info.bits),
        pixel_count(*info) * texel_bytes(*info) <= usize::MAX,
        layers_size(*info) <= old(slice)@.len(),
    ensures
        final(slice)@.len() == old(slice)@.len(),
        forall|p: int|
            layers_size(*info) <= p < old(slice)@.len() ==> #[trigger] final(slice)@[p] == old(
                slice,
            )@[p],
        match r {
            Ok(_) => forall|i: int|
                0 <= i < frame_count(*info) ==> #[trigger] frame_loaded(
                    *info,
                    png_position(*old(reader)).0,
                    old(slice)@,
                    final(slice)@,
                    i,
                ),
            Err(e) => e is PngDecodingError && exists|i: int|
                0 <= i < frame_count(*info) && #[trigger] frame_fails(
                    *info,
                    png_position(*old(reader)).0,
                    old(slice)@,
                    i,
                ),
        },
{
    let ghost data = png_position(*reader).0;
    let ghost before = slice@;
    let n: u32 = frames_of(info);
    let spreads = match info.color {
        PngColor::Rgb => info.bits == 8 || info.bits == 16,
        _ => false,
    };
    let texel: usize = match info.color {
        PngColor::Rgb => {
            if info.bits == 8 {
                4
            } else if info.bits == 16 {
                8
            } else {
                info.bytes_per_pixel
            }
        },
        _ => info.bytes_per_pixel,
    };
    let ghost count = pixel_count(*info);
    proof {
        lemma_sizes(
            info.width as int,
            info.height as int,
            texel as int,
            info.bytes_per_pixel as int,
        );
    }
    let pixels: usize = if texel == 0 {
        0
    } else {
        info.width as usize * info.height as usize
    };
    let size: usize = pixels * texel;
    let raw: usize = pixels * info.bytes_per_pixel;
    let mut buffer: Vec<u8> = Vec::new();
    if spreads {
        buffer = zeroed(raw);
    }
    let ghost first = buffer@;
    let total: usize = slice.len();
    let mut i: u32 = 0;
    while i < n
        invariant
            i <= n,
            n == frame_count(*info),
            spreads == is_spread(*info),
            texel == texel_bytes(*info),
            count == pixel_count(*info),
            texel > 0 ==> pixels == count,
            size == count * texel,
            spreads ==> raw == count * info.bytes_per_pixel && texel > 0,
            spreads ==> info.bytes_per_pixel == texel_bytes(*info) / 4 * 3,
            total == slice@.len(),
            slice@.len() == before.len(),
            before == old(slice)@,
            count * texel * n <= before.len(),
            data == png_position(*old(reader)).0,
            png_position(*reader) == (data, i as nat),
            spreads ==> first == zeros(raw as nat),
            spreads ==> buffer_after(data, i as nat, first) == Some(buffer@) && buffer@.len()
                == raw,
            forall|j: int|
                0 <= j < i ==> #[trigger] frame_loaded(*info, data, before, slice@, j),
            forall|p: int| i * size <= p < before.len() ==> slice@[p] == before[p],
        decreases n - i,
    {
        let ghost now = slice@;
        proof {
            lemma_layer(i as int, n as int, size as int);
            assert(size * n == layers_size(*info));
        }
        let from: usize = i as usize * size;
        if spreads {
            match reader.next_frame(buffer.as_mut_slice()) {
                Ok(_) => {},
                Err(e) => {
                    assert(frame_fails(*info, data, before, i as int));
                    return Err(ImageLoadingError::PngDecodingError(e));
                },
            }
            let mut texels: Vec<u8> = zeroed(size);
            proof {
                lemma_whole(count, texel as int);
                lemma_whole(count, info.bytes_per_pixel as int);
            }
            loader::spread_pixels(
                buffer.as_slice(),
                texels.as_mut_slice(),
                info.bytes_per_pixel,
                texel,
                Some(255),
            );
            put_part(slice, from, texels.as_slice());
            proof {
                assert(layer(slice@, size as int, i as int) =~= texels@);
                assert(is_spread_layer(
                    buffer@,
                    layer(slice@, size as int, i as int),
                    info.bytes_per_pixel as int,
                    texel as int,
                    count,
                ));
                assert(frame_loaded(*info, data, before, slice@, i as int));
            }
        } else {
            let mut frame: Vec<u8> = copy_part(slice, from, size);
            assert(frame@ =~= layer(before, size as int, i as int));
            match reader.next_frame(frame.as_mut_slice()) {
                Ok(_) => {},
                Err(e) => {
                    assert(frame_fails(*info, data, before, i as int));
                    return Err(ImageLoadingError::PngDecodingError(e));
                },
            }
            put_part(slice, from, frame.as_slice());
            proof {
                assert(layer(slice@, size as int, i as int) =~= frame@);
                assert(frame_loaded(*info, data, before, slice@, i as int));
            }
        }
        proof {
            assert forall|j: int| 0 <= j < i + 1 implies #[trigger] frame_loaded(
                *info,
                data,
                before,
                slice@,
                j,
            ) by {
                if j < i {
                    assert(frame_loaded(*info, data, before, now, j));
                    lemma_before(j, i as int, size as int);
                    assert(layer(slice@, size as int, j) =~= layer(now, size as int, j));
                }
            }
        }
        i += 1;
    }
    proof {
        vstd::arithmetic::mul::lemma_mul_is_commutative(i as int, size as int);
    }
    Ok(())
}

proof fn lemma_sizes(width: int, height: int, texel: int, bytes: int)
    requires
        0 <= width,
        0 <= height,
        0 <= texel,
        0 <= bytes,
    ensures
        0 <= width * height,
        texel > 0 ==> width * height <= width * height * texel,
        bytes <= texel ==> width * height * bytes <= width * height * texel,
        texel == 0 ==> width * height * texel == 0,
{
    assert(0 <= width * height) by (nonlinear_arith)
        requires
            0 <= width,
            0 <= height,
    ;
    let n = width * height;
    assert(texel > 0 ==> n <= n * texel) by (nonlinear_arith)
        requires
            0 <= n,
    ;
    assert(bytes <= texel ==> n * bytes <= n * texel) by (nonlinear_arith)
        requires
            0 <= n,
            0 <= bytes,
    ;
}

proof fn lemma_layer(i: int, n: int, size: int)
    requires
        0 <= i < n,
        0 <= size,
    ensures
        0 <= i * size,
        (i + 1) * size == i * size + size,
        i * size + size <= size * n,
{
    assert(0 <= i * size && i * size + size <= size * n && (i + 1) * size == i * size + size)
        by (nonlinear_arith)
        requires
            0 <= i < n,
            0 <= size,
    ;
}

proof fn lemma_before(j: int, i: int, size: int)
    requires
        0 <= j < i,
        0 <= size,
    ensures
        0 <= j * size,
        j * size + size <= i * size,
{
    assert(0 <= j * size && j * size + size <= i * size) by (nonlinear_arith)
        requires
            0 <= j < i,
            0 <= size,
    ;
}

proof fn lemma_whole(n: int, size: int)
    requires
        0 <= n,
        0 < size,
    ensures
        (n * size) % size == 0,
        (n * size) / size == n,
{
    vstd::arithmetic::div_mod::lemma_div_multiples_vanish(n, size);
    vstd::arithmetic::div_mod::lemma_mod_multiples_basic(n, size);
    vstd::arithmetic::mul::lemma_mul_is_commutative(n, size);
}

} // verus!
