//! Textures from KTX files.

use crate::bytes;
use crate::loader::ImageInfo;
use crate::vk;
use vstd::prelude::*;

verus! {

/// Why a header cannot be read.
#[derive(Debug, Clone, Copy, PartialEq, Eq, Structural)]
pub enum ParseError {
    BadMagic,
    ZeroWidth,
    ZeroFaceCount,
    Other,
}

/// The header of a file.
#[derive(Debug, Clone, Copy, PartialEq, Eq, Structural)]
pub struct KtxHeader {
    /// 0 where the format is left open.
    pub format: u32,
    pub pixel_width: u32,
    pub pixel_height: u32,
    pub pixel_depth: u32,
    pub layer_count: u32,
    pub face_count: u32,
    pub level_count: u32,
    pub dfd_byte_offset: u32,
    pub sgd_byte_offset: u64,
    pub sgd_byte_length: u64,
}

/// Length of the header.
pub const HEADER_LENGTH: usize = 80;

/// Length of what is said of a level.
pub const LEVEL_INDEX_LENGTH: usize = 24;

/// The first twelve bytes of a file.
pub open spec fn ktx_magic() -> Seq<u8> {
    seq![0xAB, 0x4B, 0x54, 0x58, 0x20, 0x32, 0x30, 0xBB, 0x0D, 0x0A, 0x1A, 0x0A]
}

/// What is wrong with a header: a texture is at least one pixel wide and has a
/// face.
pub open spec fn header_error(header: Seq<u8>) -> Option<ParseError> {
    if header.take(12) != ktx_magic() {
        Some(ParseError::BadMagic)
    } else if bytes::u32_at(header, 20) == 0 {
        Some(ParseError::ZeroWidth)
    } else if bytes::u32_at(header, 36) == 0 {
        Some(ParseError::ZeroFaceCount)
    } else {
        None
    }
}

/// What a header says.
pub open spec fn ktx_header(header: Seq<u8>) -> KtxHeader {
    KtxHeader {
        format: bytes::u32_at(header, 12) as u32,
        pixel_width: bytes::u32_at(header, 20) as u32,
        pixel_height: bytes::u32_at(header, 24) as u32,
        pixel_depth: bytes::u32_at(header, 28) as u32,
        layer_count: bytes::u32_at(header, 32) as u32,
        face_count: bytes::u32_at(header, 36) as u32,
        level_count: bytes::u32_at(header, 40) as u32,
        dfd_byte_offset: bytes::u32_at(header, 48) as u32,
        sgd_byte_offset: bytes::u64_at(header, 64) as u64,
        sgd_byte_length: bytes::u64_at(header, 72) as u64,
    }
}

/// `ktx2::Header::from_bytes`: the fields of a header, each at its place.
#[verifier::external_body]
fn read_header(header: &[u8; 80]) -> (r: Result<KtxHeader, ParseError>)
    ensures
        match header_error(header@) {
            Some(error) => r matches Err(e) && e == error,
            None => r matches Ok(h) && h == ktx_header(header@),
        },
{
    let h = ktx2::Header::from_bytes(header).map_err(|e| match e {
        ktx2::ParseError::BadMagic => ParseError::BadMagic,
        ktx2::ParseError::ZeroWidth => ParseError::ZeroWidth,
        ktx2::ParseError::ZeroFaceCount => ParseError::ZeroFaceCount,
        _ => ParseError::Other,
    })?;
    let format = h.format.map_or(0, |format| format.value());
    let (pixel_width, pixel_height, pixel_depth) = (h.pixel_width, h.pixel_height, h.pixel_depth);
    let (layer_count, face_count, level_count) = (h.layer_count, h.face_count, h.level_count);
    let dfd_byte_offset = h.index.dfd_byte_offset;
    let (sgd_byte_offset, sgd_byte_length) = (h.index.sgd_byte_offset, h.index.sgd_byte_length);
    Ok(KtxHeader { format, pixel_width, pixel_height, pixel_depth, layer_count, face_count,
        level_count, dfd_byte_offset, sgd_byte_offset, sgd_byte_length })
}

/// Why a KTX file cannot be loaded.
#[derive(Debug, Clone, Copy, PartialEq, Eq, Structural)]
pub enum KtxError {
    /// The header cannot be read, or has a number of layers that is not one and
    /// not six.
    KtxParseError(ParseError),
}

/// How the image is created.
#[derive(Debug, Clone, Copy, PartialEq, Eq, Structural)]
pub struct KtxLoaderSettings {
    pub usage: u32,
    pub flags: u32,
    pub tiling: i32,
    pub layout: i32,
}

impl Default for KtxLoaderSettings {
    fn default() -> (r: Self)
        ensures
            r == (KtxLoaderSettings {
                usage: vk::IMAGE_USAGE_SAMPLED,
                flags: 0,
                tiling: vk::IMAGE_TILING_OPTIMAL,
                layout: vk::IMAGE_LAYOUT_SHADER_READ_ONLY_OPTIMAL,
            }),
    {
        KtxLoaderSettings {
            usage: vk::IMAGE_USAGE_SAMPLED,
            flags: 0,
            tiling: vk::IMAGE_TILING_OPTIMAL,
            layout: vk::IMAGE_LAYOUT_SHADER_READ_ONLY_OPTIMAL,
        }
    }
}

pub open spec fn at_least_one(n: u32) -> u32 {
    if n == 0 {
        1
    } else {
        n
    }
}

/// The image of a file. A file without a number of levels or layers has one.
pub open spec fn ktx_image(h: KtxHeader, settings: KtxLoaderSettings) -> ImageInfo {
    ImageInfo {
        image_type: if h.pixel_height == 0 && h.pixel_depth == 0 {
            vk::IMAGE_TYPE_TYPE_1D
        } else if h.pixel_depth > 0 {
            vk::IMAGE_TYPE_TYPE_3D
        } else {
            vk::IMAGE_TYPE_TYPE_2D
        },
        format: h.format as i32,
        width: h.pixel_width,
        height: h.pixel_height,
        depth: h.pixel_depth,
        mip_levels: at_least_one(h.level_count),
        array_layers: if h.face_count == 6 {
            (at_least_one(h.layer_count) * 6) as u32
        } else {
            at_least_one(h.layer_count)
        },
        tiling: settings.tiling,
        usage: settings.usage,
    }
}

/// The layers of a file that can be loaded.
pub open spec fn layers_known(h: KtxHeader) -> bool {
    at_least_one(h.layer_count) == 1 || at_least_one(h.layer_count) == 6
}

/// An image is as large as the header says, and in its format. What the header
/// counts as none is one level and one layer; a cube has six layers for each.
/// Depth makes an image three-dimensional, and without a height it has one
/// dimension.
pub proof fn law_images_are_as_their_headers_say(h: KtxHeader, settings: KtxLoaderSettings)
    requires
        layers_known(h),
    ensures
        ({
            let r = ktx_image(h, settings);
            &&& r.width == h.pixel_width
            &&& r.height == h.pixel_height
            &&& r.depth == h.pixel_depth
            &&& h.format <= i32::MAX ==> r.format == h.format
            &&& h.level_count == 0 ==> r.mip_levels == 1
            &&& h.level_count > 0 ==> r.mip_levels == h.level_count
            &&& h.face_count != 6 && h.layer_count <= 1 ==> r.array_layers == 1
            &&& h.face_count != 6 && h.layer_count > 1 ==> r.array_layers == h.layer_count
            &&& h.face_count == 6 && h.layer_count <= 1 ==> r.array_layers == 6
            &&& h.face_count == 6 && h.layer_count > 1 ==> r.array_layers == 6 * h.layer_count
            &&& r.image_type == vk::IMAGE_TYPE_TYPE_3D <==> h.pixel_depth > 0
            &&& r.image_type == vk::IMAGE_TYPE_TYPE_2D <==> h.pixel_depth == 0 && h.pixel_height
                > 0
            &&& r.image_type == vk::IMAGE_TYPE_TYPE_1D <==> h.pixel_depth == 0 && h.pixel_height
                == 0
            &&& r.tiling == settings.tiling
            &&& r.usage == settings.usage
        }),
{
}

/// Images of one layer and of six can be loaded.
pub proof fn law_one_or_six_layers_can_be_loaded(h: KtxHeader)
    ensures
        layers_known(h) <==> h.layer_count <= 1 || h.layer_count == 6,
{
}

fn one_or_more(n: u32) -> (r: u32)
    ensures
        r == at_least_one(n),
{
    if n == 0 {
        1
    } else {
        n
    }
}

/// Reads the header of a file, and finds the image for it.
pub fn load_ktx(header: &[u8; 80], settings: &KtxLoaderSettings) -> (r: Result<
    (KtxHeader, ImageInfo),
    KtxError,
>)
    ensures
        match header_error(header@) {
            Some(error) => r matches Err(KtxError::KtxParseError(e)) && e == error,
            None => if layers_known(ktx_header(header@)) {
                r matches Ok((h, info)) && h == ktx_header(header@) && info == ktx_image(
                    h,
                    *settings,
                )
            } else {
                r matches Err(KtxError::KtxParseError(ParseError::ZeroFaceCount))
            },
        },
{
    let h: KtxHeader = match read_header(header) {
        Ok(h) => h,
        Err(e) => {
            return Err(KtxError::KtxParseError(e));
        },
    };
    let layers: u32 = one_or_more(h.layer_count);
    if layers != 1 && layers != 6 {
        return Err(KtxError::KtxParseError(ParseError::ZeroFaceCount));
    }
    let image_type: i32 = if h.pixel_height == 0 && h.pixel_depth == 0 {
        vk::IMAGE_TYPE_TYPE_1D
    } else if h.pixel_depth > 0 {
        vk::IMAGE_TYPE_TYPE_3D
    } else {
        vk::IMAGE_TYPE_TYPE_2D
    };
    let array_layers: u32 = if h.face_count == 6 {
        layers * 6
    } else {
        layers
    };
    Ok(
        (
            h,
            ImageInfo {
                image_type,
                format: h.format as i32,
                width: h.pixel_width,
                height: h.pixel_height,
                depth: h.pixel_depth,
                mip_levels: one_or_more(h.level_count),
                array_layers,
                tiling: settings.tiling,
                usage: settings.usage,
            },
        ),
    )
}

/// The length of what a file says of its levels.
pub fn level_index_size(h: &KtxHeader) -> (r: u64)
    ensures
        r == LEVEL_INDEX_LENGTH * at_least_one(h.level_count),
{
    LEVEL_INDEX_LENGTH as u64 * one_or_more(h.level_count) as u64
}

/// How far the levels are behind the header and what the file says of them.
pub fn data_distance(h: &KtxHeader) -> (r: u64)
    requires
        HEADER_LENGTH + LEVEL_INDEX_LENGTH * at_least_one(h.level_count) <= h.sgd_byte_offset,
        h.sgd_byte_offset - HEADER_LENGTH - LEVEL_INDEX_LENGTH * at_least_one(h.level_count)
            + h.sgd_byte_length <= i64::MAX,
    ensures
        r == h.sgd_byte_offset - HEADER_LENGTH - LEVEL_INDEX_LENGTH * at_least_one(h.level_count)
            + h.sgd_byte_length,
{
    h.sgd_byte_offset - HEADER_LENGTH as u64 - level_index_size(h) + h.sgd_byte_length
}

/// The size of a side on a level: half of that on the level before, but at
/// least one.
pub open spec fn on_level(n: u32, level: u32) -> u32 {
    at_least_one(n >> level)
}

/// The bytes of a level, for texels of `block_size` bytes.
pub open spec fn level_size(h: KtxHeader, block_size: u32, level: u32) -> int {
    on_level(h.pixel_width, level) * on_level(h.pixel_height, level) * on_level(
        h.pixel_depth,
        level,
    ) * block_size * at_least_one(h.layer_count) * h.face_count
}

/// The bytes of the first `n` levels.
pub open spec fn levels_size(h: KtxHeader, block_size: u32, n: nat) -> int
    decreases n,
{
    if n == 0 {
        0
    } else {
        levels_size(h, block_size, (n - 1) as nat) + level_size(h, block_size, (n - 1) as u32)
    }
}

/// The first level has the size of the image. Each side of a further one is half
/// as long as on the level before, rounded down, but never vanishes.
pub proof fn law_levels_halve(n: u32, level: u32)
    requires
        level < 31,
    ensures
        n > 0 ==> on_level(n, 0) == n,
        on_level(n, level) >= 1,
        on_level(n, level) >= 2 ==> on_level(n, (level + 1) as u32) == on_level(n, level) / 2,
        on_level(n, level) == 1 ==> on_level(n, (level + 1) as u32) == 1,
{
    let next = (level + 1) as u32;
    assert(n >> 0u32 == n) by (bit_vector);
    assert(n >> next == (n >> level) / 2) by (bit_vector)
        requires
            level < 31,
            next == level + 1,
    ;
}

/// A level of one layer and one face holds its texels; further layers and faces
/// hold as many each. All levels together hold what each one does.
pub proof fn law_levels_add_up(h: KtxHeader, block_size: u32, n: nat)
    requires
        n < u32::MAX,
    ensures
        levels_size(h, block_size, n + 1) - levels_size(h, block_size, n) == level_size(
            h,
            block_size,
            n as u32,
        ),
        levels_size(h, block_size, 0) == 0,
        h.layer_count <= 1 && h.face_count == 1 ==> level_size(h, block_size, n as u32) == on_level(
            h.pixel_width,
            n as u32,
        ) * on_level(h.pixel_height, n as u32) * on_level(h.pixel_depth, n as u32) * block_size,
        h.layer_count <= 1 && h.face_count == 6 ==> level_size(h, block_size, n as u32) == on_level(
            h.pixel_width,
            n as u32,
        ) * on_level(h.pixel_height, n as u32) * on_level(h.pixel_depth, n as u32) * block_size
            * 6,
        h.layer_count == 6 && h.face_count == 1 ==> level_size(h, block_size, n as u32) == on_level(
            h.pixel_width,
            n as u32,
        ) * on_level(h.pixel_height, n as u32) * on_level(h.pixel_depth, n as u32) * block_size
            * 6,
{
    let texels = on_level(h.pixel_width, n as u32) * on_level(h.pixel_height, n as u32) * on_level(
        h.pixel_depth,
        n as u32,
    ) * block_size;
    assert(texels * 1 == texels);
    assert(texels * 1 * h.face_count == texels * h.face_count);
    assert(texels * 6 * 1 == texels * 6);
}

/// The products that make up the size of a level stay within their types.
pub open spec fn level_fits(h: KtxHeader, block_size: u32, level: u32) -> bool {
    let texels = on_level(h.pixel_width, level) * on_level(h.pixel_height, level) * on_level(
        h.pixel_depth,
        level,
    );
    &&& on_level(h.pixel_width, level) * on_level(h.pixel_height, level) <= u32::MAX
    &&& texels <= u32::MAX
    &&& texels * block_size <= u32::MAX
    &&& texels * block_size * at_least_one(h.layer_count) <= u64::MAX
    &&& level_size(h, block_size, level) <= u64::MAX
}

/// The bytes of all levels of a file, for texels of `block_size` bytes.
pub fn total_data_size(h: &KtxHeader, block_size: u32) -> (r: u64)
    requires
        at_least_one(h.level_count) <= 32,
        forall|level: u32|
            level < at_least_one(h.level_count) ==> #[trigger] level_fits(*h, block_size, level),
        forall|n: nat|
            n <= at_least_one(h.level_count) ==> #[trigger] levels_size(*h, block_size, n)
                <= u64::MAX,
    ensures
        r == levels_size(*h, block_size, at_least_one(h.level_count) as nat),
{
    let n: u32 = one_or_more(h.level_count);
    let layers: u32 = one_or_more(h.layer_count);
    let mut total: u64 = 0;
    let mut level: u32 = 0;
    while level < n
        invariant
            level <= n,
            n == at_least_one(h.level_count),
            n <= 32,
            layers == at_least_one(h.layer_count),
            forall|level: u32|
                level < at_least_one(h.level_count) ==> #[trigger] level_fits(
                    *h,
                    block_size,
                    level,
                ),
            forall|n: nat|
                n <= at_least_one(h.level_count) ==> #[trigger] levels_size(*h, block_size, n)
                    <= u64::MAX,
            total == levels_size(*h, block_size, level as nat),
        decreases n - level,
    {
        assert(level_fits(*h, block_size, level));
        let width: u32 = one_or_more(h.pixel_width >> level);
        let height: u32 = one_or_more(h.pixel_height >> level);
        let depth: u32 = one_or_more(h.pixel_depth >> level);
        let texels: u32 = width * height * depth;
        let count: u32 = texels * block_size;
        let size: u64 = count as u64 * layers as u64 * h.face_count as u64;
        assert(levels_size(*h, block_size, (level + 1) as nat) == total + size);
        total = total + size;
        level += 1;
    }
    total
}

} // verus!
