//! Textures from DDS files.

use crate::bytes;
use crate::bytes::read_u32;
use crate::loader::ImageInfo;
use crate::vk;
use vstd::prelude::*;

verus! {

// ---------------------------------------------------------------------------
// Headers
// ---------------------------------------------------------------------------

#[verifier::external_type_specification]
#[verifier::external_body]
pub struct ExDdsFileError(ddsfile::Error);

/// An error says that a file does not start as DDS files do.
pub uninterp spec fn is_bad_magic(error: ddsfile::Error) -> bool;

/// `ddsfile::Error::BadMagicNumber`: the error for a file that does not start as
/// DDS files do.
#[verifier::external_body]
fn bad_magic() -> (r: ddsfile::Error)
    ensures
        is_bad_magic(r),
{
    ddsfile::Error::BadMagicNumber
}

/// The header of a file, without the four bytes before it.
#[derive(Debug, Clone, Copy, PartialEq, Eq)]
pub struct DdsHeader {
    pub width: u32,
    pub height: u32,
    pub depth: Option<u32>,
    pub mip_map_count: Option<u32>,
    pub fourcc: Option<u32>,
    pub cubemap: bool,
}

/// The second header of newer files.
#[derive(Debug, Clone, Copy, PartialEq, Eq, Structural)]
pub struct DdsHeader10 {
    pub dxgi_format: u32,
    pub array_size: u32,
}

/// A field that is only there with a flag.
pub open spec fn flagged(header: Seq<u8>, flags: int, flag: u32, at: int) -> Option<u32> {
    if vk::contains(bytes::u32_at(header, flags) as u32, flag) {
        Some(bytes::u32_at(header, at) as u32)
    } else {
        None
    }
}

/// The header has the sizes that it has to give for itself and its pixel
/// format.
pub open spec fn is_dds_header(header: Seq<u8>) -> bool {
    bytes::u32_at(header, 0) == 124 && bytes::u32_at(header, 72) == 32
}

/// What a header says.
pub open spec fn dds_header(header: Seq<u8>) -> DdsHeader {
    DdsHeader {
        width: bytes::u32_at(header, 12) as u32,
        height: bytes::u32_at(header, 8) as u32,
        depth: flagged(header, 4, 0x80_0000, 20),
        mip_map_count: flagged(header, 4, 0x2_0000, 24),
        fourcc: flagged(header, 76, 0x4, 80),
        cubemap: vk::contains(bytes::u32_at(header, 108) as u32, 0x200),
    }
}

/// A number that stands for a format in second headers.
pub open spec fn is_dxgi_format(n: int) -> bool {
    0 <= n <= 115 || 130 <= n <= 132 || n == 0xFFFF_FFFF
}

/// The second header gives a format, a dimension and an alpha mode that there
/// are.
pub open spec fn is_dds_header10(header: Seq<u8>) -> bool {
    is_dxgi_format(bytes::u32_at(header, 0)) && bytes::u32_at(header, 4) <= 4 && bytes::u32_at(
        header,
        16,
    ) <= 4
}

/// `ddsfile::Header::read`: the fields of a header, each at its place.
#[verifier::external_body]
fn read_header(header: &[u8]) -> (r: Result<DdsHeader, ddsfile::Error>)
    requires
        header@.len() == 124,
    ensures
        r is Ok <==> is_dds_header(header@),
        r matches Ok(h) ==> h == dds_header(header@),
{
    let h = ddsfile::Header::read(header)?;
    Ok(
        DdsHeader {
            width: h.width,
            height: h.height,
            depth: h.depth,
            mip_map_count: h.mip_map_count,
            fourcc: h.spf.fourcc.map(|fourcc| fourcc.0),
            cubemap: h.caps2.contains(ddsfile::Caps2::CUBEMAP),
        },
    )
}

/// `ddsfile::Header10::read`: the fields of a second header, each at its place.
#[verifier::external_body]
fn read_header10(header: &[u8]) -> (r: Result<DdsHeader10, ddsfile::Error>)
    requires
        header@.len() == 20,
    ensures
        r is Ok <==> is_dds_header10(header@),
        r matches Ok(h) ==> h.dxgi_format == bytes::u32_at(header@, 0) && h.array_size
            == bytes::u32_at(header@, 12),
{
    let h = ddsfile::Header10::read(header)?;
    Ok(DdsHeader10 { dxgi_format: h.dxgi_format as u32, array_size: h.array_size })
}

// ---------------------------------------------------------------------------
// Formats
// ---------------------------------------------------------------------------

pub const DXGI_R32G32B32A32_TYPELESS: u32 = 1;

pub const DXGI_R32G32B32A32_FLOAT: u32 = 2;

pub const DXGI_R32G32B32A32_UINT: u32 = 3;

pub const DXGI_R32G32B32A32_SINT: u32 = 4;

pub const DXGI_R16G16B16A16_TYPELESS: u32 = 9;

pub const DXGI_R16G16B16A16_FLOAT: u32 = 10;

pub const DXGI_R16G16B16A16_UNORM: u32 = 11;

pub const DXGI_R16G16B16A16_UINT: u32 = 12;

pub const DXGI_R16G16B16A16_SNORM: u32 = 13;

pub const DXGI_R16G16B16A16_SINT: u32 = 14;

pub const DXGI_R32G32_TYPELESS: u32 = 15;

pub const DXGI_R32G32_FLOAT: u32 = 16;

pub const DXGI_R32G32_UINT: u32 = 17;

pub const DXGI_R32G32_SINT: u32 = 18;

pub const DXGI_R10G10B10A2_TYPELESS: u32 = 23;

pub const DXGI_R10G10B10A2_UNORM: u32 = 24;

pub const DXGI_R11G11B10_FLOAT: u32 = 26;

pub const DXGI_R8G8B8A8_TYPELESS: u32 = 27;

pub const DXGI_R8G8B8A8_UNORM: u32 = 28;

pub const DXGI_R8G8B8A8_UNORM_SRGB: u32 = 29;

pub const DXGI_R8G8B8A8_UINT: u32 = 30;

pub const DXGI_R8G8B8A8_SNORM: u32 = 31;

pub const DXGI_R8G8B8A8_SINT: u32 = 32;

pub const DXGI_R16G16_TYPELESS: u32 = 33;

pub const DXGI_R16G16_FLOAT: u32 = 34;

pub const DXGI_R16G16_UNORM: u32 = 35;

pub const DXGI_R16G16_UINT: u32 = 36;

pub const DXGI_R16G16_SNORM: u32 = 37;

pub const DXGI_R16G16_SINT: u32 = 38;

pub const DXGI_R32_TYPELESS: u32 = 39;

pub const DXGI_R32_FLOAT: u32 = 41;

pub const DXGI_D32_FLOAT: u32 = 40;

pub const DXGI_R32_UINT: u32 = 42;

pub const DXGI_R32_SINT: u32 = 43;

pub const DXGI_R24G8_TYPELESS: u32 = 44;

pub const DXGI_D24_UNORM_S8_UINT: u32 = 45;

pub const DXGI_R24_UNORM_X8_TYPELESS: u32 = 46;

pub const DXGI_R8G8_TYPELESS: u32 = 48;

pub const DXGI_R8G8_UNORM: u32 = 49;

pub const DXGI_R8G8_UINT: u32 = 50;

pub const DXGI_R8G8_SNORM: u32 = 51;

pub const DXGI_R8G8_SINT: u32 = 52;

pub const DXGI_R16_TYPELESS: u32 = 53;

pub const DXGI_R16_FLOAT: u32 = 54;

pub const DXGI_R16_UNORM: u32 = 56;

pub const DXGI_R16_UINT: u32 = 57;

pub const DXGI_R16_SNORM: u32 = 58;

pub const DXGI_R16_SINT: u32 = 59;

pub const DXGI_R8_TYPELESS: u32 = 60;

pub const DXGI_R8_UNORM: u32 = 61;

pub const DXGI_R8_UINT: u32 = 62;

pub const DXGI_R8_SNORM: u32 = 63;

pub const DXGI_R8_SINT: u32 = 64;

pub const DXGI_R9G9B9E5_SHAREDEXP: u32 = 67;

pub const DXGI_BC1_TYPELESS: u32 = 70;

pub const DXGI_BC1_UNORM: u32 = 71;

pub const DXGI_BC1_UNORM_SRGB: u32 = 72;

pub const DXGI_BC2_TYPELESS: u32 = 73;

pub const DXGI_BC2_UNORM: u32 = 74;

pub const DXGI_BC2_UNORM_SRGB: u32 = 75;

pub const DXGI_BC3_TYPELESS: u32 = 76;

pub const DXGI_BC3_UNORM: u32 = 77;

pub const DXGI_BC3_UNORM_SRGB: u32 = 78;

pub const DXGI_BC4_TYPELESS: u32 = 79;

pub const DXGI_BC4_UNORM: u32 = 80;

pub const DXGI_BC4_SNORM: u32 = 81;

pub const DXGI_BC5_TYPELESS: u32 = 82;

pub const DXGI_BC5_UNORM: u32 = 83;

pub const DXGI_BC5_SNORM: u32 = 84;

pub const DXGI_B8G8R8A8_UNORM: u32 = 87;

pub const DXGI_B8G8R8A8_TYPELESS: u32 = 90;

pub const DXGI_B8G8R8A8_UNORM_SRGB: u32 = 91;

pub const DXGI_BC6H_TYPELESS: u32 = 94;

pub const DXGI_BC6H_UF16: u32 = 95;

pub const DXGI_BC6H_SF16: u32 = 96;

pub const DXGI_BC7_TYPELESS: u32 = 97;

pub const DXGI_BC7_UNORM: u32 = 98;

pub const DXGI_BC7_UNORM_SRGB: u32 = 99;

/// The texture format for a format of DDS files.
pub open spec fn format_of_dxgi(dxgi: u32, is_srgb: bool) -> Option<i32> {
    if dxgi == DXGI_R32G32B32A32_TYPELESS || dxgi == DXGI_R32G32B32A32_FLOAT {
        Some(vk::FORMAT_R32G32B32A32_SFLOAT)
    } else if dxgi == DXGI_R32G32B32A32_UINT {
        Some(vk::FORMAT_R32G32B32A32_UINT)
    } else if dxgi == DXGI_R32G32B32A32_SINT {
        Some(vk::FORMAT_R32G32B32A32_SINT)
    } else if dxgi == DXGI_R16G16B16A16_TYPELESS || dxgi == DXGI_R16G16B16A16_FLOAT {
        Some(vk::FORMAT_R16G16B16A16_SFLOAT)
    } else if dxgi == DXGI_R16G16B16A16_UNORM {
        Some(vk::FORMAT_R16G16B16A16_UNORM)
    } else if dxgi == DXGI_R16G16B16A16_UINT {
        Some(vk::FORMAT_R16G16B16A16_UINT)
    } else if dxgi == DXGI_R16G16B16A16_SNORM {
        Some(vk::FORMAT_R16G16B16A16_SNORM)
    } else if dxgi == DXGI_R16G16B16A16_SINT {
        Some(vk::FORMAT_R16G16B16A16_SINT)
    } else if dxgi == DXGI_R32G32_TYPELESS || dxgi == DXGI_R32G32_FLOAT {
        Some(vk::FORMAT_R32G32_SFLOAT)
    } else if dxgi == DXGI_R32G32_UINT {
        Some(vk::FORMAT_R32G32_UINT)
    } else if dxgi == DXGI_R32G32_SINT {
        Some(vk::FORMAT_R32G32_SINT)
    } else if dxgi == DXGI_R10G10B10A2_TYPELESS || dxgi == DXGI_R10G10B10A2_UNORM {
        Some(vk::FORMAT_A2B10G10R10_UNORM_PACK32)
    } else if dxgi == DXGI_R11G11B10_FLOAT {
        Some(vk::FORMAT_B10G11R11_UFLOAT_PACK32)
    } else if dxgi == DXGI_R8G8B8A8_TYPELESS || dxgi == DXGI_R8G8B8A8_UNORM || dxgi == DXGI_R8G8B8A8_UNORM_SRGB {
        if is_srgb {
            Some(vk::FORMAT_R8G8B8A8_SRGB)
        } else {
            Some(vk::FORMAT_R8G8B8A8_UNORM)
        }
    } else if dxgi == DXGI_R8G8B8A8_UINT {
        Some(vk::FORMAT_R8G8B8A8_UINT)
    } else if dxgi == DXGI_R8G8B8A8_SNORM {
        Some(vk::FORMAT_R8G8B8A8_SNORM)
    } else if dxgi == DXGI_R8G8B8A8_SINT {
        Some(vk::FORMAT_R8G8B8A8_SINT)
    } else if dxgi == DXGI_R16G16_TYPELESS || dxgi == DXGI_R16G16_FLOAT {
        Some(vk::FORMAT_R16G16_SFLOAT)
    } else if dxgi == DXGI_R16G16_UNORM {
        Some(vk::FORMAT_R16G16_UNORM)
    } else if dxgi == DXGI_R16G16_UINT {
        Some(vk::FORMAT_R16G16_UINT)
    } else if dxgi == DXGI_R16G16_SNORM {
        Some(vk::FORMAT_R16G16_SNORM)
    } else if dxgi == DXGI_R16G16_SINT {
        Some(vk::FORMAT_R16G16_SINT)
    } else if dxgi == DXGI_R32_TYPELESS || dxgi == DXGI_R32_FLOAT {
        Some(vk::FORMAT_R32_SFLOAT)
    } else if dxgi == DXGI_D32_FLOAT {
        Some(vk::FORMAT_D32_SFLOAT)
    } else if dxgi == DXGI_R32_UINT {
        Some(vk::FORMAT_R32_UINT)
    } else if dxgi == DXGI_R32_SINT {
        Some(vk::FORMAT_R32_SINT)
    } else if dxgi == DXGI_R24G8_TYPELESS || dxgi == DXGI_D24_UNORM_S8_UINT {
        Some(vk::FORMAT_D24_UNORM_S8_UINT)
    } else if dxgi == DXGI_R24_UNORM_X8_TYPELESS {
        Some(vk::FORMAT_X8_D24_UNORM_PACK32)
    } else if dxgi == DXGI_R8G8_TYPELESS || dxgi == DXGI_R8G8_UNORM {
        Some(vk::FORMAT_R8G8_UNORM)
    } else if dxgi == DXGI_R8G8_UINT {
        Some(vk::FORMAT_R8G8_UINT)
    } else if dxgi == DXGI_R8G8_SNORM {
        Some(vk::FORMAT_R8G8_SNORM)
    } else if dxgi == DXGI_R8G8_SINT {
        Some(vk::FORMAT_R8G8_SINT)
    } else if dxgi == DXGI_R16_TYPELESS || dxgi == DXGI_R16_FLOAT {
        Some(vk::FORMAT_R16_SFLOAT)
    } else if dxgi == DXGI_R16_UNORM {
        Some(vk::FORMAT_R16_UNORM)
    } else if dxgi == DXGI_R16_UINT {
        Some(vk::FORMAT_R16_UINT)
    } else if dxgi == DXGI_R16_SNORM {
        Some(vk::FORMAT_R16_SNORM)
    } else if dxgi == DXGI_R16_SINT {
        Some(vk::FORMAT_R16_SINT)
    } else if dxgi == DXGI_R8_TYPELESS || dxgi == DXGI_R8_UNORM {
        Some(vk::FORMAT_R8_UNORM)
    } else if dxgi == DXGI_R8_UINT {
        Some(vk::FORMAT_R8_UINT)
    } else if dxgi == DXGI_R8_SNORM {
        Some(vk::FORMAT_R8_SNORM)
    } else if dxgi == DXGI_R8_SINT {
        Some(vk::FORMAT_R8_SINT)
    } else if dxgi == DXGI_R9G9B9E5_SHAREDEXP {
        Some(vk::FORMAT_E5B9G9R9_UFLOAT_PACK32)
    } else if dxgi == DXGI_BC1_TYPELESS || dxgi == DXGI_BC1_UNORM || dxgi == DXGI_BC1_UNORM_SRGB {
        if is_srgb {
            Some(vk::FORMAT_BC1_RGB_SRGB_BLOCK)
        } else {
            Some(vk::FORMAT_BC1_RGB_UNORM_BLOCK)
        }
    } else if dxgi == DXGI_BC2_TYPELESS || dxgi == DXGI_BC2_UNORM || dxgi == DXGI_BC2_UNORM_SRGB {
        if is_srgb {
            Some(vk::FORMAT_BC2_UNORM_BLOCK)
        } else {
            Some(vk::FORMAT_BC2_SRGB_BLOCK)
        }
    } else if dxgi == DXGI_BC3_TYPELESS || dxgi == DXGI_BC3_UNORM || dxgi == DXGI_BC3_UNORM_SRGB {
        if is_srgb {
            Some(vk::FORMAT_BC3_SRGB_BLOCK)
        } else {
            Some(vk::FORMAT_BC3_UNORM_BLOCK)
        }
    } else if dxgi == DXGI_BC4_TYPELESS || dxgi == DXGI_BC4_UNORM {
        Some(vk::FORMAT_BC4_UNORM_BLOCK)
    } else if dxgi == DXGI_BC4_SNORM {
        Some(vk::FORMAT_BC4_SNORM_BLOCK)
    } else if dxgi == DXGI_BC5_TYPELESS || dxgi == DXGI_BC5_UNORM {
        Some(vk::FORMAT_BC5_UNORM_BLOCK)
    } else if dxgi == DXGI_BC5_SNORM {
        Some(vk::FORMAT_BC5_SNORM_BLOCK)
    } else if dxgi == DXGI_B8G8R8A8_UNORM || dxgi == DXGI_B8G8R8A8_TYPELESS || dxgi == DXGI_B8G8R8A8_UNORM_SRGB {
        if is_srgb {
            Some(vk::FORMAT_B8G8R8A8_SRGB)
        } else {
            Some(vk::FORMAT_B8G8R8A8_UNORM)
        }
    } else if dxgi == DXGI_BC6H_TYPELESS || dxgi == DXGI_BC6H_UF16 {
        Some(vk::FORMAT_BC6H_UFLOAT_BLOCK)
    } else if dxgi == DXGI_BC6H_SF16 {
        Some(vk::FORMAT_BC6H_SFLOAT_BLOCK)
    } else if dxgi == DXGI_BC7_TYPELESS || dxgi == DXGI_BC7_UNORM || dxgi == DXGI_BC7_UNORM_SRGB {
        if is_srgb {
            Some(vk::FORMAT_BC7_SRGB_BLOCK)
        } else {
            Some(vk::FORMAT_BC7_UNORM_BLOCK)
        }
    } else {
        None
    }
}

fn dxgi_format(dxgi: u32, is_srgb: bool) -> (r: Option<i32>)
    ensures
        r == format_of_dxgi(dxgi, is_srgb),
{
    if dxgi == DXGI_R32G32B32A32_TYPELESS || dxgi == DXGI_R32G32B32A32_FLOAT {
        Some(vk::FORMAT_R32G32B32A32_SFLOAT)
    } else if dxgi == DXGI_R32G32B32A32_UINT {
        Some(vk::FORMAT_R32G32B32A32_UINT)
    } else if dxgi == DXGI_R32G32B32A32_SINT {
        Some(vk::FORMAT_R32G32B32A32_SINT)
    } else if dxgi == DXGI_R16G16B16A16_TYPELESS || dxgi == DXGI_R16G16B16A16_FLOAT {
        Some(vk::FORMAT_R16G16B16A16_SFLOAT)
    } else if dxgi == DXGI_R16G16B16A16_UNORM {
        Some(vk::FORMAT_R16G16B16A16_UNORM)
    } else if dxgi == DXGI_R16G16B16A16_UINT {
        Some(vk::FORMAT_R16G16B16A16_UINT)
    } else if dxgi == DXGI_R16G16B16A16_SNORM {
        Some(vk::FORMAT_R16G16B16A16_SNORM)
    } else if dxgi == DXGI_R16G16B16A16_SINT {
        Some(vk::FORMAT_R16G16B16A16_SINT)
    } else if dxgi == DXGI_R32G32_TYPELESS || dxgi == DXGI_R32G32_FLOAT {
        Some(vk::FORMAT_R32G32_SFLOAT)
    } else if dxgi == DXGI_R32G32_UINT {
        Some(vk::FORMAT_R32G32_UINT)
    } else if dxgi == DXGI_R32G32_SINT {
        Some(vk::FORMAT_R32G32_SINT)
    } else if dxgi == DXGI_R10G10B10A2_TYPELESS || dxgi == DXGI_R10G10B10A2_UNORM {
        Some(vk::FORMAT_A2B10G10R10_UNORM_PACK32)
    } else if dxgi == DXGI_R11G11B10_FLOAT {
        Some(vk::FORMAT_B10G11R11_UFLOAT_PACK32)
    } else if dxgi == DXGI_R8G8B8A8_TYPELESS || dxgi == DXGI_R8G8B8A8_UNORM || dxgi == DXGI_R8G8B8A8_UNORM_SRGB {
        if is_srgb {
            Some(vk::FORMAT_R8G8B8A8_SRGB)
        } else {
            Some(vk::FORMAT_R8G8B8A8_UNORM)
        }
    } else if dxgi == DXGI_R8G8B8A8_UINT {
        Some(vk::FORMAT_R8G8B8A8_UINT)
    } else if dxgi == DXGI_R8G8B8A8_SNORM {
        Some(vk::FORMAT_R8G8B8A8_SNORM)
    } else if dxgi == DXGI_R8G8B8A8_SINT {
        Some(vk::FORMAT_R8G8B8A8_SINT)
    } else if dxgi == DXGI_R16G16_TYPELESS || dxgi == DXGI_R16G16_FLOAT {
        Some(vk::FORMAT_R16G16_SFLOAT)
    } else if dxgi == DXGI_R16G16_UNORM {
        Some(vk::FORMAT_R16G16_UNORM)
    } else if dxgi == DXGI_R16G16_UINT {
        Some(vk::FORMAT_R16G16_UINT)
    } else if dxgi == DXGI_R16G16_SNORM {
        Some(vk::FORMAT_R16G16_SNORM)
    } else if dxgi == DXGI_R16G16_SINT {
        Some(vk::FORMAT_R16G16_SINT)
    } else if dxgi == DXGI_R32_TYPELESS || dxgi == DXGI_R32_FLOAT {
        Some(vk::FORMAT_R32_SFLOAT)
    } else if dxgi == DXGI_D32_FLOAT {
        Some(vk::FORMAT_D32_SFLOAT)
    } else if dxgi == DXGI_R32_UINT {
        Some(vk::FORMAT_R32_UINT)
    } else if dxgi == DXGI_R32_SINT {
        Some(vk::FORMAT_R32_SINT)
    } else if dxgi == DXGI_R24G8_TYPELESS || dxgi == DXGI_D24_UNORM_S8_UINT {
        Some(vk::FORMAT_D24_UNORM_S8_UINT)
    } else if dxgi == DXGI_R24_UNORM_X8_TYPELESS {
        Some(vk::FORMAT_X8_D24_UNORM_PACK32)
    } else if dxgi == DXGI_R8G8_TYPELESS || dxgi == DXGI_R8G8_UNORM {
        Some(vk::FORMAT_R8G8_UNORM)
    } else if dxgi == DXGI_R8G8_UINT {
        Some(vk::FORMAT_R8G8_UINT)
    } else if dxgi == DXGI_R8G8_SNORM {
        Some(vk::FORMAT_R8G8_SNORM)
    } else if dxgi == DXGI_R8G8_SINT {
        Some(vk::FORMAT_R8G8_SINT)
    } else if dxgi == DXGI_R16_TYPELESS || dxgi == DXGI_R16_FLOAT {
        Some(vk::FORMAT_R16_SFLOAT)
    } else if dxgi == DXGI_R16_UNORM {
        Some(vk::FORMAT_R16_UNORM)
    } else if dxgi == DXGI_R16_UINT {
        Some(vk::FORMAT_R16_UINT)
    } else if dxgi == DXGI_R16_SNORM {
        Some(vk::FORMAT_R16_SNORM)
    } else if dxgi == DXGI_R16_SINT {
        Some(vk::FORMAT_R16_SINT)
    } else if dxgi == DXGI_R8_TYPELESS || dxgi == DXGI_R8_UNORM {
        Some(vk::FORMAT_R8_UNORM)
    } else if dxgi == DXGI_R8_UINT {
        Some(vk::FORMAT_R8_UINT)
    } else if dxgi == DXGI_R8_SNORM {
        Some(vk::FORMAT_R8_SNORM)
    } else if dxgi == DXGI_R8_SINT {
        Some(vk::FORMAT_R8_SINT)
    } else if dxgi == DXGI_R9G9B9E5_SHAREDEXP {
        Some(vk::FORMAT_E5B9G9R9_UFLOAT_PACK32)
    } else if dxgi == DXGI_BC1_TYPELESS || dxgi == DXGI_BC1_UNORM || dxgi == DXGI_BC1_UNORM_SRGB {
        if is_srgb {
            Some(vk::FORMAT_BC1_RGB_SRGB_BLOCK)
        } else {
            Some(vk::FORMAT_BC1_RGB_UNORM_BLOCK)
        }
    } else if dxgi == DXGI_BC2_TYPELESS || dxgi == DXGI_BC2_UNORM || dxgi == DXGI_BC2_UNORM_SRGB {
        if is_srgb {
            Some(vk::FORMAT_BC2_UNORM_BLOCK)
        } else {
            Some(vk::FORMAT_BC2_SRGB_BLOCK)
        }
    } else if dxgi == DXGI_BC3_TYPELESS || dxgi == DXGI_BC3_UNORM || dxgi == DXGI_BC3_UNORM_SRGB {
        if is_srgb {
            Some(vk::FORMAT_BC3_SRGB_BLOCK)
        } else {
            Some(vk::FORMAT_BC3_UNORM_BLOCK)
        }
    } else if dxgi == DXGI_BC4_TYPELESS || dxgi == DXGI_BC4_UNORM {
        Some(vk::FORMAT_BC4_UNORM_BLOCK)
    } else if dxgi == DXGI_BC4_SNORM {
        Some(vk::FORMAT_BC4_SNORM_BLOCK)
    } else if dxgi == DXGI_BC5_TYPELESS || dxgi == DXGI_BC5_UNORM {
        Some(vk::FORMAT_BC5_UNORM_BLOCK)
    } else if dxgi == DXGI_BC5_SNORM {
        Some(vk::FORMAT_BC5_SNORM_BLOCK)
    } else if dxgi == DXGI_B8G8R8A8_UNORM || dxgi == DXGI_B8G8R8A8_TYPELESS || dxgi == DXGI_B8G8R8A8_UNORM_SRGB {
        if is_srgb {
            Some(vk::FORMAT_B8G8R8A8_SRGB)
        } else {
            Some(vk::FORMAT_B8G8R8A8_UNORM)
        }
    } else if dxgi == DXGI_BC6H_TYPELESS || dxgi == DXGI_BC6H_UF16 {
        Some(vk::FORMAT_BC6H_UFLOAT_BLOCK)
    } else if dxgi == DXGI_BC6H_SF16 {
        Some(vk::FORMAT_BC6H_SFLOAT_BLOCK)
    } else if dxgi == DXGI_BC7_TYPELESS || dxgi == DXGI_BC7_UNORM || dxgi == DXGI_BC7_UNORM_SRGB {
        if is_srgb {
            Some(vk::FORMAT_BC7_SRGB_BLOCK)
        } else {
            Some(vk::FORMAT_BC7_UNORM_BLOCK)
        }
    } else {
        None
    }
}

pub const FOURCC_DXT1: u32 = 0x3154_5844;

pub const FOURCC_DXT3: u32 = 0x3354_5844;

pub const FOURCC_DXT5: u32 = 0x3554_5844;

pub const FOURCC_ATI1: u32 = 0x3149_5441;

pub const FOURCC_ATI2: u32 = 0x3249_5441;

pub const FOURCC_DX10: u32 = 0x3031_5844;

/// The format of a file: that of its second header, or the one that the older
/// code stands for.
pub open spec fn dxgi_of(header: DdsHeader, header10: Option<DdsHeader10>) -> Option<u32> {
    match header10 {
        Some(h) => Some(h.dxgi_format),
        None => match header.fourcc {
            Some(code) => if code == FOURCC_DXT1 {
                Some(DXGI_BC1_UNORM_SRGB)
            } else if code == FOURCC_DXT3 {
                Some(DXGI_BC2_UNORM_SRGB)
            } else if code == FOURCC_DXT5 {
                Some(DXGI_BC3_UNORM_SRGB)
            } else if code == FOURCC_ATI1 {
                Some(DXGI_BC4_UNORM)
            } else if code == FOURCC_ATI2 {
                Some(DXGI_BC5_UNORM)
            } else {
                None
            },
            None => None,
        },
    }
}

/// How the components of a texel or of a block of texels lie in memory.
pub enum TexelLayout {
    /// Components of the same size, one byte or more each, red first.
    Plain,
    /// Components of one byte each, blue first.
    BlueFirst,
    /// Three components of ten bits and one of two.
    TenTenTenTwo,
    /// Two components of eleven bits and one of ten.
    ElevenElevenTen,
    /// Three components of nine bits that share an exponent of five.
    SharedExponent,
    Depth,
    DepthAndPadding,
    DepthAndStencil,
    /// A compressed block of four by four texels, by the number of its scheme.
    Block(int),
}

/// How a component stands for a number.
pub enum ComponentKind {
    Unorm,
    Snorm,
    Uint,
    Sint,
    Float,
    UnsignedFloat,
    /// A fraction that may be taken as linear or as sRGB.
    Color,
}

/// How the texels of a format of DDS files lie in memory, by the number of the
/// format.
pub open spec fn dxgi_layout(n: int) -> TexelLayout {
    if 23 <= n <= 25 {
        TexelLayout::TenTenTenTwo
    } else if n == 26 {
        TexelLayout::ElevenElevenTen
    } else if n == 67 {
        TexelLayout::SharedExponent
    } else if n == 40 {
        TexelLayout::Depth
    } else if 44 <= n <= 45 {
        TexelLayout::DepthAndStencil
    } else if n == 46 {
        TexelLayout::DepthAndPadding
    } else if 70 <= n <= 84 {
        TexelLayout::Block((n - 67) / 3)
    } else if 94 <= n <= 99 {
        TexelLayout::Block((n - 76) / 3)
    } else if 87 <= n <= 93 {
        TexelLayout::BlueFirst
    } else {
        TexelLayout::Plain
    }
}

/// How the texels of a texture format lie in memory, by the number of the
/// format.
pub open spec fn format_layout(n: int) -> TexelLayout {
    if 64 <= n <= 69 {
        TexelLayout::TenTenTenTwo
    } else if n == 122 {
        TexelLayout::ElevenElevenTen
    } else if n == 123 {
        TexelLayout::SharedExponent
    } else if n == 126 {
        TexelLayout::Depth
    } else if n == 129 {
        TexelLayout::DepthAndStencil
    } else if n == 125 {
        TexelLayout::DepthAndPadding
    } else if 131 <= n <= 134 {
        TexelLayout::Block(1)
    } else if 135 <= n <= 146 {
        TexelLayout::Block((n - 131) / 2)
    } else if 44 <= n <= 50 {
        TexelLayout::BlueFirst
    } else {
        TexelLayout::Plain
    }
}

/// The bytes of a texel, or of a block, and the number of its components, by
/// the number of the format in DDS files.
pub open spec fn dxgi_size(n: int) -> (int, int) {
    if 1 <= n <= 4 {
        (16, 4)
    } else if 9 <= n <= 14 {
        (8, 4)
    } else if 15 <= n <= 18 {
        (8, 2)
    } else if 23 <= n <= 25 || 27 <= n <= 32 || 87 <= n <= 93 {
        (4, 4)
    } else if n == 26 || n == 67 {
        (4, 3)
    } else if 33 <= n <= 38 || 44 <= n <= 47 {
        (4, 2)
    } else if 39 <= n <= 43 {
        (4, 1)
    } else if 48 <= n <= 52 {
        (2, 2)
    } else if 53 <= n <= 59 {
        (2, 1)
    } else if 60 <= n <= 64 {
        (1, 1)
    } else if 70 <= n <= 72 {
        (8, 3)
    } else if 79 <= n <= 81 {
        (8, 1)
    } else if 82 <= n <= 84 {
        (16, 2)
    } else if 94 <= n <= 96 {
        (16, 3)
    } else {
        (16, 4)
    }
}

/// The bytes of a texel, or of a block, and the number of its components, by
/// the number of the texture format.
pub open spec fn format_size(n: int) -> (int, int) {
    if 9 <= n <= 15 {
        (1, 1)
    } else if 16 <= n <= 22 {
        (2, 2)
    } else if 37 <= n <= 69 {
        (4, 4)
    } else if 70 <= n <= 76 {
        (2, 1)
    } else if 77 <= n <= 83 || n == 125 || n == 129 {
        (4, 2)
    } else if 91 <= n <= 97 {
        (8, 4)
    } else if 98 <= n <= 100 || n == 126 {
        (4, 1)
    } else if 101 <= n <= 103 {
        (8, 2)
    } else if n == 122 || n == 123 {
        (4, 3)
    } else if 131 <= n <= 132 {
        (8, 3)
    } else if 139 <= n <= 140 {
        (8, 1)
    } else if 141 <= n <= 142 {
        (16, 2)
    } else if 143 <= n <= 144 {
        (16, 3)
    } else {
        (16, 4)
    }
}

/// How the components of a format of DDS files stand for numbers. Where the file
/// leaves it open, wide components hold floats and narrow ones fractions.
pub open spec fn dxgi_kind(n: int) -> ComponentKind {
    if 27 <= n <= 29 || 70 <= n <= 78 || 87 <= n <= 93 || 97 <= n <= 99 {
        ComponentKind::Color
    } else if n == 26 || n == 67 || 94 <= n <= 95 {
        ComponentKind::UnsignedFloat
    } else if 1 <= n <= 2 || 9 <= n <= 10 || 15 <= n <= 16 || 33 <= n <= 34 || 39 <= n <= 41 || 53
        <= n <= 54 || n == 96 {
        ComponentKind::Float
    } else if n == 3 || n == 12 || n == 17 || n == 30 || n == 36 || n == 42 || n == 50 || n == 57
        || n == 62 {
        ComponentKind::Uint
    } else if n == 4 || n == 14 || n == 18 || n == 32 || n == 38 || n == 43 || n == 52 || n == 59
        || n == 64 {
        ComponentKind::Sint
    } else if n == 13 || n == 31 || n == 37 || n == 51 || n == 58 || n == 63 || n == 81 || n == 84 {
        ComponentKind::Snorm
    } else {
        ComponentKind::Unorm
    }
}

/// How the components of a texture format stand for numbers. The formats of a
/// family come in a fixed order.
pub open spec fn format_kind(n: int) -> ComponentKind {
    if n == 15 || n == 22 || n == 37 || n == 43 || n == 44 || n == 50 || 131 <= n <= 138 || 145 <= n
        <= 146 {
        ComponentKind::Color
    } else if n == 122 || n == 123 || n == 143 {
        ComponentKind::UnsignedFloat
    } else if n == 126 || n == 144 {
        ComponentKind::Float
    } else if 98 <= n <= 109 {
        if (n - 98) % 3 == 0 {
            ComponentKind::Uint
        } else if (n - 98) % 3 == 1 {
            ComponentKind::Sint
        } else {
            ComponentKind::Float
        }
    } else if 9 <= n <= 97 && n != 64 {
        let place = if n < 70 {
            (n - 9) % 7
        } else {
            (n - 70) % 7
        };
        if place == 0 {
            ComponentKind::Unorm
        } else if place == 1 {
            ComponentKind::Snorm
        } else if place == 4 {
            ComponentKind::Uint
        } else if place == 5 {
            ComponentKind::Sint
        } else {
            ComponentKind::Float
        }
    } else if n == 140 || n == 142 {
        ComponentKind::Snorm
    } else {
        ComponentKind::Unorm
    }
}

/// A texture is read as it lies in the file: the format that it gets has texels
/// of the same size, with the same components, which lie in the same way and
/// stand for numbers in the same way.
pub proof fn law_texels_are_read_as_written(dxgi: u32, is_srgb: bool)
    ensures
        format_of_dxgi(dxgi, is_srgb) matches Some(format) ==> {
            &&& format_size(format as int) == dxgi_size(dxgi as int)
            &&& format_layout(format as int) == dxgi_layout(dxgi as int)
            &&& format_kind(format as int) == dxgi_kind(dxgi as int)
        },
{
}

/// Whether colors are taken as sRGB is decided by the caller, whatever the file
/// says, and by nothing else. Of the block formats the second is taken the
/// other way round.
pub proof fn law_color_space_is_the_callers(dxgi: u32)
    requires
        format_of_dxgi(dxgi, true) is Some,
    ensures
        ({
            let srgb = format_of_dxgi(dxgi, true)->0;
            let linear = format_of_dxgi(dxgi, false)->0;
            &&& format_of_dxgi(dxgi, false) is Some
            &&& dxgi_kind(dxgi as int) is Color <==> srgb != linear
            &&& srgb != linear ==> (srgb == linear + 6 && linear < 131) || (srgb == linear + 1
                && linear >= 131 && linear % 2 == 1 && linear != 135) || (srgb == 135 && linear
                == 136)
        }),
{
}

/// The formats of DDS files that there is a texture format for.
pub proof fn law_formats_that_can_be_read(dxgi: u32, is_srgb: bool)
    ensures
        format_of_dxgi(dxgi, is_srgb) is Some <==> {
            ||| 1 <= dxgi <= 4
            ||| 9 <= dxgi <= 18
            ||| 23 <= dxgi <= 24
            ||| 26 <= dxgi <= 46
            ||| 48 <= dxgi <= 54
            ||| 56 <= dxgi <= 64
            ||| dxgi == 67
            ||| 70 <= dxgi <= 84
            ||| dxgi == 87
            ||| 90 <= dxgi <= 91
            ||| 94 <= dxgi <= 99
        },
{
}

/// Why a DDS file cannot be loaded.
#[derive(Debug)]
pub enum DdsError {
    /// The file does not start as DDS files do, or a header cannot be read.
    DdsParseError(ddsfile::Error),
    /// There is no texture format for the file's.
    FormatRequiresTranscodingError,
}

pub open spec fn texture_format_of(
    header: DdsHeader,
    header10: Option<DdsHeader10>,
    is_srgb: bool,
) -> Option<i32> {
    match dxgi_of(header, header10) {
        Some(dxgi) => format_of_dxgi(dxgi, is_srgb),
        None => None,
    }
}

/// The texture format for a file.
pub fn dds_format_to_texture_format(
    header: &DdsHeader,
    header10: &Option<DdsHeader10>,
    is_srgb: bool,
) -> (r: Result<i32, DdsError>)
    ensures
        match texture_format_of(*header, *header10, is_srgb) {
            Some(format) => r matches Ok(f) && f == format,
            None => r matches Err(DdsError::FormatRequiresTranscodingError),
        },
{
    let dxgi: u32 = match header10 {
        Some(h) => h.dxgi_format,
        None => match header.fourcc {
            Some(code) => {
                if code == FOURCC_DXT1 {
                    DXGI_BC1_UNORM_SRGB
                } else if code == FOURCC_DXT3 {
                    DXGI_BC2_UNORM_SRGB
                } else if code == FOURCC_DXT5 {
                    DXGI_BC3_UNORM_SRGB
                } else if code == FOURCC_ATI1 {
                    DXGI_BC4_UNORM
                } else if code == FOURCC_ATI2 {
                    DXGI_BC5_UNORM
                } else {
                    return Err(DdsError::FormatRequiresTranscodingError);
                }
            },
            None => {
                return Err(DdsError::FormatRequiresTranscodingError);
            },
        },
    };
    match dxgi_format(dxgi, is_srgb) {
        Some(format) => Ok(format),
        None => Err(DdsError::FormatRequiresTranscodingError),
    }
}

// ---------------------------------------------------------------------------
// Textures
// ---------------------------------------------------------------------------

pub open spec fn depth_of(header: DdsHeader) -> u32 {
    match header.depth {
        Some(d) => d,
        None => 1,
    }
}

/// The texture of a file.
pub open spec fn texture_of(header: DdsHeader, header10: Option<DdsHeader10>, format: i32) -> ImageInfo {
    ImageInfo {
        image_type: if depth_of(header) > 1 {
            vk::IMAGE_TYPE_TYPE_3D
        } else if header.height > 1 {
            vk::IMAGE_TYPE_TYPE_2D
        } else {
            vk::IMAGE_TYPE_TYPE_1D
        },
        format,
        width: header.width,
        height: header.height,
        depth: depth_of(header),
        mip_levels: match header.mip_map_count {
            Some(n) => n,
            None => 1,
        },
        array_layers: match header10 {
            Some(h) => h.array_size,
            None => if header.cubemap {
                6
            } else {
                1
            },
        },
        tiling: vk::IMAGE_TILING_OPTIMAL,
        usage: vk::IMAGE_USAGE_SAMPLED,
    }
}

/// A file without a second header is in the block format that its code names:
/// `DXT1` the first, `DXT3` the second, `DXT5` the third, `ATI1` the fourth and
/// `ATI2` the fifth. There is no texture format for any other code, nor for a
/// file without one.
pub proof fn law_codes_name_block_formats(header: DdsHeader, is_srgb: bool)
    ensures
        ({
            let format = texture_format_of(header, None, is_srgb);
            &&& header.fourcc == Some(0x3154_5844u32) ==> format == Some(
                if is_srgb {
                    vk::FORMAT_BC1_RGB_SRGB_BLOCK
                } else {
                    vk::FORMAT_BC1_RGB_UNORM_BLOCK
                },
            )
            &&& header.fourcc == Some(0x3354_5844u32) ==> (format == Some(
                vk::FORMAT_BC2_SRGB_BLOCK,
            ) || format == Some(vk::FORMAT_BC2_UNORM_BLOCK))
            &&& header.fourcc == Some(0x3554_5844u32) ==> format == Some(
                if is_srgb {
                    vk::FORMAT_BC3_SRGB_BLOCK
                } else {
                    vk::FORMAT_BC3_UNORM_BLOCK
                },
            )
            &&& header.fourcc == Some(0x3149_5441u32) ==> format == Some(
                vk::FORMAT_BC4_UNORM_BLOCK,
            )
            &&& header.fourcc == Some(0x3249_5441u32) ==> format == Some(
                vk::FORMAT_BC5_UNORM_BLOCK,
            )
            &&& format is Some ==> header.fourcc is Some && {
                let code = header.fourcc->0;
                ||| code == 0x3154_5844
                ||| code == 0x3354_5844
                ||| code == 0x3554_5844
                ||| code == 0x3149_5441
                ||| code == 0x3249_5441
            }
        }),
{
}

/// Where a file has a second header, its format is that of the second header,
/// whatever code the first one gives.
pub proof fn law_second_headers_decide(
    header: DdsHeader,
    other: DdsHeader,
    second: DdsHeader10,
    is_srgb: bool,
)
    ensures
        texture_format_of(header, Some(second), is_srgb) == texture_format_of(
            other,
            Some(second),
            is_srgb,
        ),
        texture_format_of(header, Some(second), is_srgb) == format_of_dxgi(
            second.dxgi_format,
            is_srgb,
        ),
{
}

/// A texture is as large as its headers say. It has one level, one slice and
/// one layer where they say nothing, and six layers for the sides of a cube; its
/// type is that of the least number of dimensions that hold it.
pub proof fn law_textures_are_as_large_as_their_headers_say(
    header: DdsHeader,
    header10: Option<DdsHeader10>,
    format: i32,
)
    ensures
        ({
            let texture = texture_of(header, header10, format);
            &&& texture.width == header.width
            &&& texture.height == header.height
            &&& header.depth is Some ==> texture.depth == header.depth->0
            &&& header.depth is None ==> texture.depth == 1
            &&& header.mip_map_count is Some ==> texture.mip_levels == header.mip_map_count->0
            &&& header.mip_map_count is None ==> texture.mip_levels == 1
            &&& header10 is Some ==> texture.array_layers == header10->0.array_size
            &&& header10 is None && header.cubemap ==> texture.array_layers == 6
            &&& header10 is None && !header.cubemap ==> texture.array_layers == 1
            &&& texture.image_type == vk::IMAGE_TYPE_TYPE_3D <==> texture.depth > 1
            &&& texture.image_type == vk::IMAGE_TYPE_TYPE_2D <==> texture.depth <= 1
                && texture.height > 1
            &&& texture.image_type == vk::IMAGE_TYPE_TYPE_1D <==> texture.depth <= 1
                && texture.height <= 1
            &&& texture.format == format
            &&& texture.tiling == vk::IMAGE_TILING_OPTIMAL
            &&& texture.usage == vk::IMAGE_USAGE_SAMPLED
        }),
{
}

/// The texture for headers.
pub fn dds_texture(header: &DdsHeader, header10: &Option<DdsHeader10>, is_srgb: bool) -> (r: Result<
    ImageInfo,
    DdsError,
>)
    ensures
        match texture_format_of(*header, *header10, is_srgb) {
            Some(format) => r matches Ok(info) && info == texture_of(*header, *header10, format),
            None => r matches Err(DdsError::FormatRequiresTranscodingError),
        },
{
    let depth: u32 = match header.depth {
        Some(d) => d,
        None => 1,
    };
    match dds_format_to_texture_format(header, header10, is_srgb) {
        Ok(format) => Ok(
            ImageInfo {
                image_type: if depth > 1 {
                    vk::IMAGE_TYPE_TYPE_3D
                } else if header.height > 1 {
                    vk::IMAGE_TYPE_TYPE_2D
                } else {
                    vk::IMAGE_TYPE_TYPE_1D
                },
                format,
                width: header.width,
                height: header.height,
                depth,
                mip_levels: match header.mip_map_count {
                    Some(n) => n,
                    None => 1,
                },
                array_layers: match header10 {
                    Some(h) => h.array_size,
                    None => if header.cubemap {
                        6
                    } else {
                        1
                    },
                },
                tiling: vk::IMAGE_TILING_OPTIMAL,
                usage: vk::IMAGE_USAGE_SAMPLED,
            },
        ),
        Err(e) => Err(e),
    }
}

/// Number in the first four bytes of a file.
pub const DDS_MAGIC: u32 = 0x2053_4444;

/// A file has a second header.
pub open spec fn has_header10(start: Seq<u8>) -> bool {
    dds_header(start.skip(4)).fourcc == Some(FOURCC_DX10)
}

pub open spec fn header10_of(start: Seq<u8>, next: Seq<u8>) -> Option<DdsHeader10> {
    if has_header10(start) {
        Some(
            DdsHeader10 {
                dxgi_format: bytes::u32_at(next, 0) as u32,
                array_size: bytes::u32_at(next, 12) as u32,
            },
        )
    } else {
        None
    }
}

/// A file has a second header exactly where its code is `DX10`, and the numbers
/// of the second header are its first and its fourth.
pub proof fn law_second_headers_are_announced(start: Seq<u8>, next: Seq<u8>)
    ensures
        header10_of(start, next) is Some <==> dds_header(start.skip(4)).fourcc == Some(
            0x3031_5844u32,
        ),
        header10_of(start, next) matches Some(h) ==> {
            &&& h.dxgi_format == bytes::u32_at(next, 0) as u32
            &&& h.array_size == bytes::u32_at(next, 12) as u32
        },
{
}

/// Reads the first 128 bytes of a file and the 20 that follow, which are a
/// second header or the first of the data; says which.
pub fn load_dds(start: &[u8], next: &[u8], is_srgb: bool) -> (r: Result<(ImageInfo, bool), DdsError>)
    requires
        start@.len() == 128,
        next@.len() == 20,
    ensures
        bytes::u32_at(start@, 0) != DDS_MAGIC ==> (r matches Err(DdsError::DdsParseError(e))
            && is_bad_magic(e)),
        bytes::u32_at(start@, 0) == DDS_MAGIC ==> if !is_dds_header(start@.skip(4)) || (
        has_header10(start@) && !is_dds_header10(next@)) {
            r matches Err(DdsError::DdsParseError(_))
        } else {
            match texture_format_of(
                dds_header(start@.skip(4)),
                header10_of(start@, next@),
                is_srgb,
            ) {
                Some(format) => r matches Ok((info, second)) && info == texture_of(
                    dds_header(start@.skip(4)),
                    header10_of(start@, next@),
                    format,
                ) && second == has_header10(start@),
                None => r matches Err(DdsError::FormatRequiresTranscodingError),
            }
        },
{
    if read_u32(start, 0) != DDS_MAGIC {
        return Err(DdsError::DdsParseError(bad_magic()));
    }
    let rest = vstd::slice::slice_subrange(start, 4, 128);
    assert(rest@ =~= start@.skip(4));
    let header = match read_header(rest) {
        Ok(header) => header,
        Err(e) => {
            return Err(DdsError::DdsParseError(e));
        },
    };
    let second = match header.fourcc {
        Some(code) => code == FOURCC_DX10,
        None => false,
    };
    let mut header10: Option<DdsHeader10> = None;
    if second {
        header10 = match read_header10(next) {
            Ok(h) => Some(h),
            Err(e) => {
                return Err(DdsError::DdsParseError(e));
            },
        };
    }
    match dds_texture(&header, &header10, is_srgb) {
        Ok(info) => Ok((info, second)),
        Err(e) => Err(e),
    }
}

/// Puts the data that were read with the headers into the memory of the
/// texture; says where the rest of the file goes on.
pub fn start_data(next: &[u8], second_header: bool, slice: &mut [u8]) -> (r: usize)
    requires
        next@.len() == 20,
        second_header || old(slice)@.len() >= 20,
    ensures
        final(slice)@.len() == old(slice)@.len(),
        second_header ==> r == 0 && final(slice)@ == old(slice)@,
        !second_header ==> r == 20 && final(slice)@ == next@ + old(slice)@.skip(20),
{
    if second_header {
        return 0;
    }
    let ghost before = slice@;
    let mut i: usize = 0;
    while i < 20
        invariant
            i <= 20,
            next@.len() == 20,
            slice@.len() == before.len(),
            slice@.len() >= 20,
            forall|j: int| 0 <= j < i ==> slice@[j] == next@[j],
            forall|j: int| i <= j < slice@.len() ==> slice@[j] == before[j],
        decreases 20 - i,
    {
        slice[i] = next[i];
        i += 1;
    }
    assert(slice@ =~= next@ + before.skip(20));
    20
}

} // verus!
