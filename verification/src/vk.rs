//! The Vulkan values that the rest of the library reads and writes: flag bits
//! and enumerants are plain integers under their Vulkan names, without the
//! `VK_` prefix.

use vstd::prelude::*;

verus! {

/// Value of `VK_TRUE`.
pub const TRUE: u32 = 1;

/// Value of `VK_FALSE`.
pub const FALSE: u32 = 0;

pub const MEMORY_PROPERTY_DEVICE_LOCAL: u32 = 0x1;

pub const MEMORY_PROPERTY_HOST_VISIBLE: u32 = 0x2;

pub const MEMORY_PROPERTY_HOST_COHERENT: u32 = 0x4;

pub const MEMORY_PROPERTY_HOST_CACHED: u32 = 0x8;

pub const PHYSICAL_DEVICE_TYPE_OTHER: i32 = 0;

pub const PHYSICAL_DEVICE_TYPE_INTEGRATED_GPU: i32 = 1;

pub const PHYSICAL_DEVICE_TYPE_DISCRETE_GPU: i32 = 2;

pub const PHYSICAL_DEVICE_TYPE_VIRTUAL_GPU: i32 = 3;

pub const PHYSICAL_DEVICE_TYPE_CPU: i32 = 4;

pub const DYNAMIC_STATE_VIEWPORT: i32 = 0;

pub const DYNAMIC_STATE_SCISSOR: i32 = 1;

pub const DYNAMIC_STATE_LINE_WIDTH: i32 = 2;

pub const DYNAMIC_STATE_DEPTH_BIAS: i32 = 3;

pub const DYNAMIC_STATE_BLEND_CONSTANTS: i32 = 4;

pub const DYNAMIC_STATE_DEPTH_BOUNDS: i32 = 5;

pub const DYNAMIC_STATE_CULL_MODE: i32 = 1000267000;

pub const DYNAMIC_STATE_FRONT_FACE: i32 = 1000267001;

pub const DYNAMIC_STATE_PRIMITIVE_TOPOLOGY: i32 = 1000267002;

pub const DYNAMIC_STATE_VIEWPORT_WITH_COUNT: i32 = 1000267003;

pub const DYNAMIC_STATE_SCISSOR_WITH_COUNT: i32 = 1000267004;

pub const DYNAMIC_STATE_VERTEX_INPUT_BINDING_STRIDE: i32 = 1000267005;

pub const DYNAMIC_STATE_DEPTH_TEST_ENABLE: i32 = 1000267006;

pub const DYNAMIC_STATE_DEPTH_WRITE_ENABLE: i32 = 1000267007;

pub const DYNAMIC_STATE_DEPTH_COMPARE_OP: i32 = 1000267008;

pub const DYNAMIC_STATE_DEPTH_BOUNDS_TEST_ENABLE: i32 = 1000267009;

pub const DYNAMIC_STATE_STENCIL_TEST_ENABLE: i32 = 1000267010;

pub const DYNAMIC_STATE_STENCIL_OP: i32 = 1000267011;

pub const DYNAMIC_STATE_RASTERIZER_DISCARD_ENABLE: i32 = 1000377001;

pub const DYNAMIC_STATE_DEPTH_BIAS_ENABLE: i32 = 1000377002;

pub const DYNAMIC_STATE_PRIMITIVE_RESTART_ENABLE: i32 = 1000377004;

pub const DYNAMIC_STATE_VERTEX_INPUT_EXT: i32 = 1000352000;

pub const DYNAMIC_STATE_PATCH_CONTROL_POINTS_EXT: i32 = 1000377000;

pub const DYNAMIC_STATE_LOGIC_OP_EXT: i32 = 1000377003;

pub const DYNAMIC_STATE_DEPTH_CLAMP_ENABLE_EXT: i32 = 1000455003;

pub const DYNAMIC_STATE_POLYGON_MODE_EXT: i32 = 1000455004;

pub const DYNAMIC_STATE_RASTERIZATION_SAMPLES_EXT: i32 = 1000455005;

pub const DYNAMIC_STATE_SAMPLE_MASK_EXT: i32 = 1000455006;

pub const DYNAMIC_STATE_ALPHA_TO_COVERAGE_ENABLE_EXT: i32 = 1000455007;

pub const DYNAMIC_STATE_ALPHA_TO_ONE_ENABLE_EXT: i32 = 1000455008;

pub const DYNAMIC_STATE_LOGIC_OP_ENABLE_EXT: i32 = 1000455009;

pub const DYNAMIC_STATE_COLOR_BLEND_ENABLE_EXT: i32 = 1000455010;

pub const DYNAMIC_STATE_COLOR_BLEND_EQUATION_EXT: i32 = 1000455011;

pub const DYNAMIC_STATE_COLOR_WRITE_MASK_EXT: i32 = 1000455012;

pub const DYNAMIC_STATE_RAY_TRACING_PIPELINE_STACK_SIZE_KHR: i32 = 1000347000;

pub const COMPARE_OP_NEVER: i32 = 0;

pub const COMPARE_OP_LESS: i32 = 1;

pub const COMPARE_OP_EQUAL: i32 = 2;

pub const COMPARE_OP_LESS_OR_EQUAL: i32 = 3;

pub const COMPARE_OP_GREATER: i32 = 4;

pub const COMPARE_OP_NOT_EQUAL: i32 = 5;

pub const COMPARE_OP_GREATER_OR_EQUAL: i32 = 6;

pub const COMPARE_OP_ALWAYS: i32 = 7;

pub const LOGIC_OP_CLEAR: i32 = 0;

pub const LOGIC_OP_AND: i32 = 1;

pub const LOGIC_OP_AND_REVERSE: i32 = 2;

pub const LOGIC_OP_COPY: i32 = 3;

pub const LOGIC_OP_AND_INVERTED: i32 = 4;

pub const LOGIC_OP_NO_OP: i32 = 5;

pub const LOGIC_OP_XOR: i32 = 6;

pub const LOGIC_OP_OR: i32 = 7;

pub const LOGIC_OP_NOR: i32 = 8;

pub const LOGIC_OP_EQUIVALENT: i32 = 9;

pub const LOGIC_OP_INVERT: i32 = 10;

pub const LOGIC_OP_OR_REVERSE: i32 = 11;

pub const LOGIC_OP_COPY_INVERTED: i32 = 12;

pub const LOGIC_OP_OR_INVERTED: i32 = 13;

pub const LOGIC_OP_NAND: i32 = 14;

pub const LOGIC_OP_SET: i32 = 15;

pub const COLOR_COMPONENT_R: u32 = 0x1;

pub const COLOR_COMPONENT_G: u32 = 0x2;

pub const COLOR_COMPONENT_B: u32 = 0x4;

pub const COLOR_COMPONENT_A: u32 = 0x8;


pub const INDEX_TYPE_UINT16: i32 = 0;

pub const INDEX_TYPE_UINT32: i32 = 1;

pub const INDEX_TYPE_UINT8_KHR: i32 = 1000265000;

pub const PRIMITIVE_TOPOLOGY_POINT_LIST: i32 = 0;

pub const PRIMITIVE_TOPOLOGY_LINE_LIST: i32 = 1;

pub const PRIMITIVE_TOPOLOGY_LINE_STRIP: i32 = 2;

pub const PRIMITIVE_TOPOLOGY_TRIANGLE_LIST: i32 = 3;

pub const PRIMITIVE_TOPOLOGY_TRIANGLE_STRIP: i32 = 4;

pub const PRIMITIVE_TOPOLOGY_TRIANGLE_FAN: i32 = 5;

pub const FILTER_NEAREST: i32 = 0;

pub const FILTER_LINEAR: i32 = 1;

pub const SAMPLER_MIPMAP_MODE_NEAREST: i32 = 0;

pub const SAMPLER_MIPMAP_MODE_LINEAR: i32 = 1;

pub const SAMPLER_ADDRESS_MODE_REPEAT: i32 = 0;

pub const SAMPLER_ADDRESS_MODE_MIRRORED_REPEAT: i32 = 1;

pub const SAMPLER_ADDRESS_MODE_CLAMP_TO_EDGE: i32 = 2;

pub const BUFFER_USAGE_TRANSFER_SRC: u32 = 0x1;

pub const BUFFER_USAGE_TRANSFER_DST: u32 = 0x2;

pub const BUFFER_USAGE_UNIFORM_BUFFER: u32 = 0x10;

pub const BUFFER_USAGE_STORAGE_BUFFER: u32 = 0x20;

pub const BUFFER_USAGE_INDEX_BUFFER: u32 = 0x40;

pub const BUFFER_USAGE_VERTEX_BUFFER: u32 = 0x80;

pub const BUFFER_USAGE_SHADER_DEVICE_ADDRESS: u32 = 0x20000;


pub const BUILD_ACCELERATION_STRUCTURE_ALLOW_UPDATE: u32 = 0x1;

pub const BUILD_ACCELERATION_STRUCTURE_ALLOW_COMPACTION: u32 = 0x2;

pub const BUILD_ACCELERATION_STRUCTURE_PREFER_FAST_TRACE: u32 = 0x4;

pub const BUILD_ACCELERATION_STRUCTURE_PREFER_FAST_BUILD: u32 = 0x8;

pub const BUILD_ACCELERATION_STRUCTURE_LOW_MEMORY: u32 = 0x10;

pub const GEOMETRY_TYPE_TRIANGLES: i32 = 0;

pub const GEOMETRY_TYPE_AABBS: i32 = 1;

pub const GEOMETRY_TYPE_INSTANCES: i32 = 2;

pub const COPY_ACCELERATION_STRUCTURE_MODE_CLONE: i32 = 0;

pub const COPY_ACCELERATION_STRUCTURE_MODE_COMPACT: i32 = 1;


pub const ACCELERATION_STRUCTURE_TYPE_TOP_LEVEL: i32 = 0;

pub const ACCELERATION_STRUCTURE_TYPE_BOTTOM_LEVEL: i32 = 1;

pub const BUFFER_USAGE_ACCELERATION_STRUCTURE_STORAGE_KHR: u32 = 0x100000;

pub const PIPELINE_CREATE_DISABLE_OPTIMIZATION: u32 = 0x1;

pub const PIPELINE_CREATE_DISPATCH_BASE: u32 = 0x10;

pub const PIPELINE_CREATE_LIBRARY_KHR: u32 = 0x800;

pub const SHADER_STAGE_VERTEX: u32 = 0x1;

pub const SHADER_STAGE_RAYGEN_KHR: u32 = 0x100;

pub const SHADER_STAGE_ANY_HIT_KHR: u32 = 0x200;

pub const SHADER_STAGE_CLOSEST_HIT_KHR: u32 = 0x400;

pub const SHADER_STAGE_MISS_KHR: u32 = 0x800;

pub const SHADER_STAGE_INTERSECTION_KHR: u32 = 0x1000;

pub const SHADER_STAGE_CALLABLE_KHR: u32 = 0x2000;

pub const SHADER_STAGE_COMPUTE: u32 = 0x20;

pub const RAY_TRACING_SHADER_GROUP_TYPE_GENERAL: i32 = 0;

pub const RAY_TRACING_SHADER_GROUP_TYPE_TRIANGLES_HIT_GROUP: i32 = 1;

pub const RAY_TRACING_SHADER_GROUP_TYPE_PROCEDURAL_HIT_GROUP: i32 = 2;

pub const DRIVER_ID_AMD_PROPRIETARY: i32 = 1;

pub const PIPELINE_LAYOUT_CREATE_INDEPENDENT_SETS_EXT: u32 = 0x2;

pub const DESCRIPTOR_SET_LAYOUT_CREATE_UPDATE_AFTER_BIND_POOL: u32 = 0x2;

pub const DESCRIPTOR_SET_LAYOUT_CREATE_PUSH_DESCRIPTOR_KHR: u32 = 0x1;


/// Value of `VK_SHADER_UNUSED_KHR`.
pub const SHADER_UNUSED: u32 = 0xFFFF_FFFF;

pub const QUEUE_GRAPHICS: u32 = 0x1;

pub const QUEUE_COMPUTE: u32 = 0x2;

pub const QUEUE_TRANSFER: u32 = 0x4;

pub const INSTANCE_CREATE_ENUMERATE_PORTABILITY_KHR: u32 = 0x1;

pub const DRIVER_ID_AMD_OPEN_SOURCE: i32 = 2;

pub const DRIVER_ID_MESA_RADV: i32 = 3;

pub const DRIVER_ID_NVIDIA_PROPRIETARY: i32 = 4;

pub const DRIVER_ID_INTEL_PROPRIETARY_WINDOWS: i32 = 5;

pub const DRIVER_ID_MOLTENVK: i32 = 14;




pub const DRIVER_ID_MESA_KOSMICKRISP: i32 = 28;


pub const ATTACHMENT_LOAD_OP_LOAD: i32 = 0;

pub const ATTACHMENT_LOAD_OP_CLEAR: i32 = 1;

pub const ATTACHMENT_LOAD_OP_DONT_CARE: i32 = 2;

pub const ATTACHMENT_LOAD_OP_NONE_KHR: i32 = 1000400000;

pub const ATTACHMENT_STORE_OP_STORE: i32 = 0;

pub const ATTACHMENT_STORE_OP_DONT_CARE: i32 = 1;

pub const ATTACHMENT_STORE_OP_NONE: i32 = 1000301000;

pub const IMAGE_LAYOUT_UNDEFINED: i32 = 0;

pub const IMAGE_LAYOUT_GENERAL: i32 = 1;


pub const COMPOSITE_ALPHA_OPAQUE: u32 = 0x1;

pub const COMPOSITE_ALPHA_PRE_MULTIPLIED: u32 = 0x2;

pub const COMPOSITE_ALPHA_POST_MULTIPLIED: u32 = 0x4;

pub const COMPOSITE_ALPHA_INHERIT: u32 = 0x8;

pub const PRESENT_MODE_IMMEDIATE: i32 = 0;

pub const PRESENT_MODE_MAILBOX: i32 = 1;

pub const PRESENT_MODE_FIFO: i32 = 2;

pub const PRESENT_MODE_FIFO_RELAXED: i32 = 3;

pub const IMAGE_USAGE_TRANSFER_SRC: u32 = 0x1;

pub const IMAGE_USAGE_TRANSFER_DST: u32 = 0x2;

pub const IMAGE_USAGE_SAMPLED: u32 = 0x4;

pub const IMAGE_USAGE_STORAGE: u32 = 0x8;

pub const IMAGE_USAGE_COLOR_ATTACHMENT: u32 = 0x10;

pub const SURFACE_TRANSFORM_IDENTITY: u32 = 0x1;

pub const RESULT_SUCCESS: i32 = 0;

pub const RESULT_SUBOPTIMAL_KHR: i32 = 1000001003;

pub const RESULT_ERROR_OUT_OF_DATE_KHR: i32 = -1000001004;

pub const PIPELINE_STAGE_2_ALL_COMMANDS: u64 = 0x10000;


pub const RESULT_ERROR_OUT_OF_DEVICE_MEMORY: i32 = -2;

pub const RESULT_ERROR_INCOMPATIBLE_DRIVER: i32 = -9;

pub const RESULT_ERROR_FORMAT_NOT_SUPPORTED: i32 = -11;

pub const MEMORY_ALLOCATE_DEVICE_ADDRESS: u32 = 0x2;

pub const BUFFER_USAGE_ACCELERATION_STRUCTURE_BUILD_INPUT_READ_ONLY_KHR: u32 = 0x80000;

pub const BUFFER_USAGE_SHADER_BINDING_TABLE_KHR: u32 = 0x400;


pub const PIPELINE_STAGE_2_COPY: u64 = 0x100000000;


pub const FORMAT_A2B10G10R10_UNORM_PACK32: i32 = 64;

pub const FORMAT_B10G11R11_UFLOAT_PACK32: i32 = 122;

pub const FORMAT_B8G8R8A8_SRGB: i32 = 50;

pub const FORMAT_B8G8R8A8_UNORM: i32 = 44;

pub const FORMAT_BC1_RGB_SRGB_BLOCK: i32 = 132;

pub const FORMAT_BC1_RGB_UNORM_BLOCK: i32 = 131;

pub const FORMAT_BC2_SRGB_BLOCK: i32 = 136;

pub const FORMAT_BC2_UNORM_BLOCK: i32 = 135;

pub const FORMAT_BC3_SRGB_BLOCK: i32 = 138;

pub const FORMAT_BC3_UNORM_BLOCK: i32 = 137;

pub const FORMAT_BC4_SNORM_BLOCK: i32 = 140;

pub const FORMAT_BC4_UNORM_BLOCK: i32 = 139;

pub const FORMAT_BC5_SNORM_BLOCK: i32 = 142;

pub const FORMAT_BC5_UNORM_BLOCK: i32 = 141;

pub const FORMAT_BC6H_SFLOAT_BLOCK: i32 = 144;

pub const FORMAT_BC6H_UFLOAT_BLOCK: i32 = 143;

pub const FORMAT_BC7_SRGB_BLOCK: i32 = 146;

pub const FORMAT_BC7_UNORM_BLOCK: i32 = 145;

pub const FORMAT_D24_UNORM_S8_UINT: i32 = 129;

pub const FORMAT_D32_SFLOAT: i32 = 126;

pub const FORMAT_E5B9G9R9_UFLOAT_PACK32: i32 = 123;

pub const FORMAT_R16G16B16A16_SFLOAT: i32 = 97;

pub const FORMAT_R16G16B16A16_SINT: i32 = 96;

pub const FORMAT_R16G16B16A16_SNORM: i32 = 92;

pub const FORMAT_R16G16B16A16_UINT: i32 = 95;

pub const FORMAT_R16G16B16A16_UNORM: i32 = 91;

pub const FORMAT_R16G16_SFLOAT: i32 = 83;

pub const FORMAT_R16G16_SINT: i32 = 82;

pub const FORMAT_R16G16_SNORM: i32 = 78;

pub const FORMAT_R16G16_UINT: i32 = 81;

pub const FORMAT_R16G16_UNORM: i32 = 77;

pub const FORMAT_R16_SFLOAT: i32 = 76;

pub const FORMAT_R16_SINT: i32 = 75;

pub const FORMAT_R16_SNORM: i32 = 71;

pub const FORMAT_R16_UINT: i32 = 74;

pub const FORMAT_R16_UNORM: i32 = 70;

pub const FORMAT_R32G32B32A32_SFLOAT: i32 = 109;

pub const FORMAT_R32G32B32A32_SINT: i32 = 108;

pub const FORMAT_R32G32B32A32_UINT: i32 = 107;

pub const FORMAT_R32G32_SFLOAT: i32 = 103;

pub const FORMAT_R32G32_SINT: i32 = 102;

pub const FORMAT_R32G32_UINT: i32 = 101;

pub const FORMAT_R32_SFLOAT: i32 = 100;

pub const FORMAT_R32_SINT: i32 = 99;

pub const FORMAT_R32_UINT: i32 = 98;

pub const FORMAT_R4G4B4A4_UNORM_PACK16: i32 = 2;

pub const FORMAT_R4G4_UNORM_PACK8: i32 = 1;

pub const FORMAT_R8G8B8A8_SINT: i32 = 42;

pub const FORMAT_R8G8B8A8_SNORM: i32 = 38;

pub const FORMAT_R8G8B8A8_SRGB: i32 = 43;

pub const FORMAT_R8G8B8A8_UINT: i32 = 41;

pub const FORMAT_R8G8B8A8_UNORM: i32 = 37;

pub const FORMAT_R8G8_SINT: i32 = 21;

pub const FORMAT_R8G8_SNORM: i32 = 17;

pub const FORMAT_R8G8_SRGB: i32 = 22;

pub const FORMAT_R8G8_UINT: i32 = 20;

pub const FORMAT_R8G8_UNORM: i32 = 16;

pub const FORMAT_R8_SINT: i32 = 14;

pub const FORMAT_R8_SNORM: i32 = 10;

pub const FORMAT_R8_SRGB: i32 = 15;

pub const FORMAT_R8_UINT: i32 = 13;

pub const FORMAT_R8_UNORM: i32 = 9;

pub const FORMAT_UNDEFINED: i32 = 0;

pub const FORMAT_X8_D24_UNORM_PACK32: i32 = 125;

pub const IMAGE_TYPE_TYPE_1D: i32 = 0;

pub const IMAGE_TYPE_TYPE_2D: i32 = 1;

pub const IMAGE_TYPE_TYPE_3D: i32 = 2;

pub const IMAGE_TILING_OPTIMAL: i32 = 0;

pub const IMAGE_LAYOUT_SHADER_READ_ONLY_OPTIMAL: i32 = 5;

pub const IMAGE_LAYOUT_TRANSFER_DST_OPTIMAL: i32 = 7;

pub const PIPELINE_STAGE_2_ACCELERATION_STRUCTURE_BUILD_KHR: u64 = 0x2000000;

pub const ACCESS_2_ACCELERATION_STRUCTURE_READ_KHR: u64 = 0x200000;

pub const ACCESS_2_ACCELERATION_STRUCTURE_WRITE_KHR: u64 = 0x400000;

pub const RESULT_ERROR_IMAGE_USAGE_NOT_SUPPORTED_KHR: i32 = -1000023000;


pub const DESCRIPTOR_TYPE_COMBINED_IMAGE_SAMPLER: i32 = 1;


/// Whether every bit of `required` is set in `flags`.
pub open spec fn contains(flags: u32, required: u32) -> bool {
    flags & required == required
}

/// Flags are there where each single one of them is: none may be missing, and
/// others do not matter.
pub proof fn law_flags_are_there_one_by_one(flags: u32, required: u32)
    ensures
        contains(flags, required) <==> forall|bit: u32|
            bit < 32 && (#[trigger] (required >> bit)) & 1 == 1 ==> (flags >> bit) & 1 == 1,
{
    if contains(flags, required) {
        assert forall|bit: u32| bit < 32 && (#[trigger] (required >> bit)) & 1 == 1 implies (flags
            >> bit) & 1 == 1 by {
            assert(flags & required == required && bit < 32 && (required >> bit) & 1 == 1 ==> (flags
                >> bit) & 1 == 1) by (bit_vector);
        }
    }
    if forall|bit: u32|
        bit < 32 && (#[trigger] (required >> bit)) & 1 == 1 ==> (flags >> bit) & 1 == 1 {
        lemma_missing_bit(flags, required);
    }
}

proof fn lemma_missing_bit(flags: u32, required: u32)
    requires
        forall|bit: u32|
            bit < 32 && (#[trigger] (required >> bit)) & 1 == 1 ==> (flags >> bit) & 1 == 1,
    ensures
        flags & required == required,
{
    assert(flags & required == required) by (bit_vector)
        requires
            (required >> 0u32) & 1 == 1 ==> (flags >> 0u32) & 1 == 1,
            (required >> 1u32) & 1 == 1 ==> (flags >> 1u32) & 1 == 1,
            (required >> 2u32) & 1 == 1 ==> (flags >> 2u32) & 1 == 1,
            (required >> 3u32) & 1 == 1 ==> (flags >> 3u32) & 1 == 1,
            (required >> 4u32) & 1 == 1 ==> (flags >> 4u32) & 1 == 1,
            (required >> 5u32) & 1 == 1 ==> (flags >> 5u32) & 1 == 1,
            (required >> 6u32) & 1 == 1 ==> (flags >> 6u32) & 1 == 1,
            (required >> 7u32) & 1 == 1 ==> (flags >> 7u32) & 1 == 1,
            (required >> 8u32) & 1 == 1 ==> (flags >> 8u32) & 1 == 1,
            (required >> 9u32) & 1 == 1 ==> (flags >> 9u32) & 1 == 1,
            (required >> 10u32) & 1 == 1 ==> (flags >> 10u32) & 1 == 1,
            (required >> 11u32) & 1 == 1 ==> (flags >> 11u32) & 1 == 1,
            (required >> 12u32) & 1 == 1 ==> (flags >> 12u32) & 1 == 1,
            (required >> 13u32) & 1 == 1 ==> (flags >> 13u32) & 1 == 1,
            (required >> 14u32) & 1 == 1 ==> (flags >> 14u32) & 1 == 1,
            (required >> 15u32) & 1 == 1 ==> (flags >> 15u32) & 1 == 1,
            (required >> 16u32) & 1 == 1 ==> (flags >> 16u32) & 1 == 1,
            (required >> 17u32) & 1 == 1 ==> (flags >> 17u32) & 1 == 1,
            (required >> 18u32) & 1 == 1 ==> (flags >> 18u32) & 1 == 1,
            (required >> 19u32) & 1 == 1 ==> (flags >> 19u32) & 1 == 1,
            (required >> 20u32) & 1 == 1 ==> (flags >> 20u32) & 1 == 1,
            (required >> 21u32) & 1 == 1 ==> (flags >> 21u32) & 1 == 1,
            (required >> 22u32) & 1 == 1 ==> (flags >> 22u32) & 1 == 1,
            (required >> 23u32) & 1 == 1 ==> (flags >> 23u32) & 1 == 1,
            (required >> 24u32) & 1 == 1 ==> (flags >> 24u32) & 1 == 1,
            (required >> 25u32) & 1 == 1 ==> (flags >> 25u32) & 1 == 1,
            (required >> 26u32) & 1 == 1 ==> (flags >> 26u32) & 1 == 1,
            (required >> 27u32) & 1 == 1 ==> (flags >> 27u32) & 1 == 1,
            (required >> 28u32) & 1 == 1 ==> (flags >> 28u32) & 1 == 1,
            (required >> 29u32) & 1 == 1 ==> (flags >> 29u32) & 1 == 1,
            (required >> 30u32) & 1 == 1 ==> (flags >> 30u32) & 1 == 1,
            (required >> 31u32) & 1 == 1 ==> (flags >> 31u32) & 1 == 1,
    ;
}

/// Whether every bit of `required` is set in `flags`.
pub fn has_flags(flags: u32, required: u32) -> (b: bool)
    ensures
        b == contains(flags, required),
{
    flags & required == required
}

} // verus!
