//! The Vulkan values of the library are those of the bindings.

use ash::vk as bindings;
use pumicite::vk;

#[test]
fn values_of_memory_property() {
    assert_eq!(
        vk::MEMORY_PROPERTY_DEVICE_LOCAL,
        bindings::MemoryPropertyFlags::DEVICE_LOCAL.as_raw()
    );
    assert_eq!(
        vk::MEMORY_PROPERTY_HOST_VISIBLE,
        bindings::MemoryPropertyFlags::HOST_VISIBLE.as_raw()
    );
    assert_eq!(
        vk::MEMORY_PROPERTY_HOST_COHERENT,
        bindings::MemoryPropertyFlags::HOST_COHERENT.as_raw()
    );
    assert_eq!(
        vk::MEMORY_PROPERTY_HOST_CACHED,
        bindings::MemoryPropertyFlags::HOST_CACHED.as_raw()
    );
}

#[test]
fn values_of_physical_device_type() {
    assert_eq!(vk::PHYSICAL_DEVICE_TYPE_OTHER, bindings::PhysicalDeviceType::OTHER.as_raw());
    assert_eq!(
        vk::PHYSICAL_DEVICE_TYPE_INTEGRATED_GPU,
        bindings::PhysicalDeviceType::INTEGRATED_GPU.as_raw()
    );
    assert_eq!(
        vk::PHYSICAL_DEVICE_TYPE_DISCRETE_GPU,
        bindings::PhysicalDeviceType::DISCRETE_GPU.as_raw()
    );
    assert_eq!(
        vk::PHYSICAL_DEVICE_TYPE_VIRTUAL_GPU,
        bindings::PhysicalDeviceType::VIRTUAL_GPU.as_raw()
    );
    assert_eq!(vk::PHYSICAL_DEVICE_TYPE_CPU, bindings::PhysicalDeviceType::CPU.as_raw());
}

#[test]
fn values_of_dynamic_state() {
    assert_eq!(vk::DYNAMIC_STATE_VIEWPORT, bindings::DynamicState::VIEWPORT.as_raw());
    assert_eq!(vk::DYNAMIC_STATE_SCISSOR, bindings::DynamicState::SCISSOR.as_raw());
    assert_eq!(vk::DYNAMIC_STATE_LINE_WIDTH, bindings::DynamicState::LINE_WIDTH.as_raw());
    assert_eq!(vk::DYNAMIC_STATE_DEPTH_BIAS, bindings::DynamicState::DEPTH_BIAS.as_raw());
    assert_eq!(vk::DYNAMIC_STATE_BLEND_CONSTANTS, bindings::DynamicState::BLEND_CONSTANTS.as_raw());
    assert_eq!(vk::DYNAMIC_STATE_DEPTH_BOUNDS, bindings::DynamicState::DEPTH_BOUNDS.as_raw());
    assert_eq!(vk::DYNAMIC_STATE_CULL_MODE, bindings::DynamicState::CULL_MODE.as_raw());
    assert_eq!(vk::DYNAMIC_STATE_FRONT_FACE, bindings::DynamicState::FRONT_FACE.as_raw());
    assert_eq!(
        vk::DYNAMIC_STATE_PRIMITIVE_TOPOLOGY,
        bindings::DynamicState::PRIMITIVE_TOPOLOGY.as_raw()
    );
    assert_eq!(
        vk::DYNAMIC_STATE_VIEWPORT_WITH_COUNT,
        bindings::DynamicState::VIEWPORT_WITH_COUNT.as_raw()
    );
    assert_eq!(
        vk::DYNAMIC_STATE_SCISSOR_WITH_COUNT,
        bindings::DynamicState::SCISSOR_WITH_COUNT.as_raw()
    );
    assert_eq!(
        vk::DYNAMIC_STATE_VERTEX_INPUT_BINDING_STRIDE,
        bindings::DynamicState::VERTEX_INPUT_BINDING_STRIDE.as_raw()
    );
    assert_eq!(
        vk::DYNAMIC_STATE_DEPTH_TEST_ENABLE,
        bindings::DynamicState::DEPTH_TEST_ENABLE.as_raw()
    );
    assert_eq!(
        vk::DYNAMIC_STATE_DEPTH_WRITE_ENABLE,
        bindings::DynamicState::DEPTH_WRITE_ENABLE.as_raw()
    );
    assert_eq!(
        vk::DYNAMIC_STATE_DEPTH_COMPARE_OP,
        bindings::DynamicState::DEPTH_COMPARE_OP.as_raw()
    );
    assert_eq!(
        vk::DYNAMIC_STATE_DEPTH_BOUNDS_TEST_ENABLE,
        bindings::DynamicState::DEPTH_BOUNDS_TEST_ENABLE.as_raw()
    );
    assert_eq!(
        vk::DYNAMIC_STATE_STENCIL_TEST_ENABLE,
        bindings::DynamicState::STENCIL_TEST_ENABLE.as_raw()
    );
    assert_eq!(vk::DYNAMIC_STATE_STENCIL_OP, bindings::DynamicState::STENCIL_OP.as_raw());
    assert_eq!(
        vk::DYNAMIC_STATE_RASTERIZER_DISCARD_ENABLE,
        bindings::DynamicState::RASTERIZER_DISCARD_ENABLE.as_raw()
    );
    assert_eq!(
        vk::DYNAMIC_STATE_DEPTH_BIAS_ENABLE,
        bindings::DynamicState::DEPTH_BIAS_ENABLE.as_raw()
    );
    assert_eq!(
        vk::DYNAMIC_STATE_PRIMITIVE_RESTART_ENABLE,
        bindings::DynamicState::PRIMITIVE_RESTART_ENABLE.as_raw()
    );
    assert_eq!(
        vk::DYNAMIC_STATE_VERTEX_INPUT_EXT,
        bindings::DynamicState::VERTEX_INPUT_EXT.as_raw()
    );
    assert_eq!(
        vk::DYNAMIC_STATE_PATCH_CONTROL_POINTS_EXT,
        bindings::DynamicState::PATCH_CONTROL_POINTS_EXT.as_raw()
    );
    assert_eq!(vk::DYNAMIC_STATE_LOGIC_OP_EXT, bindings::DynamicState::LOGIC_OP_EXT.as_raw());
    assert_eq!(
        vk::DYNAMIC_STATE_DEPTH_CLAMP_ENABLE_EXT,
        bindings::DynamicState::DEPTH_CLAMP_ENABLE_EXT.as_raw()
    );
    assert_eq!(
        vk::DYNAMIC_STATE_POLYGON_MODE_EXT,
        bindings::DynamicState::POLYGON_MODE_EXT.as_raw()
    );
    assert_eq!(
        vk::DYNAMIC_STATE_RASTERIZATION_SAMPLES_EXT,
        bindings::DynamicState::RASTERIZATION_SAMPLES_EXT.as_raw()
    );
    assert_eq!(vk::DYNAMIC_STATE_SAMPLE_MASK_EXT, bindings::DynamicState::SAMPLE_MASK_EXT.as_raw());
    assert_eq!(
        vk::DYNAMIC_STATE_ALPHA_TO_COVERAGE_ENABLE_EXT,
        bindings::DynamicState::ALPHA_TO_COVERAGE_ENABLE_EXT.as_raw()
    );
    assert_eq!(
        vk::DYNAMIC_STATE_ALPHA_TO_ONE_ENABLE_EXT,
        bindings::DynamicState::ALPHA_TO_ONE_ENABLE_EXT.as_raw()
    );
    assert_eq!(
        vk::DYNAMIC_STATE_LOGIC_OP_ENABLE_EXT,
        bindings::DynamicState::LOGIC_OP_ENABLE_EXT.as_raw()
    );
    assert_eq!(
        vk::DYNAMIC_STATE_COLOR_BLEND_ENABLE_EXT,
        bindings::DynamicState::COLOR_BLEND_ENABLE_EXT.as_raw()
    );
    assert_eq!(
        vk::DYNAMIC_STATE_COLOR_BLEND_EQUATION_EXT,
        bindings::DynamicState::COLOR_BLEND_EQUATION_EXT.as_raw()
    );
    assert_eq!(
        vk::DYNAMIC_STATE_COLOR_WRITE_MASK_EXT,
        bindings::DynamicState::COLOR_WRITE_MASK_EXT.as_raw()
    );
    assert_eq!(
        vk::DYNAMIC_STATE_RAY_TRACING_PIPELINE_STACK_SIZE_KHR,
        bindings::DynamicState::RAY_TRACING_PIPELINE_STACK_SIZE_KHR.as_raw()
    );
}

#[test]
fn values_of_compare_op() {
    assert_eq!(vk::COMPARE_OP_NEVER, bindings::CompareOp::NEVER.as_raw());
    assert_eq!(vk::COMPARE_OP_LESS, bindings::CompareOp::LESS.as_raw());
    assert_eq!(vk::COMPARE_OP_EQUAL, bindings::CompareOp::EQUAL.as_raw());
    assert_eq!(vk::COMPARE_OP_LESS_OR_EQUAL, bindings::CompareOp::LESS_OR_EQUAL.as_raw());
    assert_eq!(vk::COMPARE_OP_GREATER, bindings::CompareOp::GREATER.as_raw());
    assert_eq!(vk::COMPARE_OP_NOT_EQUAL, bindings::CompareOp::NOT_EQUAL.as_raw());
    assert_eq!(vk::COMPARE_OP_GREATER_OR_EQUAL, bindings::CompareOp::GREATER_OR_EQUAL.as_raw());
    assert_eq!(vk::COMPARE_OP_ALWAYS, bindings::CompareOp::ALWAYS.as_raw());
}

#[test]
fn values_of_logic_op() {
    assert_eq!(vk::LOGIC_OP_CLEAR, bindings::LogicOp::CLEAR.as_raw());
    assert_eq!(vk::LOGIC_OP_AND, bindings::LogicOp::AND.as_raw());
    assert_eq!(vk::LOGIC_OP_AND_REVERSE, bindings::LogicOp::AND_REVERSE.as_raw());
    assert_eq!(vk::LOGIC_OP_COPY, bindings::LogicOp::COPY.as_raw());
    assert_eq!(vk::LOGIC_OP_AND_INVERTED, bindings::LogicOp::AND_INVERTED.as_raw());
    assert_eq!(vk::LOGIC_OP_NO_OP, bindings::LogicOp::NO_OP.as_raw());
    assert_eq!(vk::LOGIC_OP_XOR, bindings::LogicOp::XOR.as_raw());
    assert_eq!(vk::LOGIC_OP_OR, bindings::LogicOp::OR.as_raw());
    assert_eq!(vk::LOGIC_OP_NOR, bindings::LogicOp::NOR.as_raw());
    assert_eq!(vk::LOGIC_OP_EQUIVALENT, bindings::LogicOp::EQUIVALENT.as_raw());
    assert_eq!(vk::LOGIC_OP_INVERT, bindings::LogicOp::INVERT.as_raw());
    assert_eq!(vk::LOGIC_OP_OR_REVERSE, bindings::LogicOp::OR_REVERSE.as_raw());
    assert_eq!(vk::LOGIC_OP_COPY_INVERTED, bindings::LogicOp::COPY_INVERTED.as_raw());
    assert_eq!(vk::LOGIC_OP_OR_INVERTED, bindings::LogicOp::OR_INVERTED.as_raw());
    assert_eq!(vk::LOGIC_OP_NAND, bindings::LogicOp::NAND.as_raw());
    assert_eq!(vk::LOGIC_OP_SET, bindings::LogicOp::SET.as_raw());
}

#[test]
fn values_of_color_component() {
    assert_eq!(vk::COLOR_COMPONENT_R, bindings::ColorComponentFlags::R.as_raw());
    assert_eq!(vk::COLOR_COMPONENT_G, bindings::ColorComponentFlags::G.as_raw());
    assert_eq!(vk::COLOR_COMPONENT_B, bindings::ColorComponentFlags::B.as_raw());
    assert_eq!(vk::COLOR_COMPONENT_A, bindings::ColorComponentFlags::A.as_raw());
}

#[test]
fn values_of_index_type() {
    assert_eq!(vk::INDEX_TYPE_UINT16, bindings::IndexType::UINT16.as_raw());
    assert_eq!(vk::INDEX_TYPE_UINT32, bindings::IndexType::UINT32.as_raw());
    assert_eq!(vk::INDEX_TYPE_UINT8_KHR, bindings::IndexType::UINT8_KHR.as_raw());
}

#[test]
fn values_of_primitive_topology() {
    assert_eq!(vk::PRIMITIVE_TOPOLOGY_POINT_LIST, bindings::PrimitiveTopology::POINT_LIST.as_raw());
    assert_eq!(vk::PRIMITIVE_TOPOLOGY_LINE_LIST, bindings::PrimitiveTopology::LINE_LIST.as_raw());
    assert_eq!(vk::PRIMITIVE_TOPOLOGY_LINE_STRIP, bindings::PrimitiveTopology::LINE_STRIP.as_raw());
    assert_eq!(
        vk::PRIMITIVE_TOPOLOGY_TRIANGLE_LIST,
        bindings::PrimitiveTopology::TRIANGLE_LIST.as_raw()
    );
    assert_eq!(
        vk::PRIMITIVE_TOPOLOGY_TRIANGLE_STRIP,
        bindings::PrimitiveTopology::TRIANGLE_STRIP.as_raw()
    );
    assert_eq!(
        vk::PRIMITIVE_TOPOLOGY_TRIANGLE_FAN,
        bindings::PrimitiveTopology::TRIANGLE_FAN.as_raw()
    );
}

#[test]
fn values_of_filter() {
    assert_eq!(vk::FILTER_NEAREST, bindings::Filter::NEAREST.as_raw());
    assert_eq!(vk::FILTER_LINEAR, bindings::Filter::LINEAR.as_raw());
}

#[test]
fn values_of_sampler_mipmap_mode() {
    assert_eq!(vk::SAMPLER_MIPMAP_MODE_NEAREST, bindings::SamplerMipmapMode::NEAREST.as_raw());
    assert_eq!(vk::SAMPLER_MIPMAP_MODE_LINEAR, bindings::SamplerMipmapMode::LINEAR.as_raw());
}

#[test]
fn values_of_sampler_address_mode() {
    assert_eq!(vk::SAMPLER_ADDRESS_MODE_REPEAT, bindings::SamplerAddressMode::REPEAT.as_raw());
    assert_eq!(
        vk::SAMPLER_ADDRESS_MODE_MIRRORED_REPEAT,
        bindings::SamplerAddressMode::MIRRORED_REPEAT.as_raw()
    );
    assert_eq!(
        vk::SAMPLER_ADDRESS_MODE_CLAMP_TO_EDGE,
        bindings::SamplerAddressMode::CLAMP_TO_EDGE.as_raw()
    );
}

#[test]
fn values_of_buffer_usage() {
    assert_eq!(vk::BUFFER_USAGE_TRANSFER_SRC, bindings::BufferUsageFlags::TRANSFER_SRC.as_raw());
    assert_eq!(vk::BUFFER_USAGE_TRANSFER_DST, bindings::BufferUsageFlags::TRANSFER_DST.as_raw());
    assert_eq!(
        vk::BUFFER_USAGE_UNIFORM_BUFFER,
        bindings::BufferUsageFlags::UNIFORM_BUFFER.as_raw()
    );
    assert_eq!(
        vk::BUFFER_USAGE_STORAGE_BUFFER,
        bindings::BufferUsageFlags::STORAGE_BUFFER.as_raw()
    );
    assert_eq!(vk::BUFFER_USAGE_INDEX_BUFFER, bindings::BufferUsageFlags::INDEX_BUFFER.as_raw());
    assert_eq!(vk::BUFFER_USAGE_VERTEX_BUFFER, bindings::BufferUsageFlags::VERTEX_BUFFER.as_raw());
    assert_eq!(
        vk::BUFFER_USAGE_SHADER_DEVICE_ADDRESS,
        bindings::BufferUsageFlags::SHADER_DEVICE_ADDRESS.as_raw()
    );
    assert_eq!(
        vk::BUFFER_USAGE_ACCELERATION_STRUCTURE_STORAGE_KHR,
        bindings::BufferUsageFlags::ACCELERATION_STRUCTURE_STORAGE_KHR.as_raw()
    );
    assert_eq!(
        vk::BUFFER_USAGE_SHADER_BINDING_TABLE_KHR,
        bindings::BufferUsageFlags::SHADER_BINDING_TABLE_KHR.as_raw()
    );
}

#[test]
fn values_of_build_acceleration_structure() {
    assert_eq!(
        vk::BUILD_ACCELERATION_STRUCTURE_ALLOW_UPDATE,
        bindings::BuildAccelerationStructureFlagsKHR::ALLOW_UPDATE.as_raw()
    );
    assert_eq!(
        vk::BUILD_ACCELERATION_STRUCTURE_ALLOW_COMPACTION,
        bindings::BuildAccelerationStructureFlagsKHR::ALLOW_COMPACTION.as_raw()
    );
    assert_eq!(
        vk::BUILD_ACCELERATION_STRUCTURE_PREFER_FAST_TRACE,
        bindings::BuildAccelerationStructureFlagsKHR::PREFER_FAST_TRACE.as_raw()
    );
    assert_eq!(
        vk::BUILD_ACCELERATION_STRUCTURE_PREFER_FAST_BUILD,
        bindings::BuildAccelerationStructureFlagsKHR::PREFER_FAST_BUILD.as_raw()
    );
    assert_eq!(
        vk::BUILD_ACCELERATION_STRUCTURE_LOW_MEMORY,
        bindings::BuildAccelerationStructureFlagsKHR::LOW_MEMORY.as_raw()
    );
}

#[test]
fn values_of_geometry_type() {
    assert_eq!(vk::GEOMETRY_TYPE_TRIANGLES, bindings::GeometryTypeKHR::TRIANGLES.as_raw());
    assert_eq!(vk::GEOMETRY_TYPE_AABBS, bindings::GeometryTypeKHR::AABBS.as_raw());
    assert_eq!(vk::GEOMETRY_TYPE_INSTANCES, bindings::GeometryTypeKHR::INSTANCES.as_raw());
}

#[test]
fn values_of_copy_acceleration_structure_mode() {
    assert_eq!(
        vk::COPY_ACCELERATION_STRUCTURE_MODE_CLONE,
        bindings::CopyAccelerationStructureModeKHR::CLONE.as_raw()
    );
    assert_eq!(
        vk::COPY_ACCELERATION_STRUCTURE_MODE_COMPACT,
        bindings::CopyAccelerationStructureModeKHR::COMPACT.as_raw()
    );
}

#[test]
fn values_of_acceleration_structure_type() {
    assert_eq!(
        vk::ACCELERATION_STRUCTURE_TYPE_TOP_LEVEL,
        bindings::AccelerationStructureTypeKHR::TOP_LEVEL.as_raw()
    );
    assert_eq!(
        vk::ACCELERATION_STRUCTURE_TYPE_BOTTOM_LEVEL,
        bindings::AccelerationStructureTypeKHR::BOTTOM_LEVEL.as_raw()
    );
}

#[test]
fn values_of_pipeline_create() {
    assert_eq!(
        vk::PIPELINE_CREATE_DISABLE_OPTIMIZATION,
        bindings::PipelineCreateFlags::DISABLE_OPTIMIZATION.as_raw()
    );
    assert_eq!(
        vk::PIPELINE_CREATE_DISPATCH_BASE,
        bindings::PipelineCreateFlags::DISPATCH_BASE.as_raw()
    );
    assert_eq!(
        vk::PIPELINE_CREATE_LIBRARY_KHR,
        bindings::PipelineCreateFlags::LIBRARY_KHR.as_raw()
    );
}

#[test]
fn values_of_shader_stage() {
    assert_eq!(vk::SHADER_STAGE_VERTEX, bindings::ShaderStageFlags::VERTEX.as_raw());
    assert_eq!(vk::SHADER_STAGE_RAYGEN_KHR, bindings::ShaderStageFlags::RAYGEN_KHR.as_raw());
    assert_eq!(vk::SHADER_STAGE_ANY_HIT_KHR, bindings::ShaderStageFlags::ANY_HIT_KHR.as_raw());
    assert_eq!(
        vk::SHADER_STAGE_CLOSEST_HIT_KHR,
        bindings::ShaderStageFlags::CLOSEST_HIT_KHR.as_raw()
    );
    assert_eq!(vk::SHADER_STAGE_MISS_KHR, bindings::ShaderStageFlags::MISS_KHR.as_raw());
    assert_eq!(
        vk::SHADER_STAGE_INTERSECTION_KHR,
        bindings::ShaderStageFlags::INTERSECTION_KHR.as_raw()
    );
    assert_eq!(vk::SHADER_STAGE_CALLABLE_KHR, bindings::ShaderStageFlags::CALLABLE_KHR.as_raw());
    assert_eq!(vk::SHADER_STAGE_COMPUTE, bindings::ShaderStageFlags::COMPUTE.as_raw());
}

#[test]
fn values_of_ray_tracing_shader_group_type() {
    assert_eq!(
        vk::RAY_TRACING_SHADER_GROUP_TYPE_GENERAL,
        bindings::RayTracingShaderGroupTypeKHR::GENERAL.as_raw()
    );
    assert_eq!(
        vk::RAY_TRACING_SHADER_GROUP_TYPE_TRIANGLES_HIT_GROUP,
        bindings::RayTracingShaderGroupTypeKHR::TRIANGLES_HIT_GROUP.as_raw()
    );
    assert_eq!(
        vk::RAY_TRACING_SHADER_GROUP_TYPE_PROCEDURAL_HIT_GROUP,
        bindings::RayTracingShaderGroupTypeKHR::PROCEDURAL_HIT_GROUP.as_raw()
    );
}

#[test]
fn values_of_driver_id() {
    assert_eq!(vk::DRIVER_ID_AMD_PROPRIETARY, bindings::DriverId::AMD_PROPRIETARY.as_raw());
    assert_eq!(vk::DRIVER_ID_AMD_OPEN_SOURCE, bindings::DriverId::AMD_OPEN_SOURCE.as_raw());
    assert_eq!(vk::DRIVER_ID_MESA_RADV, bindings::DriverId::MESA_RADV.as_raw());
    assert_eq!(vk::DRIVER_ID_NVIDIA_PROPRIETARY, bindings::DriverId::NVIDIA_PROPRIETARY.as_raw());
    assert_eq!(
        vk::DRIVER_ID_INTEL_PROPRIETARY_WINDOWS,
        bindings::DriverId::INTEL_PROPRIETARY_WINDOWS.as_raw()
    );
    assert_eq!(vk::DRIVER_ID_MOLTENVK, bindings::DriverId::MOLTENVK.as_raw());
}

#[test]
fn values_of_pipeline_layout_create() {
    assert_eq!(
        vk::PIPELINE_LAYOUT_CREATE_INDEPENDENT_SETS_EXT,
        bindings::PipelineLayoutCreateFlags::INDEPENDENT_SETS_EXT.as_raw()
    );
}

#[test]
fn values_of_descriptor_set_layout_create() {
    assert_eq!(
        vk::DESCRIPTOR_SET_LAYOUT_CREATE_UPDATE_AFTER_BIND_POOL,
        bindings::DescriptorSetLayoutCreateFlags::UPDATE_AFTER_BIND_POOL.as_raw()
    );
    assert_eq!(
        vk::DESCRIPTOR_SET_LAYOUT_CREATE_PUSH_DESCRIPTOR_KHR,
        bindings::DescriptorSetLayoutCreateFlags::PUSH_DESCRIPTOR_KHR.as_raw()
    );
}

#[test]
fn values_of_queue() {
    assert_eq!(vk::QUEUE_GRAPHICS, bindings::QueueFlags::GRAPHICS.as_raw());
    assert_eq!(vk::QUEUE_COMPUTE, bindings::QueueFlags::COMPUTE.as_raw());
    assert_eq!(vk::QUEUE_TRANSFER, bindings::QueueFlags::TRANSFER.as_raw());
}

#[test]
fn values_of_instance_create() {
    assert_eq!(
        vk::INSTANCE_CREATE_ENUMERATE_PORTABILITY_KHR,
        bindings::InstanceCreateFlags::ENUMERATE_PORTABILITY_KHR.as_raw()
    );
}

#[test]
fn values_of_attachment_load_op() {
    assert_eq!(vk::ATTACHMENT_LOAD_OP_LOAD, bindings::AttachmentLoadOp::LOAD.as_raw());
    assert_eq!(vk::ATTACHMENT_LOAD_OP_CLEAR, bindings::AttachmentLoadOp::CLEAR.as_raw());
    assert_eq!(vk::ATTACHMENT_LOAD_OP_DONT_CARE, bindings::AttachmentLoadOp::DONT_CARE.as_raw());
    assert_eq!(vk::ATTACHMENT_LOAD_OP_NONE_KHR, bindings::AttachmentLoadOp::NONE_KHR.as_raw());
}

#[test]
fn values_of_attachment_store_op() {
    assert_eq!(vk::ATTACHMENT_STORE_OP_STORE, bindings::AttachmentStoreOp::STORE.as_raw());
    assert_eq!(vk::ATTACHMENT_STORE_OP_DONT_CARE, bindings::AttachmentStoreOp::DONT_CARE.as_raw());
    assert_eq!(vk::ATTACHMENT_STORE_OP_NONE, bindings::AttachmentStoreOp::NONE.as_raw());
}

#[test]
fn values_of_image_layout() {
    assert_eq!(vk::IMAGE_LAYOUT_UNDEFINED, bindings::ImageLayout::UNDEFINED.as_raw());
    assert_eq!(vk::IMAGE_LAYOUT_GENERAL, bindings::ImageLayout::GENERAL.as_raw());
    assert_eq!(
        vk::IMAGE_LAYOUT_SHADER_READ_ONLY_OPTIMAL,
        bindings::ImageLayout::SHADER_READ_ONLY_OPTIMAL.as_raw()
    );
}

#[test]
fn values_of_composite_alpha() {
    assert_eq!(vk::COMPOSITE_ALPHA_OPAQUE, bindings::CompositeAlphaFlagsKHR::OPAQUE.as_raw());
    assert_eq!(
        vk::COMPOSITE_ALPHA_PRE_MULTIPLIED,
        bindings::CompositeAlphaFlagsKHR::PRE_MULTIPLIED.as_raw()
    );
    assert_eq!(
        vk::COMPOSITE_ALPHA_POST_MULTIPLIED,
        bindings::CompositeAlphaFlagsKHR::POST_MULTIPLIED.as_raw()
    );
    assert_eq!(vk::COMPOSITE_ALPHA_INHERIT, bindings::CompositeAlphaFlagsKHR::INHERIT.as_raw());
}

#[test]
fn values_of_present_mode() {
    assert_eq!(vk::PRESENT_MODE_IMMEDIATE, bindings::PresentModeKHR::IMMEDIATE.as_raw());
    assert_eq!(vk::PRESENT_MODE_MAILBOX, bindings::PresentModeKHR::MAILBOX.as_raw());
    assert_eq!(vk::PRESENT_MODE_FIFO, bindings::PresentModeKHR::FIFO.as_raw());
    assert_eq!(vk::PRESENT_MODE_FIFO_RELAXED, bindings::PresentModeKHR::FIFO_RELAXED.as_raw());
}

#[test]
fn values_of_image_usage() {
    assert_eq!(vk::IMAGE_USAGE_TRANSFER_SRC, bindings::ImageUsageFlags::TRANSFER_SRC.as_raw());
    assert_eq!(vk::IMAGE_USAGE_TRANSFER_DST, bindings::ImageUsageFlags::TRANSFER_DST.as_raw());
    assert_eq!(vk::IMAGE_USAGE_SAMPLED, bindings::ImageUsageFlags::SAMPLED.as_raw());
    assert_eq!(vk::IMAGE_USAGE_STORAGE, bindings::ImageUsageFlags::STORAGE.as_raw());
    assert_eq!(
        vk::IMAGE_USAGE_COLOR_ATTACHMENT,
        bindings::ImageUsageFlags::COLOR_ATTACHMENT.as_raw()
    );
}

#[test]
fn values_of_surface_transform() {
    assert_eq!(
        vk::SURFACE_TRANSFORM_IDENTITY,
        bindings::SurfaceTransformFlagsKHR::IDENTITY.as_raw()
    );
}

#[test]
fn values_of_result() {
    assert_eq!(vk::RESULT_SUCCESS, bindings::Result::SUCCESS.as_raw());
    assert_eq!(vk::RESULT_SUBOPTIMAL_KHR, bindings::Result::SUBOPTIMAL_KHR.as_raw());
    assert_eq!(vk::RESULT_ERROR_OUT_OF_DATE_KHR, bindings::Result::ERROR_OUT_OF_DATE_KHR.as_raw());
    assert_eq!(
        vk::RESULT_ERROR_OUT_OF_DEVICE_MEMORY,
        bindings::Result::ERROR_OUT_OF_DEVICE_MEMORY.as_raw()
    );
    assert_eq!(
        vk::RESULT_ERROR_INCOMPATIBLE_DRIVER,
        bindings::Result::ERROR_INCOMPATIBLE_DRIVER.as_raw()
    );
    assert_eq!(
        vk::RESULT_ERROR_FORMAT_NOT_SUPPORTED,
        bindings::Result::ERROR_FORMAT_NOT_SUPPORTED.as_raw()
    );
    assert_eq!(
        vk::RESULT_ERROR_IMAGE_USAGE_NOT_SUPPORTED_KHR,
        bindings::Result::ERROR_IMAGE_USAGE_NOT_SUPPORTED_KHR.as_raw()
    );
}

#[test]
fn values_of_pipeline_stage_2() {
    assert_eq!(
        vk::PIPELINE_STAGE_2_ALL_COMMANDS,
        bindings::PipelineStageFlags2::ALL_COMMANDS.as_raw()
    );
    assert_eq!(
        vk::IMAGE_LAYOUT_TRANSFER_DST_OPTIMAL,
        bindings::ImageLayout::TRANSFER_DST_OPTIMAL.as_raw()
    );
    assert_eq!(
        vk::PIPELINE_STAGE_2_ACCELERATION_STRUCTURE_BUILD_KHR,
        bindings::PipelineStageFlags2::ACCELERATION_STRUCTURE_BUILD_KHR.as_raw()
    );
    assert_eq!(
        vk::ACCESS_2_ACCELERATION_STRUCTURE_READ_KHR,
        bindings::AccessFlags2::ACCELERATION_STRUCTURE_READ_KHR.as_raw()
    );
    assert_eq!(
        vk::ACCESS_2_ACCELERATION_STRUCTURE_WRITE_KHR,
        bindings::AccessFlags2::ACCELERATION_STRUCTURE_WRITE_KHR.as_raw()
    );
    assert_eq!(vk::PIPELINE_STAGE_2_COPY, bindings::PipelineStageFlags2::COPY.as_raw());
}

#[test]
fn values_of_memory_allocate() {
    assert_eq!(
        vk::MEMORY_ALLOCATE_DEVICE_ADDRESS,
        bindings::MemoryAllocateFlags::DEVICE_ADDRESS.as_raw()
    );
}

#[test]
fn values_of_format() {
    assert_eq!(
        vk::FORMAT_A2B10G10R10_UNORM_PACK32,
        bindings::Format::A2B10G10R10_UNORM_PACK32.as_raw()
    );
    assert_eq!(
        vk::FORMAT_B10G11R11_UFLOAT_PACK32,
        bindings::Format::B10G11R11_UFLOAT_PACK32.as_raw()
    );
    assert_eq!(vk::FORMAT_B8G8R8A8_SRGB, bindings::Format::B8G8R8A8_SRGB.as_raw());
    assert_eq!(vk::FORMAT_B8G8R8A8_UNORM, bindings::Format::B8G8R8A8_UNORM.as_raw());
    assert_eq!(vk::FORMAT_BC1_RGB_SRGB_BLOCK, bindings::Format::BC1_RGB_SRGB_BLOCK.as_raw());
    assert_eq!(vk::FORMAT_BC1_RGB_UNORM_BLOCK, bindings::Format::BC1_RGB_UNORM_BLOCK.as_raw());
    assert_eq!(vk::FORMAT_BC2_SRGB_BLOCK, bindings::Format::BC2_SRGB_BLOCK.as_raw());
    assert_eq!(vk::FORMAT_BC2_UNORM_BLOCK, bindings::Format::BC2_UNORM_BLOCK.as_raw());
    assert_eq!(vk::FORMAT_BC3_SRGB_BLOCK, bindings::Format::BC3_SRGB_BLOCK.as_raw());
    assert_eq!(vk::FORMAT_BC3_UNORM_BLOCK, bindings::Format::BC3_UNORM_BLOCK.as_raw());
    assert_eq!(vk::FORMAT_BC4_SNORM_BLOCK, bindings::Format::BC4_SNORM_BLOCK.as_raw());
    assert_eq!(vk::FORMAT_BC4_UNORM_BLOCK, bindings::Format::BC4_UNORM_BLOCK.as_raw());
    assert_eq!(vk::FORMAT_BC5_SNORM_BLOCK, bindings::Format::BC5_SNORM_BLOCK.as_raw());
    assert_eq!(vk::FORMAT_BC5_UNORM_BLOCK, bindings::Format::BC5_UNORM_BLOCK.as_raw());
    assert_eq!(vk::FORMAT_BC6H_SFLOAT_BLOCK, bindings::Format::BC6H_SFLOAT_BLOCK.as_raw());
    assert_eq!(vk::FORMAT_BC6H_UFLOAT_BLOCK, bindings::Format::BC6H_UFLOAT_BLOCK.as_raw());
    assert_eq!(vk::FORMAT_BC7_SRGB_BLOCK, bindings::Format::BC7_SRGB_BLOCK.as_raw());
    assert_eq!(vk::FORMAT_BC7_UNORM_BLOCK, bindings::Format::BC7_UNORM_BLOCK.as_raw());
    assert_eq!(vk::FORMAT_D24_UNORM_S8_UINT, bindings::Format::D24_UNORM_S8_UINT.as_raw());
    assert_eq!(vk::FORMAT_D32_SFLOAT, bindings::Format::D32_SFLOAT.as_raw());
    assert_eq!(
        vk::FORMAT_E5B9G9R9_UFLOAT_PACK32,
        bindings::Format::E5B9G9R9_UFLOAT_PACK32.as_raw()
    );
    assert_eq!(vk::FORMAT_R16G16B16A16_SFLOAT, bindings::Format::R16G16B16A16_SFLOAT.as_raw());
    assert_eq!(vk::FORMAT_R16G16B16A16_SINT, bindings::Format::R16G16B16A16_SINT.as_raw());
    assert_eq!(vk::FORMAT_R16G16B16A16_SNORM, bindings::Format::R16G16B16A16_SNORM.as_raw());
    assert_eq!(vk::FORMAT_R16G16B16A16_UINT, bindings::Format::R16G16B16A16_UINT.as_raw());
    assert_eq!(vk::FORMAT_R16G16B16A16_UNORM, bindings::Format::R16G16B16A16_UNORM.as_raw());
    assert_eq!(vk::FORMAT_R16G16_SFLOAT, bindings::Format::R16G16_SFLOAT.as_raw());
    assert_eq!(vk::FORMAT_R16G16_SINT, bindings::Format::R16G16_SINT.as_raw());
    assert_eq!(vk::FORMAT_R16G16_SNORM, bindings::Format::R16G16_SNORM.as_raw());
    assert_eq!(vk::FORMAT_R16G16_UINT, bindings::Format::R16G16_UINT.as_raw());
    assert_eq!(vk::FORMAT_R16G16_UNORM, bindings::Format::R16G16_UNORM.as_raw());
    assert_eq!(vk::FORMAT_R16_SFLOAT, bindings::Format::R16_SFLOAT.as_raw());
    assert_eq!(vk::FORMAT_R16_SINT, bindings::Format::R16_SINT.as_raw());
    assert_eq!(vk::FORMAT_R16_SNORM, bindings::Format::R16_SNORM.as_raw());
    assert_eq!(vk::FORMAT_R16_UINT, bindings::Format::R16_UINT.as_raw());
    assert_eq!(vk::FORMAT_R16_UNORM, bindings::Format::R16_UNORM.as_raw());
    assert_eq!(vk::FORMAT_R32G32B32A32_SFLOAT, bindings::Format::R32G32B32A32_SFLOAT.as_raw());
    assert_eq!(vk::FORMAT_R32G32B32A32_SINT, bindings::Format::R32G32B32A32_SINT.as_raw());
    assert_eq!(vk::FORMAT_R32G32B32A32_UINT, bindings::Format::R32G32B32A32_UINT.as_raw());
    assert_eq!(vk::FORMAT_R32G32_SFLOAT, bindings::Format::R32G32_SFLOAT.as_raw());
    assert_eq!(vk::FORMAT_R32G32_SINT, bindings::Format::R32G32_SINT.as_raw());
    assert_eq!(vk::FORMAT_R32G32_UINT, bindings::Format::R32G32_UINT.as_raw());
    assert_eq!(vk::FORMAT_R32_SFLOAT, bindings::Format::R32_SFLOAT.as_raw());
    assert_eq!(vk::FORMAT_R32_SINT, bindings::Format::R32_SINT.as_raw());
    assert_eq!(vk::FORMAT_R32_UINT, bindings::Format::R32_UINT.as_raw());
    assert_eq!(vk::FORMAT_R4G4B4A4_UNORM_PACK16, bindings::Format::R4G4B4A4_UNORM_PACK16.as_raw());
    assert_eq!(vk::FORMAT_R4G4_UNORM_PACK8, bindings::Format::R4G4_UNORM_PACK8.as_raw());
    assert_eq!(vk::FORMAT_R8G8B8A8_SINT, bindings::Format::R8G8B8A8_SINT.as_raw());
    assert_eq!(vk::FORMAT_R8G8B8A8_SNORM, bindings::Format::R8G8B8A8_SNORM.as_raw());
    assert_eq!(vk::FORMAT_R8G8B8A8_SRGB, bindings::Format::R8G8B8A8_SRGB.as_raw());
    assert_eq!(vk::FORMAT_R8G8B8A8_UINT, bindings::Format::R8G8B8A8_UINT.as_raw());
    assert_eq!(vk::FORMAT_R8G8B8A8_UNORM, bindings::Format::R8G8B8A8_UNORM.as_raw());
    assert_eq!(vk::FORMAT_R8G8_SINT, bindings::Format::R8G8_SINT.as_raw());
    assert_eq!(vk::FORMAT_R8G8_SNORM, bindings::Format::R8G8_SNORM.as_raw());
    assert_eq!(vk::FORMAT_R8G8_SRGB, bindings::Format::R8G8_SRGB.as_raw());
    assert_eq!(vk::FORMAT_R8G8_UINT, bindings::Format::R8G8_UINT.as_raw());
    assert_eq!(vk::FORMAT_R8G8_UNORM, bindings::Format::R8G8_UNORM.as_raw());
    assert_eq!(vk::FORMAT_R8_SINT, bindings::Format::R8_SINT.as_raw());
    assert_eq!(vk::FORMAT_R8_SNORM, bindings::Format::R8_SNORM.as_raw());
    assert_eq!(vk::FORMAT_R8_SRGB, bindings::Format::R8_SRGB.as_raw());
    assert_eq!(vk::FORMAT_R8_UINT, bindings::Format::R8_UINT.as_raw());
    assert_eq!(vk::FORMAT_R8_UNORM, bindings::Format::R8_UNORM.as_raw());
    assert_eq!(vk::FORMAT_UNDEFINED, bindings::Format::UNDEFINED.as_raw());
    assert_eq!(vk::FORMAT_X8_D24_UNORM_PACK32, bindings::Format::X8_D24_UNORM_PACK32.as_raw());
}

#[test]
fn values_of_image_type() {
    assert_eq!(vk::IMAGE_TYPE_TYPE_1D, bindings::ImageType::TYPE_1D.as_raw());
    assert_eq!(vk::IMAGE_TYPE_TYPE_2D, bindings::ImageType::TYPE_2D.as_raw());
    assert_eq!(vk::IMAGE_TYPE_TYPE_3D, bindings::ImageType::TYPE_3D.as_raw());
}

#[test]
fn values_of_image_tiling() {
    assert_eq!(vk::IMAGE_TILING_OPTIMAL, bindings::ImageTiling::OPTIMAL.as_raw());
}

#[test]
fn values_of_descriptor_type() {
    assert_eq!(
        vk::DESCRIPTOR_TYPE_COMBINED_IMAGE_SAMPLER,
        bindings::DescriptorType::COMBINED_IMAGE_SAMPLER.as_raw()
    );
}

#[test]
fn plain_values() {
    assert_eq!(vk::TRUE, bindings::TRUE);
    assert_eq!(vk::FALSE, bindings::FALSE);
    assert_eq!(vk::SHADER_UNUSED, bindings::SHADER_UNUSED_KHR);
    assert!(vk::has_flags(0b110, 0b100));
    assert!(!vk::has_flags(0b110, 0b101));
}
