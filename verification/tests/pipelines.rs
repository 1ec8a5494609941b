//! Layouts, compute pipelines and graphics pipelines.

use pumicite::graphics::{
    color_write_mask, compare_op_str, graphics_pipeline_info, logic_op_str, specialization_info,
    AttachmentConfig, BlendEquation, CountedDynamicState, DepthBias, GraphicsPipelineConfig,
    OptionalDynamicState, PipelineError, Rect2D, RequiredDynamicState, ShaderConfig,
    SpecializationConstant, StencilConfig, StencilOps, VertexAttribute, VertexBinding, Viewport,
};
use pumicite::shader::{
    compute_pipeline_info, config_format, descriptor_set_layout_info, layout_available,
    pipeline_layout_info, use_pipeline_library, AssetCache, ComputePipelineConfig, ConfigFormat,
    DescriptorBinding, DescriptorBindingInfo, DescriptorSetLayoutRef, PipelineLayoutRef,
    PushConstantRange, PushConstants, Shader,
};
use pumicite::vk;

fn shader(path: &str) -> Shader {
    Shader { path: String::from(path), entry_point: String::from("main"), flags: 0 }
}

#[test]
fn formats_follow_the_extension() {
    assert_eq!(config_format("comp.pipeline.ron"), Some(ConfigFormat::Ron));
    assert_eq!(config_format("playout.bin"), Some(ConfigFormat::Postcard));
    assert_eq!(config_format("ron"), None);
    assert_eq!(config_format(""), None);
}

#[test]
fn layouts_need_their_heaps() {
    assert!(layout_available(PipelineLayoutRef::Inline, false));
    assert!(layout_available(PipelineLayoutRef::Path, false));
    assert!(!layout_available(PipelineLayoutRef::Bindless, false));
    assert!(layout_available(PipelineLayoutRef::Bindless, true));

    let sets = vec![DescriptorSetLayoutRef::Inline, DescriptorSetLayoutRef::ResourceHeap];
    let constants = vec![PushConstants { stage: 0x20, begin: 16, end: 80 }];
    assert!(pipeline_layout_info(true, &sets, &constants, false).is_none());
    let info = pipeline_layout_info(true, &sets, &constants, true).unwrap();
    assert_eq!(info.flags, vk::PIPELINE_LAYOUT_CREATE_INDEPENDENT_SETS_EXT);
    assert_eq!(info.sets, sets);
    assert_eq!(
        info.push_constants,
        vec![PushConstantRange { stage_flags: 0x20, offset: 16, size: 64 }]
    );
    let plain = pipeline_layout_info(false, &vec![], &vec![], false).unwrap();
    assert_eq!(plain.flags, 0);
}

#[test]
fn descriptor_sets_are_laid_out() {
    let bindings = vec![
        DescriptorBinding { binding: 0, ty: 7, count: 1, stages: vec![0x1, 0x10] },
        DescriptorBinding { binding: 3, ty: 1, count: 4, stages: vec![] },
    ];
    let (infos, flags) = descriptor_set_layout_info(&bindings, true, false);
    assert_eq!(flags, vk::DESCRIPTOR_SET_LAYOUT_CREATE_UPDATE_AFTER_BIND_POOL);
    assert_eq!(
        infos,
        vec![
            DescriptorBindingInfo {
                binding: 0,
                descriptor_type: 7,
                descriptor_count: 1,
                stage_flags: 0x11,
            },
            DescriptorBindingInfo {
                binding: 3,
                descriptor_type: 1,
                descriptor_count: 4,
                stage_flags: 0,
            },
        ]
    );
    let (none, flags) = descriptor_set_layout_info(&vec![], true, true);
    assert!(none.is_empty());
    assert_eq!(
        flags,
        vk::DESCRIPTOR_SET_LAYOUT_CREATE_UPDATE_AFTER_BIND_POOL
            | vk::DESCRIPTOR_SET_LAYOUT_CREATE_PUSH_DESCRIPTOR_KHR
    );
}

#[test]
fn compute_pipelines_are_worked_out() {
    let mut config = ComputePipelineConfig {
        shader: shader("a.spv"),
        disable_optimization: true,
        dispatch_base: true,
    };
    let info = compute_pipeline_info(&config).unwrap();
    assert_eq!(
        info.flags,
        vk::PIPELINE_CREATE_DISABLE_OPTIMIZATION | vk::PIPELINE_CREATE_DISPATCH_BASE
    );
    assert_eq!(info.shader.path, "a.spv");
    assert_eq!(info.shader.entry_point, "main");
    assert_eq!(info.shader.stage, vk::SHADER_STAGE_COMPUTE);
    config.shader.entry_point = String::from("ma\0in");
    assert!(compute_pipeline_info(&config).is_none());
    assert!(use_pipeline_library(true, vk::DRIVER_ID_MESA_RADV));
    assert!(!use_pipeline_library(true, vk::DRIVER_ID_AMD_PROPRIETARY));
    assert!(!use_pipeline_library(false, vk::DRIVER_ID_MESA_RADV));
}

#[test]
fn loaded_objects_are_cached() {
    let mut cache = AssetCache::new();
    assert_eq!(cache.get("a"), None);
    cache.insert(String::from("a"), 1);
    cache.insert(String::from("b"), 2);
    cache.insert(String::from("a"), 3);
    assert_eq!(cache.get("a"), Some(3));
    assert_eq!(cache.get("b"), Some(2));
    assert_eq!(cache.entries.len(), 2);
    cache.insert("live".to_string(), 0);
    cache.insert("gone".to_string(), 1);
    assert_eq!(cache.get_live("live", &[true, false]), Some(0));
    assert_eq!(cache.get_live("gone", &[true, false]), None);
    assert_eq!(cache.get_live("gone", &[true]), None);
    assert_eq!(cache.get_live("never", &[true, true]), None);
}

/// Bit pattern of a float.
fn bits(f: f32) -> u32 {
    f.to_bits()
}

fn stage(bit: u32) -> ShaderConfig {
    ShaderConfig {
        stage: bit,
        flags: 0,
        entry_point: String::from("main"),
        specialization_constants: Vec::new(),
    }
}

/// A configuration that sets nothing.
fn plain() -> GraphicsPipelineConfig {
    GraphicsPipelineConfig {
        shaders: Vec::new(),
        vertex_bindings: OptionalDynamicState::Unset,
        topology: OptionalDynamicState::Unset,
        primitive_restart_enabled: OptionalDynamicState::Unset,
        tessellation_patch_control_points: OptionalDynamicState::Unset,
        viewports: CountedDynamicState::Dynamic,
        scissors: CountedDynamicState::Dynamic,
        depth_clamp_enable: OptionalDynamicState::Unset,
        rasterizer_discard_enable: OptionalDynamicState::Unset,
        polygon_mode: OptionalDynamicState::Unset,
        cull_mode: OptionalDynamicState::Unset,
        front_face: OptionalDynamicState::Unset,
        depth_bias_enable: OptionalDynamicState::Unset,
        line_width: OptionalDynamicState::Unset,
        depth_bias: OptionalDynamicState::Unset,
        sample_count: OptionalDynamicState::Unset,
        sample_shading: None,
        sample_mask: OptionalDynamicState::Unset,
        alpha_to_coverage_enable: OptionalDynamicState::Unset,
        alpha_to_one_enable: OptionalDynamicState::Unset,
        depth_test_enable: OptionalDynamicState::Unset,
        depth_write_enable: OptionalDynamicState::Unset,
        depth_compare_op: OptionalDynamicState::Unset,
        depth_bounds_test_enable: OptionalDynamicState::Unset,
        stencil_test_enable: OptionalDynamicState::Unset,
        depth_bounds: OptionalDynamicState::Unset,
        front_stencil: None,
        back_stencil: None,
        attachments: Vec::new(),
        blend_logic_op_enable: OptionalDynamicState::Unset,
        blend_logic_op: OptionalDynamicState::Unset,
        blend_constants: OptionalDynamicState::Unset,
        depth_format: 0,
        stencil_format: 0,
    }
}

fn attachment(format: i32) -> AttachmentConfig {
    AttachmentConfig {
        format,
        blend_enable: RequiredDynamicState::Static(false),
        blend_equation: OptionalDynamicState::Unset,
        color_write_mask: OptionalDynamicState::Unset,
    }
}

fn text(s: &str) -> OptionalDynamicState<String> {
    OptionalDynamicState::Static(String::from(s))
}

#[test]
fn graphics_pipelines_are_worked_out() {
    let mut c = plain();
    c.shaders = vec![stage(0x1), stage(0x10)];
    c.shaders[1].specialization_constants = vec![
        SpecializationConstant { constant_id: 4, value: vec![1, 2, 3, 4] },
        SpecializationConstant { constant_id: 9, value: vec![5] },
    ];
    c.vertex_bindings = OptionalDynamicState::Static(vec![
        VertexBinding {
            binding: 0,
            stride: OptionalDynamicState::Static(20),
            input_rate: 0,
            attributes: vec![
                VertexAttribute { location: 0, format: 106, offset: 0 },
                VertexAttribute { location: 1, format: 103, offset: 12 },
            ],
        },
        VertexBinding {
            binding: 2,
            stride: OptionalDynamicState::Dynamic,
            input_rate: 1,
            attributes: vec![VertexAttribute { location: 5, format: 109, offset: 0 }],
        },
    ]);
    c.topology = OptionalDynamicState::Static(vk::PRIMITIVE_TOPOLOGY_TRIANGLE_LIST);
    c.viewports = CountedDynamicState::Static(vec![Viewport {
        x: bits(0.0),
        y: bits(0.0),
        width: bits(640.0),
        height: bits(480.0),
        min_depth: bits(0.0),
        max_depth: bits(1.0),
    }]);
    c.scissors = CountedDynamicState::Count(1);
    c.line_width = OptionalDynamicState::Dynamic;
    c.sample_count = OptionalDynamicState::Static(4);
    c.sample_shading = Some(bits(0.25));
    c.depth_test_enable = OptionalDynamicState::Static(true);
    c.depth_compare_op = text(">=");
    c.depth_bias = OptionalDynamicState::Static(DepthBias {
        constant_factor: bits(1.0),
        clamp: bits(2.0),
        slope_factor: bits(3.0),
    });
    let ops = StencilOps { fail: 1, pass: 2, depth_fail: 3, compare: String::from("==") };
    c.front_stencil = Some(StencilConfig { ops: OptionalDynamicState::Static(ops) });
    c.attachments = vec![attachment(44), attachment(97)];
    c.attachments[0].blend_enable = RequiredDynamicState::Static(true);
    c.attachments[0].blend_equation = OptionalDynamicState::Static(BlendEquation {
        color: (6, 7, 0),
        alpha: (1, 0, 0),
    });
    c.attachments[1].color_write_mask = text("rb");
    c.depth_format = 126;
    let info = graphics_pipeline_info(&c).unwrap();

    assert_eq!(info.stages.len(), 2);
    assert!(info.stages[0].specialization.is_none());
    let constants = info.stages[1].specialization.as_ref().unwrap();
    assert_eq!(constants.data, vec![1, 2, 3, 4, 5]);
    assert_eq!(constants.entries[1].constant_id, 9);
    assert_eq!(constants.entries[1].offset, 4);
    assert_eq!(constants.entries[1].size, 1);
    assert_eq!(info.vertex_input.attributes.len(), 3);
    assert_eq!(info.vertex_input.attributes[2].binding, 2);
    assert_eq!(info.vertex_input.attributes[2].location, 5);
    assert_eq!(info.vertex_input.bindings[0].stride, 20);
    assert_eq!(info.vertex_input.bindings[1].stride, 0);
    assert_eq!(info.topology, vk::PRIMITIVE_TOPOLOGY_TRIANGLE_LIST);
    let viewport = info.viewport.unwrap();
    assert_eq!(viewport.viewport_count, 1);
    assert_eq!(viewport.viewports.unwrap()[0].width, bits(640.0));
    assert_eq!(viewport.scissor_count, 1);
    assert!(viewport.scissors.is_none());
    assert_eq!(info.rasterization.depth_bias.clamp, bits(2.0));
    assert_eq!(info.multisample.rasterization_samples, 4);
    assert!(info.multisample.sample_shading_enable);
    assert_eq!(info.multisample.min_sample_shading, bits(0.25));
    assert!(info.depth_stencil.depth_test_enable);
    assert_eq!(info.depth_stencil.depth_compare_op, vk::COMPARE_OP_GREATER_OR_EQUAL);
    assert_eq!(info.depth_stencil.front.depth_fail_op, 3);
    assert_eq!(info.depth_stencil.front.compare_op, vk::COMPARE_OP_EQUAL);
    assert_eq!(info.color_blend.attachments[0].src_color_blend_factor, 6);
    assert!(info.color_blend.attachments[0].blend_enable);
    assert_eq!(
        info.color_blend.attachments[1].color_write_mask,
        vk::COLOR_COMPONENT_R | vk::COLOR_COMPONENT_B
    );
    assert_eq!(
        info.dynamic_states,
        vec![
            vk::DYNAMIC_STATE_VERTEX_INPUT_BINDING_STRIDE,
            vk::DYNAMIC_STATE_SCISSOR,
            vk::DYNAMIC_STATE_LINE_WIDTH,
        ]
    );
    assert_eq!(info.color_attachment_formats, vec![44, 97]);
    assert_eq!(info.depth_attachment_format, 126);
    assert_eq!(info.stencil_attachment_format, 0);
}

#[test]
fn dynamic_states_are_listed() {
    let mut c = plain();
    c.attachments = vec![attachment(1), attachment(2)];
    let info = graphics_pipeline_info(&c).unwrap();
    assert_eq!(
        info.dynamic_states,
        vec![vk::DYNAMIC_STATE_VIEWPORT_WITH_COUNT, vk::DYNAMIC_STATE_SCISSOR_WITH_COUNT]
    );
    assert!(info.viewport.is_none());

    c.scissors = CountedDynamicState::Static(vec![Rect2D { x: 1, y: 2, width: 3, height: 4 }]);
    c.viewports = CountedDynamicState::Count(2);
    c.topology = OptionalDynamicState::Dynamic;
    c.cull_mode = OptionalDynamicState::Dynamic;
    c.blend_constants = OptionalDynamicState::Dynamic;
    for a in c.attachments.iter_mut() {
        a.blend_enable = RequiredDynamicState::Dynamic;
        a.blend_equation = OptionalDynamicState::Dynamic;
        a.color_write_mask = OptionalDynamicState::Dynamic;
    }
    let info = graphics_pipeline_info(&c).unwrap();
    for state in [
        vk::DYNAMIC_STATE_VIEWPORT,
        vk::DYNAMIC_STATE_PRIMITIVE_TOPOLOGY,
        vk::DYNAMIC_STATE_CULL_MODE,
        vk::DYNAMIC_STATE_BLEND_CONSTANTS,
        vk::DYNAMIC_STATE_COLOR_BLEND_ENABLE_EXT,
        vk::DYNAMIC_STATE_COLOR_BLEND_EQUATION_EXT,
        vk::DYNAMIC_STATE_COLOR_WRITE_MASK_EXT,
    ] {
        assert_eq!(info.dynamic_states.iter().filter(|s| **s == state).count(), 1);
    }
    assert_eq!(info.dynamic_states.len(), 7);
    assert_eq!(info.viewport.unwrap().scissors.unwrap()[0].height, 4);
}

fn error_of(change: impl Fn(&mut GraphicsPipelineConfig)) -> PipelineError {
    let mut c = plain();
    c.shaders = vec![stage(0x1)];
    c.attachments = vec![attachment(1), attachment(2)];
    assert!(graphics_pipeline_info(&c).is_ok());
    change(&mut c);
    match graphics_pipeline_info(&c) {
        Ok(_) => panic!("an error was expected"),
        Err(e) => e,
    }
}

fn stencil(compare: &str) -> Option<StencilConfig> {
    let ops = StencilOps { fail: 0, pass: 0, depth_fail: 0, compare: String::from(compare) };
    Some(StencilConfig { ops: OptionalDynamicState::Static(ops) })
}

#[test]
fn faults_of_configurations_are_told() {
    let e = error_of(|c| c.shaders[0].entry_point = String::from("a\0"));
    assert_eq!(e, PipelineError::InvalidEntryName);
    assert_eq!(e.message(), "Invalid entry name");
    let e = error_of(|c| c.sample_count = OptionalDynamicState::Static(3));
    assert_eq!(e, PipelineError::UnrecognizedSampleCount);
    assert_eq!(e.message(), "Unrecognized: sample_count");
    let e = error_of(|c| {
        c.depth_test_enable = OptionalDynamicState::Static(true);
        c.depth_compare_op = text("=>");
    });
    assert_eq!(e, PipelineError::InvalidDepthCompareOp);
    assert_eq!(e.message(), "Invalid depth compare op");
    let e = error_of(|c| c.front_stencil = stencil("?"));
    assert_eq!(e, PipelineError::InvalidFrontStencilCompareOp);
    assert_eq!(e.message(), "Invalid comapre op for front stencil");
    let e = error_of(|c| c.back_stencil = stencil("?"));
    assert_eq!(e, PipelineError::InvalidBackStencilCompareOp);
    assert_eq!(e.message(), "Invalid compare op for back stencil");
    let e = error_of(|c| c.attachments[1].blend_enable = RequiredDynamicState::Static(true));
    assert_eq!(e, PipelineError::BlendEquationRequired);
    assert_eq!(e.message(), "Blending enabled; blend equation required");
    let e = error_of(|c| c.attachments[0].color_write_mask = text("rgx"));
    assert_eq!(e, PipelineError::UnrecognizedColorWriteMask);
    assert_eq!(e.message(), "unrecognized color write mask");
    let e = error_of(|c| c.attachments[0].blend_enable = RequiredDynamicState::Dynamic);
    assert_eq!(e, PipelineError::MixedBlendEnable);
    let e = error_of(|c| c.attachments[0].blend_equation = OptionalDynamicState::Dynamic);
    assert_eq!(e, PipelineError::MixedBlendEquation);
    let e = error_of(|c| c.attachments[0].color_write_mask = OptionalDynamicState::Dynamic);
    assert_eq!(e, PipelineError::MixedColorWriteMask);
    assert!(e.message().contains("color_write_mask"));
    let e = error_of(|c| c.blend_logic_op = text("s + t"));
    assert_eq!(e, PipelineError::UnrecognizedBlendLogicOp);
    assert_eq!(e.message(), "Unrecognized: blend_logic_op");
}

#[test]
fn operators_are_read() {
    let ops = ["false", "<", "==", "<=", ">", "!=", ">=", "true"];
    for (i, op) in ops.iter().enumerate() {
        assert_eq!(compare_op_str(op), Some(i as i32));
    }
    assert_eq!(compare_op_str("0"), Some(vk::COMPARE_OP_NEVER));
    assert_eq!(compare_op_str("1"), Some(vk::COMPARE_OP_ALWAYS));
    assert_eq!(compare_op_str("=>"), None);

    assert_eq!(logic_op_str("s & t"), Some(vk::LOGIC_OP_AND));
    assert_eq!(logic_op_str("!(s ^ t)"), Some(vk::LOGIC_OP_EQUIVALENT));
    assert_eq!(logic_op_str("d"), Some(vk::LOGIC_OP_NO_OP));
    assert_eq!(logic_op_str("!d"), Some(vk::LOGIC_OP_INVERT));
    assert_eq!(logic_op_str("s"), Some(vk::LOGIC_OP_COPY));
    assert_eq!(logic_op_str("s&t"), None);

    assert_eq!(color_write_mask("rgba"), Some(0xF));
    assert_eq!(color_write_mask("aa"), Some(vk::COLOR_COMPONENT_A));
    assert_eq!(color_write_mask(""), Some(0));
    assert_eq!(color_write_mask("R"), None);
}

#[test]
fn constants_are_packed() {
    let info = specialization_info(&vec![
        SpecializationConstant { constant_id: 1, value: vec![9; 8] },
        SpecializationConstant { constant_id: 0, value: vec![] },
        SpecializationConstant { constant_id: 2, value: vec![7, 7] },
    ]);
    assert_eq!(info.data, vec![9, 9, 9, 9, 9, 9, 9, 9, 7, 7]);
    let places: Vec<(u32, u32, usize)> =
        info.entries.iter().map(|e| (e.constant_id, e.offset, e.size)).collect();
    assert_eq!(places, vec![(1, 0, 8), (0, 8, 0), (2, 8, 2)]);
}
