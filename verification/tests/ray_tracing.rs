//! Shader binding tables, ray tracing pipelines and acceleration structures.

use pumicite::blas::{
    build_barriers, compaction_queries, default_build_flags, drain_built, geometry_info,
    next_batch, plan_batch, plan_compaction, scratch_addresses, BLASBuildGeometry, BuildRequest,
    CompactionRequest, EntityBlas, WorkQueue, DEFAULT_BATCH_SIZE, SCRATCH_BUFFER_USAGE,
};
use pumicite::command::{
    Access, BufferRegion, Command, CommandEncoder, EncoderFeatures, MemoryBarrier,
};
use pumicite::rtx::{
    accel_struct_buffer, create_ray_tracing_pipeline, create_ray_tracing_pipeline_library,
    create_ray_tracing_pipeline_monolithic, AccelStruct, AccelStructInfo, PipelineLibrary,
    RayTracingPipelineLibraryCreateInfo, SbtHandles, SbtLayout, SbtLayoutStage, SbtStage,
    ShaderBindingTable, ShaderBindingTableState, ShaderEntry, StridedRegion,
};
use pumicite::shader::{
    is_plannable, library_create_info, ray_tracing_library, ray_tracing_plan, HitGroupType,
    HitgroupShader, RayTracingLimits, RayTracingPipelineConfig, RayTracingPipelineLibrary,
    RayTracingStage, Shader, ShaderGroup,
};
use pumicite::version::Version;
use pumicite::vk;

/// Handles of four bytes: each byte of handle `i` is `i + 1`.
fn handles() -> SbtHandles {
    let mut data: Vec<u8> = Vec::new();
    for i in 0..6u8 {
        data.extend_from_slice(&[i + 1; 4]);
    }
    SbtHandles::new(data, 4, 1, 2, 1, 2)
}

fn layout() -> SbtLayout {
    let mut layout = SbtLayout::new(4, 16, 8);
    layout.raygen = SbtLayoutStage { param_size: 0, count: 1 };
    layout.miss = SbtLayoutStage { param_size: 4, count: 2 };
    layout.callable = SbtLayoutStage { param_size: 0, count: 1 };
    layout.hitgroup = SbtLayoutStage { param_size: 8, count: 2 };
    layout
}

#[test]
fn handles_are_found() {
    let h = handles();
    assert_eq!(h.rgen(0), &[1; 4]);
    assert_eq!(h.rmiss(0), &[2; 4]);
    assert_eq!(h.rmiss(1), &[3; 4]);
    assert_eq!(h.callable(0), &[4; 4]);
    assert_eq!(h.hitgroup(0), &[5; 4]);
    assert_eq!(h.hitgroup(1), &[6; 4]);
}

#[test]
fn handles_are_described() {
    let h = SbtHandles::new(vec![0xab, 0x01, 0x10, 0xff], 2, 1, 0, 0, 1);
    assert_eq!(
        h.debug_text(),
        "SbtHandles { handle_size: 2, raygen: [0xab1], miss: [], callable: [], hitgroup: [0x10ff]"
    );
    assert!(handles().debug_text().contains("miss: [0x2222, 0x3333]"));
}

#[test]
fn entries_have_their_layout() {
    let l = layout();
    assert_eq!((l.raygen_layout().size, l.raygen_layout().align), (4, 16));
    assert_eq!((l.miss_layout().size, l.miss_layout().align), (8, 8));
    assert_eq!((l.callable_layout().size, l.callable_layout().align), (4, 8));
    assert_eq!((l.hitgroup_layout().size, l.hitgroup_layout().align), (12, 8));
    let stage = SbtLayoutStage::default();
    assert_eq!((stage.param_size, stage.count), (0, 0));
}

#[test]
fn stages_are_counted() {
    let mut state = ShaderBindingTableState::NotSet;
    assert_eq!(state.index(), 0);
    assert_eq!(state.base_offset(), 0);
    assert_eq!(state.increment(48), 0);
    assert_eq!(state.increment(64), 1);
    assert_eq!(state.index(), 2);
    assert_eq!(state.base_offset(), 48);
    let mut buffer = vec![7u8; 5];
    state.end(&mut buffer, 8);
    assert_eq!(buffer, vec![7, 7, 7, 7, 7, 0, 0, 0]);
    assert!(matches!(state, ShaderBindingTableState::Recorded { base_offset: 48, index: 2 }));
    state.end(&mut buffer, 16);
    assert_eq!(buffer.len(), 8);
}

#[test]
fn stages_are_closed_once() {
    let mut state = ShaderBindingTableState::NotSet;
    let mut buffer: Vec<u8> = vec![1, 2, 3];
    state.end(&mut buffer, 8);
    assert_eq!((state, buffer.len()), (ShaderBindingTableState::NotSet, 3));
    assert_eq!(state.increment(0), 0);
    assert_eq!(state.increment(9), 1);
    state.end(&mut buffer, 8);
    let closed = ShaderBindingTableState::Recorded { base_offset: 0, index: 2 };
    assert_eq!(state, closed);
    assert_eq!(buffer, vec![1, 2, 3, 0, 0, 0, 0, 0]);
    buffer.push(4);
    state.end(&mut buffer, 8);
    assert_eq!((state, buffer.len()), (closed, 9));
    assert_eq!((state.index(), state.base_offset()), (2, 0));
}

#[test]
fn old_tables_leave_nothing_behind() {
    let fill = |mut t: ShaderBindingTable| {
        assert!(t.buffer().is_empty());
        assert!(t.takes_more(SbtStage::Callable));
        assert_eq!(t.push_callable(0, &[]), 0);
        assert_eq!(t.push_callable(0, &[]), 1);
        assert!(t.takes_more(SbtStage::Callable));
        assert_eq!(t.push_hitgroup(2, &[1; 8]), 0);
        // Another stage has followed.
        assert!(!t.takes_more(SbtStage::Callable));
        assert!(t.takes_more(SbtStage::HitGroup));
        assert_eq!(t.push_raygen(0, &[]), 0);
        assert!(!t.takes_more(SbtStage::HitGroup));
        t
    };
    let new = fill(ShaderBindingTable::new_with_mapper(handles(), layout(), 0b101, None));
    let bytes = new.buffer().to_vec();
    let again = fill(ShaderBindingTable::new_with_mapper(handles(), layout(), 0b101, Some(new)));
    assert_eq!(again.buffer(), bytes);
}

#[test]
fn tables_are_filled() {
    let mut t = ShaderBindingTable::new(handles(), layout());
    assert_eq!(t.push_raygen(0, &[]), 0);
    assert_eq!(t.push_miss(1, &[9, 9, 9, 9]), 0);
    assert_eq!(t.push_miss(0, &[8, 8, 8, 8]), 1);
    assert_eq!(t.push_callable(0, &[]), 0);
    assert_eq!(t.push_hitgroup(1, &[1, 2, 3, 4, 5, 6, 7, 8]), 0);
    let expected: Vec<u8> = [
        // The ray generation shader, up to the alignment of a stage.
        [1, 1, 1, 1, 0, 0, 0, 0],
        [0; 8],
        // The miss shaders.
        [3, 3, 3, 3, 9, 9, 9, 9],
        [2, 2, 2, 2, 8, 8, 8, 8],
        // The callable shader.
        [4, 4, 4, 4, 0, 0, 0, 0],
        [0; 8],
        // The hit group.
        [6, 6, 6, 6, 1, 2, 3, 4],
        [5, 6, 7, 8, 0, 0, 0, 0],
    ]
    .concat();
    assert_eq!(t.buffer(), expected.as_slice());
    assert_eq!((t.layout().size, t.layout().align), (64, 16));
    let r = t.trace_regions(0, 0x1000);
    assert_eq!(r.raygen, StridedRegion { device_address: 0x1000, stride: 16, size: 16 });
    assert_eq!(r.miss, StridedRegion { device_address: 0x1010, stride: 8, size: 16 });
    assert_eq!(r.callable, StridedRegion { device_address: 0x1020, stride: 8, size: 8 });
    assert_eq!(r.hitgroup, StridedRegion { device_address: 0x1030, stride: 16, size: 16 });

    let mut encoder = CommandEncoder::new(EncoderFeatures {
        api_version: Version::new(0, 1, 3, 0),
        multi_draw: false,
        mesh_shader: false,
    });
    encoder.trace_rays(&t, 0, 0x1000, 640, 480, 1);
    assert_eq!(encoder.commands.len(), 1);
    assert!(matches!(
        &encoder.commands[0],
        Command::TraceRays { regions, x: 640, y: 480, z: 1 } if *regions == r
    ));
}

#[test]
fn acceleration_structures_fill_their_buffers() {
    let buffer = BufferRegion { buffer: 9, offset: 256, size: 1024 };
    let info = AccelStructInfo::on_buffer(buffer, vk::ACCELERATION_STRUCTURE_TYPE_BOTTOM_LEVEL);
    assert_eq!((info.ty, info.size, info.offset, info.buffer), (1, 1024, 256, 9));
    let structure = AccelStruct::create_on_buffer(buffer, 5, 0x4000, 2);
    assert_eq!(structure.raw, 5);
    assert_eq!(structure.flags(), 2);
    assert_eq!(structure.device_address(), 0x4000);
    assert_eq!(structure.size(), 1024);
}

#[test]
fn hit_groups_are_renumbered() {
    // Of the groups 0 to 5 the pipeline has those with a bit: 1 and 4.
    let mut t = ShaderBindingTable::new_with_mapper(handles(), layout(), 0b010010, None);
    t.push_hitgroup(1, &[0; 8]);
    t.push_hitgroup(4, &[0; 8]);
    assert_eq!(&t.buffer()[0..4], &[5; 4]);
    assert_eq!(&t.buffer()[16..20], &[6; 4]);
    // A table made in place of another begins empty.
    let again = ShaderBindingTable::new_with_mapper(handles(), layout(), u64::MAX, Some(t));
    assert!(again.buffer().is_empty());
    let mut full = ShaderBindingTable::new(handles(), layout());
    full.push_hitgroup(1, &[0; 8]);
    assert_eq!(&full.buffer()[0..4], &[6; 4]);
}

fn shader(path: &str) -> Shader {
    Shader { path: String::from(path), entry_point: String::from("main"), flags: 0 }
}

#[test]
fn ray_tracing_pipelines_are_planned() {
    let config = RayTracingPipelineConfig {
        stages: vec![
            RayTracingStage::HitGroup {
                ty: HitGroupType::Triangles,
                intersection: HitgroupShader::Unused,
                any_hit: HitgroupShader::Reused(String::from("alpha")),
                closest_hit: HitgroupShader::Singleton(shader("closest")),
                param_size: 8,
            },
            RayTracingStage::Miss { shader: shader("miss"), param_size: 4 },
            RayTracingStage::RayGen { shader: shader("raygen"), param_size: 0 },
            RayTracingStage::HitGroup {
                ty: HitGroupType::Aabbs,
                intersection: HitgroupShader::Singleton(shader("box")),
                any_hit: HitgroupShader::Unused,
                closest_hit: HitgroupShader::Unused,
                param_size: 16,
            },
            RayTracingStage::Callable { shader: shader("callable"), param_size: 12 },
        ],
        shaders: vec![(String::from("alpha"), shader("alpha_test"))],
        disable_optimization: true,
        dispatch_base: false,
        limits: RayTracingLimits {
            max_ray_recursion_depth: 3,
            max_ray_payload_size: 16,
            max_hit_attribute_size: 8,
            dynamic_stack_size: true,
        },
    };
    assert!(is_plannable(&config));
    let plan = ray_tracing_plan(&config, true, SbtLayout::new(32, 64, 32));
    assert_eq!(
        plan.flags,
        vk::PIPELINE_CREATE_LIBRARY_KHR | vk::PIPELINE_CREATE_DISABLE_OPTIMIZATION
    );
    let shaders: Vec<(&str, u32)> =
        plan.shaders.iter().map(|s| (s.path.as_str(), s.stage)).collect();
    assert_eq!(
        shaders,
        vec![
            ("raygen", vk::SHADER_STAGE_RAYGEN_KHR),
            ("miss", vk::SHADER_STAGE_MISS_KHR),
            ("callable", vk::SHADER_STAGE_CALLABLE_KHR),
            ("alpha_test", vk::SHADER_STAGE_ANY_HIT_KHR),
            ("closest", vk::SHADER_STAGE_CLOSEST_HIT_KHR),
            ("box", vk::SHADER_STAGE_INTERSECTION_KHR),
        ]
    );
    let unused = vk::SHADER_UNUSED;
    let general = |i: u32| ShaderGroup {
        ty: vk::RAY_TRACING_SHADER_GROUP_TYPE_GENERAL,
        general_shader: i,
        closest_hit_shader: unused,
        any_hit_shader: unused,
        intersection_shader: unused,
    };
    assert_eq!(
        plan.groups,
        vec![
            general(0),
            general(1),
            general(2),
            ShaderGroup {
                ty: vk::RAY_TRACING_SHADER_GROUP_TYPE_TRIANGLES_HIT_GROUP,
                general_shader: unused,
                closest_hit_shader: 4,
                any_hit_shader: 3,
                intersection_shader: unused,
            },
            ShaderGroup {
                ty: vk::RAY_TRACING_SHADER_GROUP_TYPE_PROCEDURAL_HIT_GROUP,
                general_shader: unused,
                closest_hit_shader: unused,
                any_hit_shader: unused,
                intersection_shader: 5,
            },
        ]
    );
    assert_eq!(plan.sbt_layout.raygen.count, 1);
    assert_eq!(plan.sbt_layout.miss.count, 1);
    assert_eq!(plan.sbt_layout.callable.count, 1);
    assert_eq!(plan.sbt_layout.hitgroup.count, 2);
    assert_eq!(plan.sbt_layout.hitgroup.param_size, 16);
    assert_eq!(plan.sbt_layout.miss.param_size, 4);
    assert_eq!(plan.sbt_layout.handle_size, 32);

    let entry =
        ShaderEntry { flags: 0, stage: 0x100, module: 5, entry: 6, specialization_info: 7 };
    assert!(library_create_info(&plan, false, 77, vec![entry; 6]).is_none());
    let info = library_create_info(&plan, true, 77, vec![entry; 6]).unwrap();
    assert_eq!((info.flags, info.layout), (plan.flags, 77));
    assert_eq!(info.max_ray_recursion_depth, 3);
    assert_eq!((info.max_ray_payload_size, info.max_hit_attribute_size), (16, 8));
    assert!(info.dynamic_stack_size);
    assert_eq!((info.shaders.len(), &info.groups), (6, &plan.groups));

    let again = ray_tracing_plan(&config, false, SbtLayout::new(32, 64, 32));
    let library: RayTracingPipelineLibrary<u64, u64> =
        ray_tracing_library(plan, false, 77, Some(5));
    assert!(library.is_monolithic());
    let (_, layout, shaders, groups) = library.inline_data();
    assert_eq!((*layout, shaders.len(), groups.len()), (77, 6, 5));
    assert_eq!(library.max_ray_recursion_depth, 3);
    assert_eq!((library.max_ray_payload_size, library.max_hit_attribute_size), (16, 8));
    assert!(library.dynamic_stack_size);
    let real: RayTracingPipelineLibrary<u64, u64> = ray_tracing_library(again, true, 77, Some(5));
    assert_eq!(real.sbt_layout, library.sbt_layout);
    assert!(!real.is_monolithic());
    assert_eq!(*real.pipeline(), 5);
}

#[test]
fn pipelines_are_described() {
    let libraries = vec![
        PipelineLibrary { layout: 1, handle: 10 },
        PipelineLibrary { layout: 2, handle: 20 },
    ];
    let linked = create_ray_tracing_pipeline(&libraries, 3, 32, 8, true);
    assert_eq!(linked.layout, 1);
    assert_eq!(linked.libraries, vec![10, 20]);
    assert_eq!(linked.library_interface, Some((32, 8)));
    assert_eq!(
        linked.dynamic_states,
        vec![vk::DYNAMIC_STATE_RAY_TRACING_PIPELINE_STACK_SIZE_KHR]
    );
    let entry =
        ShaderEntry { flags: 0, stage: 0x100, module: 5, entry: 6, specialization_info: 7 };
    let group = ShaderGroup {
        ty: 0,
        general_shader: 0,
        closest_hit_shader: vk::SHADER_UNUSED,
        any_hit_shader: vk::SHADER_UNUSED,
        intersection_shader: vk::SHADER_UNUSED,
    };
    let info = RayTracingPipelineLibraryCreateInfo {
        flags: 9,
        layout: 4,
        max_ray_recursion_depth: 2,
        max_ray_payload_size: 16,
        max_hit_attribute_size: 12,
        dynamic_stack_size: false,
        shaders: vec![entry],
        groups: vec![group],
    };
    let alone = create_ray_tracing_pipeline_monolithic(&info);
    assert_eq!((alone.flags, alone.layout, alone.max_ray_recursion_depth), (9, 4, 2));
    assert_eq!(alone.library_interface, None);
    assert_eq!(alone.stages, vec![entry]);
    assert_eq!(alone.groups, vec![group]);
    assert!(alone.dynamic_states.is_empty());
    let library = create_ray_tracing_pipeline_library(&info);
    assert_eq!(library.library_interface, Some((16, 12)));
    assert_eq!(library.stages, vec![entry]);
    assert!(library.libraries.is_empty());
}

#[test]
fn structures_have_buffers() {
    let (usage, name) = accel_struct_buffer(vk::ACCELERATION_STRUCTURE_TYPE_TOP_LEVEL);
    let (same_usage, other) = accel_struct_buffer(vk::ACCELERATION_STRUCTURE_TYPE_BOTTOM_LEVEL);
    assert_ne!(usage & vk::BUFFER_USAGE_ACCELERATION_STRUCTURE_STORAGE_KHR, 0);
    assert_eq!(usage, same_usage);
    assert_ne!(name, other);
}

fn triangles(primitive_count: u32) -> BLASBuildGeometry {
    BLASBuildGeometry::Triangles {
        vertex_format: 106,
        vertex_address: 0x100,
        vertex_stride: 12,
        max_vertex: 7,
        index_type: vk::INDEX_TYPE_UINT32,
        index_address: 0x200,
        flags: 1,
        primitive_count,
    }
}

fn request(entity: u64, flags: u32, geometries: Vec<BLASBuildGeometry>, scratch: u64) -> BuildRequest {
    BuildRequest { entity, flags, geometries, size: 1000 + entity, scratch_size: scratch }
}

#[test]
fn builds_are_batched() {
    assert_eq!(next_batch(0, true, DEFAULT_BATCH_SIZE), None);
    assert_eq!(next_batch(5, false, DEFAULT_BATCH_SIZE), None);
    assert_eq!(next_batch(5, true, DEFAULT_BATCH_SIZE), Some(5));
    assert_eq!(next_batch(50, true, DEFAULT_BATCH_SIZE), Some(32));

    let compact = default_build_flags();
    assert_eq!(
        compact,
        vk::BUILD_ACCELERATION_STRUCTURE_PREFER_FAST_TRACE
            | vk::BUILD_ACCELERATION_STRUCTURE_ALLOW_COMPACTION
    );
    let boxes =
        BLASBuildGeometry::Aabbs { address: 0x300, stride: 24, flags: 2, primitive_count: 4 };
    let requests = vec![
        request(1, compact, vec![triangles(10), boxes], 100),
        request(2, 0, vec![triangles(20)], 64),
        request(3, compact, vec![], 1),
    ];
    let batch = plan_batch(&requests, 64);
    assert_eq!(batch.primitive_counts, vec![10, 4, 20]);
    assert_eq!(batch.geometries.len(), 3);
    assert_eq!(batch.geometries[0].geometry_type, vk::GEOMETRY_TYPE_TRIANGLES);
    assert_eq!(batch.geometries[0].index_address, 0x200);
    assert_eq!(batch.geometries[1].geometry_type, vk::GEOMETRY_TYPE_AABBS);
    assert_eq!(batch.geometries[1].stride, 24);
    let places: Vec<(u64, u32, u32, u64)> = batch
        .builds
        .iter()
        .map(|b| (b.entity, b.first_geometry, b.geometry_count, b.scratch_offset))
        .collect();
    assert_eq!(places, vec![(1, 0, 2, 0), (2, 2, 1, 128), (3, 3, 0, 192)]);
    assert!(batch.scratch_size >= 193);
    assert_eq!(batch.compaction, vec![0, 2]);
    assert_eq!(compaction_queries(&batch), Some(2));
    let barriers = build_barriers(&batch);
    assert_eq!(
        barriers.before_builds,
        MemoryBarrier {
            from: Access::AllCommands,
            to: Access::AccelerationStructureBuildRead,
        }
    );
    let masks = |access| Access::Masks {
        stage: vk::PIPELINE_STAGE_2_ACCELERATION_STRUCTURE_BUILD_KHR,
        access,
    };
    assert_eq!(
        barriers.before_queries,
        Some(MemoryBarrier {
            from: masks(vk::ACCESS_2_ACCELERATION_STRUCTURE_WRITE_KHR),
            to: masks(vk::ACCESS_2_ACCELERATION_STRUCTURE_READ_KHR),
        })
    );
    assert_eq!(build_barriers(&plan_batch(&vec![], 64)).before_queries, None);
    let plain = vec![request(2, 0, vec![triangles(20)], 64)];
    assert_eq!(compaction_queries(&plan_batch(&plain, 64)), None);
    assert_eq!(scratch_addresses(&batch, 0x1000), vec![0x1000, 0x1080, 0x10C0]);
    assert_eq!(geometry_info(&triangles(3)).1, 3);

    let flags: Vec<u32> = requests.iter().map(|r| r.flags).collect();
    assert_eq!(drain_built(&flags, &vec![500, 600]), vec![Some(500), None, Some(600)]);
}

#[test]
fn structures_are_compacted() {
    assert!(plan_compaction(&vec![]).is_none());
    let list = vec![CompactionRequest { entity: 4, source: 9, flags: 6, compacted_size: 256 }];
    let copies = plan_compaction(&list).unwrap();
    assert_eq!(copies.len(), 1);
    assert_eq!((copies[0].entity, copies[0].source, copies[0].size), (4, 9, 256));
    assert_eq!(copies[0].mode, vk::COPY_ACCELERATION_STRUCTURE_MODE_COMPACT);
}

#[test]
fn finished_work_is_drained_in_order() {
    let mut queue: WorkQueue<u32> = WorkQueue::new();
    for i in 0..4 {
        queue.push(i);
    }
    assert_eq!(queue.drain(&[true, true, false, true]), vec![0, 1]);
    assert_eq!(queue.drain(&[false, true]), Vec::<u32>::new());
    queue.push(7);
    assert_eq!(queue.drain(&[true, true, true]), vec![2, 3, 7]);
    assert_eq!(queue.drain(&[]), Vec::<u32>::new());
    assert_eq!(SCRATCH_BUFFER_USAGE, 0x20020);
}

#[test]
fn entities_are_built_one_at_a_time() {
    let buffer = BufferRegion { buffer: 1, offset: 0, size: 4096 };
    let mut entity = EntityBlas::new();
    assert!(entity.can_build());
    assert_eq!(entity.compaction(), None);
    entity.submit_build();
    assert!(!entity.can_build());
    let structure = AccelStruct::create_on_buffer(buffer, 5, 0x4000, default_build_flags());
    entity.finish_build(structure, 1000);
    assert!(entity.can_build());
    assert_eq!(entity.compaction(), Some((structure, 1000)));
    // Nothing is compacted while the entity is built again.
    entity.submit_build();
    assert_eq!(entity.compaction(), None);
    entity.finish_build(structure, 900);
    assert_eq!(entity.compaction(), Some((structure, 900)));
    entity.submit_compaction();
    assert_eq!(entity.compaction(), None);
    let small = AccelStruct::create_on_buffer(buffer, 6, 0x8000, structure.flags());
    entity.finish_compaction(small);
    assert_eq!(entity.blas, Some(small));
    assert_eq!(entity.compaction(), None);

    let mut plain = EntityBlas::new();
    plain.submit_build();
    plain.finish_build(AccelStruct::create_on_buffer(buffer, 7, 0, 0), 10);
    assert_eq!(plain.compaction(), None);
    assert_eq!(plain.needs_compaction, None);
}

#[test]
fn configurations_are_checked() {
    let entry = |name: &str| Shader {
        path: String::from("shader.spv"),
        entry_point: String::from(name),
        flags: 0,
    };
    let of = |stages: Vec<RayTracingStage>| RayTracingPipelineConfig {
        stages,
        shaders: vec![
            (String::from("alpha"), entry("alpha_test")),
            (String::from("beta"), entry("a\0b")),
        ],
        disable_optimization: false,
        dispatch_base: false,
        limits: RayTracingLimits {
            max_ray_recursion_depth: 3,
            max_ray_payload_size: 16,
            max_hit_attribute_size: 8,
            dynamic_stack_size: true,
        },
    };
    let hit = |name: &str| RayTracingStage::HitGroup {
        ty: HitGroupType::Triangles,
        intersection: HitgroupShader::Unused,
        any_hit: HitgroupShader::Unused,
        closest_hit: HitgroupShader::Reused(String::from(name)),
        param_size: 0,
    };
    let miss = |name: &str| RayTracingStage::Miss { shader: entry(name), param_size: 0 };
    assert!(is_plannable(&of(vec![hit("alpha"), miss("miss")])));
    // There is no such shader.
    assert!(!is_plannable(&of(vec![hit("gamma")])));
    // The entry points cannot be named.
    assert!(!is_plannable(&of(vec![hit("beta")])));
    assert!(!is_plannable(&of(vec![miss("m\0")])));
    // A table counts to 255 for each kind.
    assert!(is_plannable(&of((0..255).map(|_| miss("m")).collect())));
    assert!(!is_plannable(&of((0..256).map(|_| miss("m")).collect())));
    let mixed = (0..300).map(|i| if i % 2 == 0 { miss("m") } else { hit("alpha") });
    assert!(is_plannable(&of(mixed.collect())));
}
