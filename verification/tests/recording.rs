//! Recording of commands, ring buffers, staging and queries.

use pumicite::command::{
    BufferRegion, ClearValue, Command, CommandEncoder, CommandEncoderRenderPassState, Depth,
    DepthStencil, DescriptorWrite, EncoderFeatures, FloatColor, IndexRange, IntoClearValue,
    MultiDrawIndexedInfo, MultiDrawInfo,
};
use pumicite::graphics::{Rect2D, Viewport};
use pumicite::memory::MemoryTypeMap;
use pumicite::query::QueryPool;
use pumicite::staging::{
    AsyncTransferGuard, BufferInitializer, DeviceLocalRingBuffer, Flush, HostVisibleRingBuffer,
    Initialization, StagingBeltPlugin, UniformRingBuffer,
};
use pumicite::plugin::render_set_color;
use pumicite::system::{
    render_set_label, RenderSetSharedState, RingBuffer, SubmissionState, SubmissionStates,
};
use pumicite::version::Version;
use pumicite::vk;

#[test]
fn test_len() {
    let mut buf: RingBuffer<usize, 3> = RingBuffer::new();
    buf.push(12);
    assert_eq!(buf.len(), 1);
    assert_eq!(*buf.peek(), 12);

    buf.push(23);
    assert_eq!(buf.len(), 2);
    assert_eq!(*buf.peek(), 12);

    buf.push(34);
    assert_eq!(buf.len(), 3);
    assert_eq!(buf.pop(), 12);
    assert_eq!(buf.pop(), 23);
    assert_eq!(buf.pop(), 34);
}

#[test]
fn ring_buffers_wrap_around() {
    let mut buf: RingBuffer<u8, 2> = RingBuffer::new();
    assert!(buf.is_empty());
    assert_eq!(buf.try_pop(), None);
    assert_eq!(buf.pop_if_full(), None);
    buf.push(1);
    assert_eq!(buf.pop_if_full(), None);
    buf.push(2);
    assert!(buf.is_full());
    assert_eq!(buf.pop_if_full(), Some(1));
    buf.push(3);
    *buf.peek_mut() = 9;
    assert_eq!(buf.len(), 2);
    assert_eq!(buf.try_pop(), Some(9));
    assert_eq!(buf.pop(), 3);
    assert!(buf.is_empty());
}

fn features(multi_draw: bool) -> EncoderFeatures {
    EncoderFeatures { api_version: Version::new(0, 1, 3, 0), multi_draw, mesh_shader: true }
}

fn range(start: u32, end: u32) -> IndexRange {
    IndexRange { start, end }
}

fn region(buffer: u64, offset: u64, size: u64) -> BufferRegion {
    BufferRegion { buffer, offset, size }
}

#[test]
fn clear_values_are_told_apart() {
    assert_eq!(FloatColor([1, 2, 3, 4]).into_clear_value(), ClearValue::Float([1, 2, 3, 4]));
    assert_eq!([1u32, 2, 3, 4].into_clear_value(), ClearValue::Uint([1, 2, 3, 4]));
    assert_eq!([-1i32, 2, 3, 4].into_clear_value(), ClearValue::Int([-1, 2, 3, 4]));
    assert_eq!(
        DepthStencil { depth: 5, stencil: 6 }.into_clear_value(),
        ClearValue::DepthStencil { depth: 5, stencil: 6 }
    );
    assert_eq!(Depth(5).into_clear_value(), ClearValue::DepthStencil { depth: 5, stencil: 0 });
}

#[test]
fn render_passes_are_opened_and_closed() {
    let mut encoder = CommandEncoder::new(features(true));
    assert!(encoder.continue_rendering().is_none());
    {
        let mut builder =
            encoder.begin_rendering().render_area(1, 2, 30, 40).layer_count(2).view_mask(0);
        {
            let mut color = builder.color_attachment(1);
            color.view(77);
            color.load(true);
            color.store(true);
            color.image_layout(5);
            color.resolve_mode(1);
            color.resolve_view(78);
        }
        {
            let mut color = builder.color_attachment(0);
            color.view(76);
            color.clear(FloatColor([0, 0, 0, 1]));
            color.store(false);
        }
        {
            let mut depth = builder.depth_attachment();
            depth.view(80);
            depth.clear(Depth(3));
        }
        builder.stencil_attachment().view(81);
        let pass = builder.begin();
        assert_eq!(pass.render_area(), Rect2D { x: 1, y: 2, width: 30, height: 40 });
    }
    assert!(matches!(
        encoder.render_pass_state(),
        CommandEncoderRenderPassState::InsideRenderPass { render_area } if render_area.width == 30
    ));
    {
        let mut pass = encoder.continue_rendering().unwrap();
        pass.bind_pipeline(5);
        pass.end();
    }
    assert!(matches!(
        encoder.render_pass_state(),
        CommandEncoderRenderPassState::OutsideRenderPass
    ));
    assert_eq!(encoder.commands.len(), 3);
    match &encoder.commands[0] {
        Command::BeginRendering(info) => {
            assert_eq!(info.layer_count, 2);
            assert_eq!(info.color_attachments.len(), 2);
            let first = info.color_attachments[0];
            assert_eq!(first.image_view, 76);
            assert_eq!(first.load_op, vk::ATTACHMENT_LOAD_OP_CLEAR);
            assert_eq!(first.clear_value, ClearValue::Float([0, 0, 0, 1]));
            assert_eq!(first.image_layout, vk::IMAGE_LAYOUT_GENERAL);
            let second = info.color_attachments[1];
            assert_eq!(second.image_view, 77);
            assert_eq!(second.load_op, vk::ATTACHMENT_LOAD_OP_LOAD);
            assert_eq!(second.store_op, vk::ATTACHMENT_STORE_OP_STORE);
            assert_eq!((second.resolve_mode, second.resolve_image_view), (1, 78));
            assert_eq!(second.image_layout, 5);
            let depth = info.depth_attachment.unwrap();
            assert_eq!(depth.image_view, 80);
            assert_eq!(depth.clear_value, ClearValue::DepthStencil { depth: 3, stencil: 0 });
            assert_eq!(info.stencil_attachment.unwrap().image_view, 81);
        }
        _ => panic!("a render pass was expected"),
    }
    assert!(matches!(encoder.commands[1], Command::BindPipeline(5)));
    assert!(matches!(encoder.commands[2], Command::EndRendering));
    encoder.reset();
    assert!(encoder.commands.is_empty());
}

/// What is recorded inside of a render pass.
fn recorded(features: EncoderFeatures, record: impl Fn(&mut CommandEncoder)) -> Vec<Command> {
    let mut encoder = CommandEncoder::new(features);
    let mut builder = encoder.begin_rendering();
    builder.color_attachment(0).view(1);
    builder.begin();
    record(&mut encoder);
    encoder.commands.drain(..1);
    encoder.commands
}

#[test]
fn state_is_bound() {
    let commands = recorded(features(true), |e| {
        let mut pass = e.continue_rendering().unwrap();
        pass.bind_vertex_buffers(1, &[region(5, 16, 100), region(6, 0, 50)]);
        pass.bind_index_buffer(region(7, 8, 64), 4, vk::INDEX_TYPE_UINT16);
        pass.set_viewport(
            0,
            vec![Viewport { x: 0, y: 0, width: 1, height: 2, min_depth: 0, max_depth: 3 }],
        );
        pass.set_scissor(1, vec![Rect2D { x: 0, y: 0, width: 9, height: 9 }]);
        pass.push_descriptor_set(
            3,
            0,
            vec![DescriptorWrite {
                binding: 0,
                descriptor_type: 1,
                image_view: 2,
                image_layout: 3,
                sampler: 4,
            }],
        );
    });
    match &commands[0] {
        Command::BindVertexBuffers { first_binding, handles, offsets, sizes } => {
            assert_eq!(*first_binding, 1);
            assert_eq!(handles, &vec![5, 6]);
            assert_eq!(offsets, &vec![16, 0]);
            assert_eq!(sizes.as_ref().unwrap(), &vec![100, 50]);
        }
        _ => panic!("vertex buffers were expected"),
    }
    assert!(matches!(
        commands[1],
        Command::BindIndexBuffer { buffer: 7, offset: 12, index_type: vk::INDEX_TYPE_UINT16 }
    ));
    assert!(matches!(&commands[2], Command::SetViewport { first: 0, viewports } if viewports[0].max_depth == 3));
    assert!(matches!(&commands[3], Command::SetScissor { first: 1, scissors } if scissors[0].width == 9));
    assert!(matches!(&commands[4], Command::PushDescriptorSet { layout: 3, set: 0, writes } if writes[0].sampler == 4));
    // Before version 1.3 buffers are bound without their sizes.
    let old = EncoderFeatures {
        api_version: Version::new(0, 1, 2, 0),
        multi_draw: false,
        mesh_shader: false,
    };
    let commands = recorded(old, |e| {
        e.continue_rendering().unwrap().bind_vertex_buffers(0, &[region(5, 16, 100)]);
    });
    assert!(matches!(&commands[0], Command::BindVertexBuffers { sizes: None, .. }));
}

#[test]
fn draws_are_recorded() {
    let commands = recorded(features(true), |e| {
        let mut pass = e.continue_rendering().unwrap();
        pass.draw(range(3, 9), range(0, 2));
        pass.draw_indexed(range(6, 12), range(1, 2), -4);
        pass.draw_indirect(region(5, 16, 100), 2, 16);
        pass.draw_indexed_indirect(region(5, 32, 100), 3, 20);
        pass.draw_indirect_count(region(5, 0, 100), region(6, 8, 4), 9, 16);
        pass.draw_indexed_indirect_count(region(5, 0, 200), region(6, 12, 4), 9, 20);
        pass.draw_mesh_tasks(1, 2, 3);
        pass.draw_mesh_tasks_indirect(region(5, 48, 100), 4, 12);
        pass.draw_mesh_tasks_indirect_count(region(5, 0, 200), region(6, 16, 4), 9, 12);
    });
    assert!(matches!(
        commands[0],
        Command::Draw { vertex_count: 6, instance_count: 2, first_vertex: 3, first_instance: 0 }
    ));
    assert!(matches!(
        commands[1],
        Command::DrawIndexed {
            index_count: 6,
            instance_count: 1,
            first_index: 6,
            vertex_offset: -4,
            first_instance: 1,
        }
    ));
    assert!(matches!(commands[2], Command::DrawIndirect(d) if (d.buffer, d.offset, d.draw_count, d.stride) == (5, 16, 2, 16)));
    assert!(matches!(commands[3], Command::DrawIndexedIndirect(d) if d.draw_count == 3 && d.offset == 32));
    assert!(matches!(commands[4], Command::DrawIndirectCount(d) if (d.count_buffer, d.count_offset, d.max_draw_count) == (6, 8, 9)));
    assert!(matches!(commands[5], Command::DrawIndexedIndirectCount(d) if d.stride == 20));
    assert!(matches!(commands[6], Command::DrawMeshTasks { x: 1, y: 2, z: 3 }));
    assert!(matches!(commands[7], Command::DrawMeshTasksIndirect(d) if d.offset == 48));
    assert!(matches!(commands[8], Command::DrawMeshTasksIndirectCount(d) if d.count_offset == 16));
}

#[test]
fn many_draws_are_one_command_where_the_device_can() {
    let draws = || {
        vec![
            MultiDrawInfo { first_vertex: 0, vertex_count: 3 },
            MultiDrawInfo { first_vertex: 9, vertex_count: 6 },
        ]
    };
    let indexed = || {
        vec![
            MultiDrawIndexedInfo { first_index: 0, index_count: 3, vertex_offset: 1 },
            MultiDrawIndexedInfo { first_index: 3, index_count: 6, vertex_offset: 2 },
        ]
    };
    let can = recorded(features(true), |e| {
        let mut pass = e.continue_rendering().unwrap();
        pass.draw_multi(draws(), range(1, 3));
        pass.draw_multi_indexed(indexed(), range(0, 1), Some(7));
    });
    assert_eq!(can.len(), 2);
    assert!(matches!(&can[0], Command::DrawMulti { draws, instance_count: 2, first_instance: 1 } if draws.len() == 2));
    assert!(matches!(&can[1], Command::DrawMultiIndexed { indexed_draws, shared_vertex_offset: Some(7), .. } if indexed_draws.len() == 2));
    let cannot = recorded(features(false), |e| {
        let mut pass = e.continue_rendering().unwrap();
        pass.draw_multi(draws(), range(1, 3));
        pass.draw_multi_indexed(indexed(), range(0, 1), Some(7));
        pass.draw_multi_indexed(indexed(), range(0, 1), None);
    });
    assert_eq!(cannot.len(), 6);
    assert!(matches!(
        cannot[1],
        Command::Draw { vertex_count: 6, instance_count: 2, first_vertex: 9, first_instance: 1 }
    ));
    assert!(matches!(cannot[3], Command::DrawIndexed { first_index: 3, vertex_offset: 7, .. }));
    assert!(matches!(cannot[5], Command::DrawIndexed { first_index: 3, vertex_offset: 2, .. }));
}

#[test]
fn queries_stay_in_their_pool() {
    let pool = QueryPool::new(5, 1000150000, 8);
    assert_eq!(pool.ty(), 1000150000);
    assert_eq!(pool.len(), 8);
    assert!(pool.holds(4, 4));
    assert!(!pool.holds(4, 5));
    assert!(!pool.holds(u32::MAX, 1));
    let r = pool.host_reset(range(2, 5));
    assert_eq!((r.first, r.count), (2, 3));
    let r = pool.get_results(1, 7);
    assert_eq!((r.first, r.count), (1, 7));
    let mut encoder = CommandEncoder::new(features(true));
    encoder.reset_query_pool(&pool, range(0, 8));
    encoder.write_acceleration_structures_properties(vec![9, 10], &pool, 6);
    assert!(matches!(encoder.commands[0], Command::ResetQueryPool { pool: 5, first: 0, count: 8 }));
    assert!(matches!(&encoder.commands[1], Command::WriteAccelerationStructuresProperties { structures, ty: 1000150000, pool: 5, first: 6 } if structures == &vec![9, 10]));
}

#[test]
fn systems_find_their_state() {
    let mut states = SubmissionStates::new();
    assert_eq!(states.state_of("a"), None);
    states.set_system_state("a", 1);
    states.register_system_state_names("Pipe(b, c::d)", 2);
    states.register_system_state_names("e", 3);
    assert_eq!(states.state_of("a"), Some(1));
    assert_eq!(states.state_of("b"), Some(2));
    assert_eq!(states.state_of("c::d"), Some(2));
    assert_eq!(states.state_of("Pipe(b, c::d)"), Some(2));
    assert_eq!(states.state_of("e"), Some(3));
    states.clear_system_states();
    assert_eq!(states.state_of("a"), None);
}

#[test]
fn command_buffers_are_reused() {
    let mut state: RenderSetSharedState<u32> = RenderSetSharedState::new(features(true));
    for i in 0..3 {
        assert_eq!(state.reuse(), None);
        state.start_recording(i);
        let mut submission = SubmissionState { state: &mut state };
        assert!(submission.record().is_some());
        assert!(submission.render().is_none());
        assert_eq!(*submission.state(), CommandEncoderRenderPassState::OutsideRenderPass);
        let buffer = state.finish_recording().unwrap();
        assert_eq!(buffer, i);
        state.note_submitted(buffer);
    }
    // Three are in flight, so the oldest comes back.
    assert_eq!(state.reuse(), Some(0));
    state.start_recording(0);
    state.begin_render_set("crate::sets::Opaque");
    assert!(matches!(
        state.encoder.commands.last(),
        Some(Command::BeginLabel { name, color })
            if name == "Opaque" && *color == render_set_color()
    ));
    let mut submission = SubmissionState { state: &mut state };
    let mut builder = submission.record().unwrap().begin_rendering();
    builder.color_attachment(0).view(1);
    builder.begin();
    assert!(submission.render().is_some());
    assert!(submission.record().is_none());
    // A label is not opened inside a render pass.
    let before = state.encoder.commands.len();
    state.begin_render_set("Other");
    assert_eq!(state.encoder.commands.len(), before);
    state.end_render_set();
    assert_eq!(state.encoder.commands.len(), before + 2);
    assert!(matches!(state.encoder.commands[before], Command::EndRendering));
    assert!(matches!(state.encoder.commands[before + 1], Command::EndLabel));
    assert_eq!(render_set_label("a::b"), "b");
    assert_eq!(render_set_label("a::b\0"), "");
    assert!(SubmissionState { state: &mut state }.render().is_none());
    assert_eq!(state.finish_recording(), Some(0));
    assert_eq!(state.finish_recording(), None);
}

fn memory_types(uniform: u32) -> MemoryTypeMap {
    MemoryTypeMap {
        private: 1,
        host: 2,
        dynamic: 3,
        upload: 4,
        upload_host_visible: false,
        uniform,
    }
}

#[test]
fn staging_buffers_are_configured() {
    let plugin = StagingBeltPlugin::default();
    assert_eq!(plugin.device_local_chunk_size, 64 * 1024 * 1024);
    assert_eq!(plugin.uniform_chunk_size, 512 * 1024);
    assert_eq!(plugin.host_visible_chunk_size, 64 * 1024 * 1024);
    let device = DeviceLocalRingBuffer::new(&memory_types(5), true, false, 1024).0;
    assert_eq!((device.chunk_size, device.memory_type_index), (1024, 1));
    assert_ne!(device.usage & vk::BUFFER_USAGE_ACCELERATION_STRUCTURE_STORAGE_KHR, 0);
    assert_eq!(device.usage & vk::BUFFER_USAGE_SHADER_BINDING_TABLE_KHR, 0);
    assert_eq!(device.name, "DeviceLocalRingBuffer");
    let uniform = UniformRingBuffer::new(&memory_types(5), 64).unwrap().0;
    assert_eq!(uniform.memory_type_index, 5);
    assert_eq!(
        UniformRingBuffer::new(&memory_types(u32::MAX), 64),
        Err(vk::RESULT_ERROR_OUT_OF_DEVICE_MEMORY)
    );
    let host = HostVisibleRingBuffer::new(&memory_types(5), 64).0;
    assert_eq!(host.memory_type_index, 2);
    assert_eq!(host.usage, vk::BUFFER_USAGE_TRANSFER_SRC);
    assert_eq!(UniformRingBuffer::uniform_allocation(&[1, 2, 3], 256), (3, 256));
    let mut memory = vec![0u8; 3];
    let buffer = BufferRegion { buffer: 8, offset: 512, size: 3 };
    let mut uniforms = CommandEncoder::new(features(true));
    UniformRingBuffer::create_uniform(&mut uniforms, buffer, Some(&mut memory), &[1, 2, 3]);
    assert_eq!(memory, vec![1, 2, 3]);
    assert!(uniforms.commands.is_empty());
    UniformRingBuffer::create_uniform(&mut uniforms, buffer, None, &[1, 2, 3]);
    assert!(matches!(
        uniforms.commands.as_slice(),
        [Command::UpdateBuffer { buffer: b, data }] if *b == buffer && data == &[1, 2, 3]
    ));
}

#[test]
fn buffers_are_filled() {
    let direct = BufferInitializer { host_visible: true };
    let staged = BufferInitializer { host_visible: false };
    assert_eq!(direct.create_preinitialized_buffer(0, 4), Initialization::Nothing);
    assert_eq!(direct.create_preinitialized_buffer(8, 4), Initialization::Direct);
    assert_eq!(
        staged.create_preinitialized_buffer(8, 4),
        Initialization::Staged { size: 8, align: 4, lock_stage: Some(vk::PIPELINE_STAGE_2_COPY) }
    );
    assert_eq!(
        staged.create_preinitialized_buffer_retained(8, 4),
        Initialization::Staged { size: 8, align: 4, lock_stage: None }
    );
    assert_eq!(staged.create_preinitialized_buffer_retained(0, 4), Initialization::Nothing);
}

#[test]
fn transfers_wait_for_the_one_before() {
    let mut guard: AsyncTransferGuard<&str, u32> = AsyncTransferGuard::new("first");
    assert!(!guard.has_pending());
    assert!(matches!(guard.flush(false), Flush::Submit));
    assert_eq!(guard.replace_encoder("second"), "first");
    guard.note_submitted(7);
    assert!(guard.has_pending());
    assert!(matches!(guard.flush(false), Flush::Wait));
    assert!(matches!(guard.flush(true), Flush::FreeThenSubmit(7)));
    assert!(!guard.has_pending());
    guard.note_submitted(8);
    assert_eq!(guard.submit(), (Some(8), "second"));
}
