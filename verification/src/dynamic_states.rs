//! Which states of a graphics pipeline are left to recording.

use vstd::prelude::*;

use crate::graphics;
use crate::graphics::{
    CountedDynamicState, GraphicsPipelineConfig, OptionalDynamicState, StencilConfig,
    VertexBinding,
};
use crate::vk;

verus! {

/// A state is among those that are set while recording.
pub open spec fn listed(c: GraphicsPipelineConfig, state: i32) -> bool {
    graphics::dynamic_states_of(c).contains(state)
}

/// The operations of a side are left to recording.
pub open spec fn has_dynamic_ops(c: Option<StencilConfig>) -> bool {
    c matches Some(s) && s.ops is Dynamic
}

proof fn lemma_either(a: Seq<i32>, b: Seq<i32>, x: i32)
    ensures
        (a + b).contains(x) <==> a.contains(x) || b.contains(x),
{
    vstd::seq_lib::lemma_seq_concat_contains_all_elements(a, b, x);
}

proof fn lemma_pushed_contains<T>(s: OptionalDynamicState<T>, state: i32, x: i32)
    ensures
        graphics::pushed(s, state).contains(x) <==> x == state && s is Dynamic,
{
    if s is Dynamic {
        assert(graphics::pushed(s, state)[0] == state);
    }
}

proof fn lemma_counted_contains<T>(
    s: CountedDynamicState<T>,
    with_count: i32,
    without_count: i32,
    x: i32,
)
    ensures
        graphics::counted_states(s, with_count, without_count).contains(x) <==> (x == with_count
            && s is Dynamic) || (x == without_count && s is Count),
{
    let list = graphics::counted_states(s, with_count, without_count);
    if !(s is Static) {
        assert(list.contains(list[0]));
    }
}

proof fn lemma_shared_contains(flags: Seq<bool>, state: i32, x: i32)
    ensures
        graphics::shared_state(flags, state).contains(x) <==> x == state && !flags.contains(false),
{
    if !flags.contains(false) {
        assert(graphics::shared_state(flags, state)[0] == state);
    }
}

proof fn lemma_strides_contain(bindings: Seq<VertexBinding>, x: i32)
    ensures
        graphics::stride_states(bindings).contains(x) <==> x
            == vk::DYNAMIC_STATE_VERTEX_INPUT_BINDING_STRIDE && exists|i: int|
            0 <= i < bindings.len() && (#[trigger] bindings[i]).stride is Dynamic,
    decreases bindings.len(),
{
    if bindings.len() > 0 {
        let rest = bindings.drop_last();
        assert(forall|i: int| 0 <= i < rest.len() ==> #[trigger] rest[i] == bindings[i]);
        assert(bindings.last() == bindings[bindings.len() - 1]);
        if exists|i: int| 0 <= i < bindings.len() && (#[trigger] bindings[i]).stride is Dynamic {
            let i = choose|i: int|
                0 <= i < bindings.len() && (#[trigger] bindings[i]).stride is Dynamic;
            if i < rest.len() {
                assert(rest[i].stride is Dynamic);
            }
        }
        lemma_strides_contain(bindings.drop_last(), x);
        lemma_pushed_contains(
            bindings.last().stride,
            vk::DYNAMIC_STATE_VERTEX_INPUT_BINDING_STRIDE,
            x,
        );
        lemma_either(
            graphics::stride_states(bindings.drop_last()),
            graphics::pushed(bindings.last().stride, vk::DYNAMIC_STATE_VERTEX_INPUT_BINDING_STRIDE),
            x,
        );
    }
}

proof fn lemma_input_assembly_states(c: GraphicsPipelineConfig, x: i32)
    ensures
        graphics::input_assembly_states(c).contains(x) <==> {
            ||| x == vk::DYNAMIC_STATE_PRIMITIVE_TOPOLOGY && c.topology is Dynamic
            ||| x == vk::DYNAMIC_STATE_PRIMITIVE_RESTART_ENABLE
                && c.primitive_restart_enabled is Dynamic
            ||| x == vk::DYNAMIC_STATE_PATCH_CONTROL_POINTS_EXT
                && c.tessellation_patch_control_points is Dynamic
        },
{
    let p0 = graphics::pushed(c.topology, vk::DYNAMIC_STATE_PRIMITIVE_TOPOLOGY);
    let p1 = graphics::pushed(
        c.primitive_restart_enabled,
        vk::DYNAMIC_STATE_PRIMITIVE_RESTART_ENABLE,
    );
    let p2 = graphics::pushed(
        c.tessellation_patch_control_points,
        vk::DYNAMIC_STATE_PATCH_CONTROL_POINTS_EXT,
    );
    lemma_pushed_contains(c.topology, vk::DYNAMIC_STATE_PRIMITIVE_TOPOLOGY, x);
    lemma_pushed_contains(
        c.primitive_restart_enabled,
        vk::DYNAMIC_STATE_PRIMITIVE_RESTART_ENABLE,
        x,
    );
    lemma_pushed_contains(
        c.tessellation_patch_control_points,
        vk::DYNAMIC_STATE_PATCH_CONTROL_POINTS_EXT,
        x,
    );
    let s1 = p0 + p1;
    lemma_either(p0, p1, x);
    let s2 = s1 + p2;
    lemma_either(s1, p2, x);
}

proof fn lemma_rasterization_states(c: GraphicsPipelineConfig, x: i32)
    ensures
        graphics::rasterization_states(c).contains(x) <==> {
            ||| x == vk::DYNAMIC_STATE_DEPTH_CLAMP_ENABLE_EXT && c.depth_clamp_enable is Dynamic
            ||| x == vk::DYNAMIC_STATE_RASTERIZER_DISCARD_ENABLE
                && c.rasterizer_discard_enable is Dynamic
            ||| x == vk::DYNAMIC_STATE_POLYGON_MODE_EXT && c.polygon_mode is Dynamic
            ||| x == vk::DYNAMIC_STATE_CULL_MODE && c.cull_mode is Dynamic
            ||| x == vk::DYNAMIC_STATE_FRONT_FACE && c.front_face is Dynamic
            ||| x == vk::DYNAMIC_STATE_DEPTH_BIAS_ENABLE && c.depth_bias_enable is Dynamic
            ||| x == vk::DYNAMIC_STATE_LINE_WIDTH && c.line_width is Dynamic
            ||| x == vk::DYNAMIC_STATE_DEPTH_BIAS && c.depth_bias is Dynamic
        },
{
    let p0 = graphics::pushed(c.depth_clamp_enable, vk::DYNAMIC_STATE_DEPTH_CLAMP_ENABLE_EXT);
    let p1 = graphics::pushed(
        c.rasterizer_discard_enable,
        vk::DYNAMIC_STATE_RASTERIZER_DISCARD_ENABLE,
    );
    let p2 = graphics::pushed(c.polygon_mode, vk::DYNAMIC_STATE_POLYGON_MODE_EXT);
    let p3 = graphics::pushed(c.cull_mode, vk::DYNAMIC_STATE_CULL_MODE);
    let p4 = graphics::pushed(c.front_face, vk::DYNAMIC_STATE_FRONT_FACE);
    let p5 = graphics::pushed(c.depth_bias_enable, vk::DYNAMIC_STATE_DEPTH_BIAS_ENABLE);
    let p6 = graphics::pushed(c.line_width, vk::DYNAMIC_STATE_LINE_WIDTH);
    let p7 = graphics::pushed(c.depth_bias, vk::DYNAMIC_STATE_DEPTH_BIAS);
    lemma_pushed_contains(c.depth_clamp_enable, vk::DYNAMIC_STATE_DEPTH_CLAMP_ENABLE_EXT, x);
    lemma_pushed_contains(
        c.rasterizer_discard_enable,
        vk::DYNAMIC_STATE_RASTERIZER_DISCARD_ENABLE,
        x,
    );
    lemma_pushed_contains(c.polygon_mode, vk::DYNAMIC_STATE_POLYGON_MODE_EXT, x);
    lemma_pushed_contains(c.cull_mode, vk::DYNAMIC_STATE_CULL_MODE, x);
    lemma_pushed_contains(c.front_face, vk::DYNAMIC_STATE_FRONT_FACE, x);
    lemma_pushed_contains(c.depth_bias_enable, vk::DYNAMIC_STATE_DEPTH_BIAS_ENABLE, x);
    lemma_pushed_contains(c.line_width, vk::DYNAMIC_STATE_LINE_WIDTH, x);
    lemma_pushed_contains(c.depth_bias, vk::DYNAMIC_STATE_DEPTH_BIAS, x);
    let s1 = p0 + p1;
    lemma_either(p0, p1, x);
    let s2 = s1 + p2;
    lemma_either(s1, p2, x);
    let s3 = s2 + p3;
    lemma_either(s2, p3, x);
    let s4 = s3 + p4;
    lemma_either(s3, p4, x);
    let s5 = s4 + p5;
    lemma_either(s4, p5, x);
    let s6 = s5 + p6;
    lemma_either(s5, p6, x);
    let s7 = s6 + p7;
    lemma_either(s6, p7, x);
}

proof fn lemma_multisample_states(c: GraphicsPipelineConfig, x: i32)
    ensures
        graphics::multisample_states(c).contains(x) <==> {
            ||| x == vk::DYNAMIC_STATE_RASTERIZATION_SAMPLES_EXT && c.sample_count is Dynamic
            ||| x == vk::DYNAMIC_STATE_ALPHA_TO_COVERAGE_ENABLE_EXT
                && c.alpha_to_coverage_enable is Dynamic
            ||| x == vk::DYNAMIC_STATE_ALPHA_TO_ONE_ENABLE_EXT && c.alpha_to_one_enable is Dynamic
            ||| x == vk::DYNAMIC_STATE_SAMPLE_MASK_EXT && c.sample_mask is Dynamic
        },
{
    let p0 = graphics::pushed(c.sample_count, vk::DYNAMIC_STATE_RASTERIZATION_SAMPLES_EXT);
    let p1 = graphics::pushed(
        c.alpha_to_coverage_enable,
        vk::DYNAMIC_STATE_ALPHA_TO_COVERAGE_ENABLE_EXT,
    );
    let p2 = graphics::pushed(c.alpha_to_one_enable, vk::DYNAMIC_STATE_ALPHA_TO_ONE_ENABLE_EXT);
    let p3 = graphics::pushed(c.sample_mask, vk::DYNAMIC_STATE_SAMPLE_MASK_EXT);
    lemma_pushed_contains(c.sample_count, vk::DYNAMIC_STATE_RASTERIZATION_SAMPLES_EXT, x);
    lemma_pushed_contains(
        c.alpha_to_coverage_enable,
        vk::DYNAMIC_STATE_ALPHA_TO_COVERAGE_ENABLE_EXT,
        x,
    );
    lemma_pushed_contains(c.alpha_to_one_enable, vk::DYNAMIC_STATE_ALPHA_TO_ONE_ENABLE_EXT, x);
    lemma_pushed_contains(c.sample_mask, vk::DYNAMIC_STATE_SAMPLE_MASK_EXT, x);
    let s1 = p0 + p1;
    lemma_either(p0, p1, x);
    let s2 = s1 + p2;
    lemma_either(s1, p2, x);
    let s3 = s2 + p3;
    lemma_either(s2, p3, x);
}

proof fn lemma_depth_stencil_states(c: GraphicsPipelineConfig, x: i32)
    ensures
        graphics::depth_stencil_states(c).contains(x) <==> {
            ||| x == vk::DYNAMIC_STATE_DEPTH_TEST_ENABLE && c.depth_test_enable is Dynamic
            ||| x == vk::DYNAMIC_STATE_DEPTH_WRITE_ENABLE && c.depth_write_enable is Dynamic
            ||| x == vk::DYNAMIC_STATE_DEPTH_COMPARE_OP
                && graphics::depth_test(c) && c.depth_compare_op is Dynamic
            ||| x == vk::DYNAMIC_STATE_DEPTH_BOUNDS_TEST_ENABLE
                && c.depth_bounds_test_enable is Dynamic
            ||| x == vk::DYNAMIC_STATE_STENCIL_TEST_ENABLE && c.stencil_test_enable is Dynamic
            ||| x == vk::DYNAMIC_STATE_DEPTH_BOUNDS && c.depth_bounds is Dynamic
            ||| x == vk::DYNAMIC_STATE_STENCIL_OP && has_dynamic_ops(c.front_stencil)
            ||| x == vk::DYNAMIC_STATE_STENCIL_OP && has_dynamic_ops(c.back_stencil)
        },
{
    let p0 = graphics::pushed(c.depth_test_enable, vk::DYNAMIC_STATE_DEPTH_TEST_ENABLE);
    let p1 = graphics::pushed(c.depth_write_enable, vk::DYNAMIC_STATE_DEPTH_WRITE_ENABLE);
    let p2 = graphics::depth_compare_states(c);
    let p3 = graphics::pushed(
        c.depth_bounds_test_enable,
        vk::DYNAMIC_STATE_DEPTH_BOUNDS_TEST_ENABLE,
    );
    let p4 = graphics::pushed(c.stencil_test_enable, vk::DYNAMIC_STATE_STENCIL_TEST_ENABLE);
    let p5 = graphics::pushed(c.depth_bounds, vk::DYNAMIC_STATE_DEPTH_BOUNDS);
    let p6 = graphics::stencil_states(c.front_stencil);
    let p7 = graphics::stencil_states(c.back_stencil);
    lemma_pushed_contains(c.depth_test_enable, vk::DYNAMIC_STATE_DEPTH_TEST_ENABLE, x);
    lemma_pushed_contains(c.depth_write_enable, vk::DYNAMIC_STATE_DEPTH_WRITE_ENABLE, x);
    lemma_pushed_contains(c.depth_compare_op, vk::DYNAMIC_STATE_DEPTH_COMPARE_OP, x);
    lemma_pushed_contains(
        c.depth_bounds_test_enable,
        vk::DYNAMIC_STATE_DEPTH_BOUNDS_TEST_ENABLE,
        x,
    );
    lemma_pushed_contains(c.stencil_test_enable, vk::DYNAMIC_STATE_STENCIL_TEST_ENABLE, x);
    lemma_pushed_contains(c.depth_bounds, vk::DYNAMIC_STATE_DEPTH_BOUNDS, x);
    if let Some(s) = c.front_stencil {
        lemma_pushed_contains(s.ops, vk::DYNAMIC_STATE_STENCIL_OP, x);
    }
    if let Some(s) = c.back_stencil {
        lemma_pushed_contains(s.ops, vk::DYNAMIC_STATE_STENCIL_OP, x);
    }
    let s1 = p0 + p1;
    lemma_either(p0, p1, x);
    let s2 = s1 + p2;
    lemma_either(s1, p2, x);
    let s3 = s2 + p3;
    lemma_either(s2, p3, x);
    let s4 = s3 + p4;
    lemma_either(s3, p4, x);
    let s5 = s4 + p5;
    lemma_either(s4, p5, x);
    let s6 = s5 + p6;
    lemma_either(s5, p6, x);
    let s7 = s6 + p7;
    lemma_either(s6, p7, x);
}

proof fn lemma_color_blend_states(c: GraphicsPipelineConfig, x: i32)
    ensures
        graphics::color_blend_states(c).contains(x) <==> {
            ||| x == vk::DYNAMIC_STATE_COLOR_BLEND_ENABLE_EXT
                && !graphics::blend_enable_flags(c.attachments@).contains(false)
            ||| x == vk::DYNAMIC_STATE_COLOR_BLEND_EQUATION_EXT
                && !graphics::blend_equation_flags(c.attachments@).contains(false)
            ||| x == vk::DYNAMIC_STATE_COLOR_WRITE_MASK_EXT
                && !graphics::write_mask_flags(c.attachments@).contains(false)
            ||| x == vk::DYNAMIC_STATE_LOGIC_OP_ENABLE_EXT && c.blend_logic_op_enable is Dynamic
            ||| x == vk::DYNAMIC_STATE_LOGIC_OP_EXT && c.blend_logic_op is Dynamic
            ||| x == vk::DYNAMIC_STATE_BLEND_CONSTANTS && c.blend_constants is Dynamic
        },
{
    let p0 = graphics::shared_state(
        graphics::blend_enable_flags(c.attachments@),
        vk::DYNAMIC_STATE_COLOR_BLEND_ENABLE_EXT,
    );
    let p1 = graphics::shared_state(
        graphics::blend_equation_flags(c.attachments@),
        vk::DYNAMIC_STATE_COLOR_BLEND_EQUATION_EXT,
    );
    let p2 = graphics::shared_state(
        graphics::write_mask_flags(c.attachments@),
        vk::DYNAMIC_STATE_COLOR_WRITE_MASK_EXT,
    );
    let p3 = graphics::pushed(c.blend_logic_op_enable, vk::DYNAMIC_STATE_LOGIC_OP_ENABLE_EXT);
    let p4 = graphics::pushed(c.blend_logic_op, vk::DYNAMIC_STATE_LOGIC_OP_EXT);
    let p5 = graphics::pushed(c.blend_constants, vk::DYNAMIC_STATE_BLEND_CONSTANTS);
    lemma_shared_contains(
        graphics::blend_enable_flags(c.attachments@),
        vk::DYNAMIC_STATE_COLOR_BLEND_ENABLE_EXT,
        x,
    );
    lemma_shared_contains(
        graphics::blend_equation_flags(c.attachments@),
        vk::DYNAMIC_STATE_COLOR_BLEND_EQUATION_EXT,
        x,
    );
    lemma_shared_contains(
        graphics::write_mask_flags(c.attachments@),
        vk::DYNAMIC_STATE_COLOR_WRITE_MASK_EXT,
        x,
    );
    lemma_pushed_contains(c.blend_logic_op_enable, vk::DYNAMIC_STATE_LOGIC_OP_ENABLE_EXT, x);
    lemma_pushed_contains(c.blend_logic_op, vk::DYNAMIC_STATE_LOGIC_OP_EXT, x);
    lemma_pushed_contains(c.blend_constants, vk::DYNAMIC_STATE_BLEND_CONSTANTS, x);
    let s1 = p0 + p1;
    lemma_either(p0, p1, x);
    let s2 = s1 + p2;
    lemma_either(s1, p2, x);
    let s3 = s2 + p3;
    lemma_either(s2, p3, x);
    let s4 = s3 + p4;
    lemma_either(s3, p4, x);
    let s5 = s4 + p5;
    lemma_either(s4, p5, x);
}

/// Some setting that the state stands for is left to recording.
pub open spec fn asks_for(c: GraphicsPipelineConfig, x: i32) -> bool {
    ||| graphics::vertex_input_states(c.vertex_bindings).contains(x)
    ||| graphics::input_assembly_states(c).contains(x)
    ||| graphics::viewport_states(c).contains(x)
    ||| graphics::rasterization_states(c).contains(x)
    ||| graphics::multisample_states(c).contains(x)
    ||| graphics::depth_stencil_states(c).contains(x)
    ||| graphics::color_blend_states(c).contains(x)
}

proof fn lemma_listed(c: GraphicsPipelineConfig, x: i32)
    ensures
        listed(c, x) <==> asks_for(c, x),
{
    let p0 = graphics::vertex_input_states(c.vertex_bindings);
    let p1 = graphics::input_assembly_states(c);
    let p2 = graphics::viewport_states(c);
    let p3 = graphics::rasterization_states(c);
    let p4 = graphics::multisample_states(c);
    let p5 = graphics::depth_stencil_states(c);
    let p6 = graphics::color_blend_states(c);
    lemma_either(p0, p1, x);
    lemma_either(p0 + p1, p2, x);
    lemma_either(p0 + p1 + p2, p3, x);
    lemma_either(p0 + p1 + p2 + p3, p4, x);
    lemma_either(p0 + p1 + p2 + p3 + p4, p5, x);
    lemma_either(p0 + p1 + p2 + p3 + p4 + p5, p6, x);
}

proof fn lemma_first_states(c: GraphicsPipelineConfig, x: i32)
    ensures
        graphics::vertex_input_states(c.vertex_bindings).contains(x) ==> x
            == vk::DYNAMIC_STATE_VERTEX_INPUT_BINDING_STRIDE || (x
            == vk::DYNAMIC_STATE_VERTEX_INPUT_EXT && c.vertex_bindings is Dynamic),
        c.vertex_bindings is Dynamic ==> graphics::vertex_input_states(c.vertex_bindings).contains(
            vk::DYNAMIC_STATE_VERTEX_INPUT_EXT,
        ),
        graphics::viewport_states(c).contains(x) <==> (x == vk::DYNAMIC_STATE_VIEWPORT_WITH_COUNT
            && c.viewports is Dynamic) || (x == vk::DYNAMIC_STATE_VIEWPORT && c.viewports is Count)
            || (x == vk::DYNAMIC_STATE_SCISSOR_WITH_COUNT && c.scissors is Dynamic) || (x
            == vk::DYNAMIC_STATE_SCISSOR && c.scissors is Count),
{
    let whole = graphics::pushed(c.vertex_bindings, vk::DYNAMIC_STATE_VERTEX_INPUT_EXT);
    let strides = graphics::stride_states(graphics::fixed_bindings(c.vertex_bindings));
    lemma_pushed_contains(c.vertex_bindings, vk::DYNAMIC_STATE_VERTEX_INPUT_EXT, x);
    lemma_pushed_contains(
        c.vertex_bindings,
        vk::DYNAMIC_STATE_VERTEX_INPUT_EXT,
        vk::DYNAMIC_STATE_VERTEX_INPUT_EXT,
    );
    lemma_strides_contain(graphics::fixed_bindings(c.vertex_bindings), x);
    lemma_either(whole, strides, x);
    lemma_either(whole, strides, vk::DYNAMIC_STATE_VERTEX_INPUT_EXT);
    lemma_counted_contains(
        c.viewports,
        vk::DYNAMIC_STATE_VIEWPORT_WITH_COUNT,
        vk::DYNAMIC_STATE_VIEWPORT,
        x,
    );
    lemma_counted_contains(
        c.scissors,
        vk::DYNAMIC_STATE_SCISSOR_WITH_COUNT,
        vk::DYNAMIC_STATE_SCISSOR,
        x,
    );
    lemma_either(
        graphics::counted_states(
            c.viewports,
            vk::DYNAMIC_STATE_VIEWPORT_WITH_COUNT,
            vk::DYNAMIC_STATE_VIEWPORT,
        ),
        graphics::counted_states(
            c.scissors,
            vk::DYNAMIC_STATE_SCISSOR_WITH_COUNT,
            vk::DYNAMIC_STATE_SCISSOR,
        ),
        x,
    );
}

/// Some setting that the state stands for, other than a stride, is left to
/// recording.
spec fn is_asked(c: GraphicsPipelineConfig, x: i32) -> bool {
    ||| (x == vk::DYNAMIC_STATE_VERTEX_INPUT_EXT && c.vertex_bindings is Dynamic)
    ||| (x == vk::DYNAMIC_STATE_VIEWPORT_WITH_COUNT && c.viewports is Dynamic)
    ||| (x == vk::DYNAMIC_STATE_VIEWPORT && c.viewports is Count)
    ||| (x == vk::DYNAMIC_STATE_SCISSOR_WITH_COUNT && c.scissors is Dynamic)
    ||| (x == vk::DYNAMIC_STATE_SCISSOR && c.scissors is Count)
    ||| (x == vk::DYNAMIC_STATE_PRIMITIVE_TOPOLOGY && c.topology is Dynamic)
    ||| (x == vk::DYNAMIC_STATE_PRIMITIVE_RESTART_ENABLE && c.primitive_restart_enabled is Dynamic)
    ||| (x == vk::DYNAMIC_STATE_PATCH_CONTROL_POINTS_EXT
        && c.tessellation_patch_control_points is Dynamic)
    ||| (x == vk::DYNAMIC_STATE_DEPTH_CLAMP_ENABLE_EXT && c.depth_clamp_enable is Dynamic)
    ||| (x == vk::DYNAMIC_STATE_RASTERIZER_DISCARD_ENABLE && c.rasterizer_discard_enable is Dynamic)
    ||| (x == vk::DYNAMIC_STATE_POLYGON_MODE_EXT && c.polygon_mode is Dynamic)
    ||| (x == vk::DYNAMIC_STATE_CULL_MODE && c.cull_mode is Dynamic)
    ||| (x == vk::DYNAMIC_STATE_FRONT_FACE && c.front_face is Dynamic)
    ||| (x == vk::DYNAMIC_STATE_DEPTH_BIAS_ENABLE && c.depth_bias_enable is Dynamic)
    ||| (x == vk::DYNAMIC_STATE_LINE_WIDTH && c.line_width is Dynamic)
    ||| (x == vk::DYNAMIC_STATE_DEPTH_BIAS && c.depth_bias is Dynamic)
    ||| (x == vk::DYNAMIC_STATE_RASTERIZATION_SAMPLES_EXT && c.sample_count is Dynamic)
    ||| (x == vk::DYNAMIC_STATE_ALPHA_TO_COVERAGE_ENABLE_EXT
        && c.alpha_to_coverage_enable is Dynamic)
    ||| (x == vk::DYNAMIC_STATE_ALPHA_TO_ONE_ENABLE_EXT && c.alpha_to_one_enable is Dynamic)
    ||| (x == vk::DYNAMIC_STATE_SAMPLE_MASK_EXT && c.sample_mask is Dynamic)
    ||| (x == vk::DYNAMIC_STATE_DEPTH_TEST_ENABLE && c.depth_test_enable is Dynamic)
    ||| (x == vk::DYNAMIC_STATE_DEPTH_WRITE_ENABLE && c.depth_write_enable is Dynamic)
    ||| (x == vk::DYNAMIC_STATE_DEPTH_COMPARE_OP
        && graphics::depth_test(c) && c.depth_compare_op is Dynamic)
    ||| (x == vk::DYNAMIC_STATE_DEPTH_BOUNDS_TEST_ENABLE && c.depth_bounds_test_enable is Dynamic)
    ||| (x == vk::DYNAMIC_STATE_STENCIL_TEST_ENABLE && c.stencil_test_enable is Dynamic)
    ||| (x == vk::DYNAMIC_STATE_DEPTH_BOUNDS && c.depth_bounds is Dynamic)
    ||| (x == vk::DYNAMIC_STATE_STENCIL_OP && has_dynamic_ops(c.front_stencil))
    ||| (x == vk::DYNAMIC_STATE_STENCIL_OP && has_dynamic_ops(c.back_stencil))
    ||| (x == vk::DYNAMIC_STATE_COLOR_BLEND_ENABLE_EXT
        && !graphics::blend_enable_flags(c.attachments@).contains(false))
    ||| (x == vk::DYNAMIC_STATE_COLOR_BLEND_EQUATION_EXT
        && !graphics::blend_equation_flags(c.attachments@).contains(false))
    ||| (x == vk::DYNAMIC_STATE_COLOR_WRITE_MASK_EXT
        && !graphics::write_mask_flags(c.attachments@).contains(false))
    ||| (x == vk::DYNAMIC_STATE_LOGIC_OP_ENABLE_EXT && c.blend_logic_op_enable is Dynamic)
    ||| (x == vk::DYNAMIC_STATE_LOGIC_OP_EXT && c.blend_logic_op is Dynamic)
    ||| (x == vk::DYNAMIC_STATE_BLEND_CONSTANTS && c.blend_constants is Dynamic)
}

proof fn lemma_every_section(c: GraphicsPipelineConfig, x: i32)
    ensures
        listed(c, x) ==> x == vk::DYNAMIC_STATE_VERTEX_INPUT_BINDING_STRIDE || is_asked(c, x),
        is_asked(c, x) ==> listed(c, x),
{
    lemma_listed(c, x);
    lemma_first_states(c, x);
    lemma_input_assembly_states(c, x);
    lemma_rasterization_states(c, x);
    lemma_multisample_states(c, x);
    lemma_depth_stencil_states(c, x);
    lemma_color_blend_states(c, x);
}

/// A setting that is left to recording is listed as a dynamic state, and no
/// other setting is. The operations of both stencil sides are one state, and
/// the blending of attachments is listed where it is left to recording for all
/// of them. Vertex strides are in `law_strides_are_listed_for_their_bindings`,
/// depth comparisons in `law_comparisons_follow_the_test`.
pub proof fn law_listed_settings_are_dynamic(c: GraphicsPipelineConfig)
    ensures
        listed(c, vk::DYNAMIC_STATE_PRIMITIVE_TOPOLOGY) <==> c.topology is Dynamic,
        listed(c, vk::DYNAMIC_STATE_PRIMITIVE_RESTART_ENABLE) <==>
            c.primitive_restart_enabled is Dynamic,
        listed(c, vk::DYNAMIC_STATE_PATCH_CONTROL_POINTS_EXT) <==>
            c.tessellation_patch_control_points is Dynamic,
        listed(c, vk::DYNAMIC_STATE_VERTEX_INPUT_EXT) <==> c.vertex_bindings is Dynamic,
        listed(c, vk::DYNAMIC_STATE_DEPTH_CLAMP_ENABLE_EXT) <==> c.depth_clamp_enable is Dynamic,
        listed(c, vk::DYNAMIC_STATE_RASTERIZER_DISCARD_ENABLE) <==>
            c.rasterizer_discard_enable is Dynamic,
        listed(c, vk::DYNAMIC_STATE_POLYGON_MODE_EXT) <==> c.polygon_mode is Dynamic,
        listed(c, vk::DYNAMIC_STATE_CULL_MODE) <==> c.cull_mode is Dynamic,
        listed(c, vk::DYNAMIC_STATE_FRONT_FACE) <==> c.front_face is Dynamic,
        listed(c, vk::DYNAMIC_STATE_DEPTH_BIAS_ENABLE) <==> c.depth_bias_enable is Dynamic,
        listed(c, vk::DYNAMIC_STATE_LINE_WIDTH) <==> c.line_width is Dynamic,
        listed(c, vk::DYNAMIC_STATE_DEPTH_BIAS) <==> c.depth_bias is Dynamic,
        listed(c, vk::DYNAMIC_STATE_RASTERIZATION_SAMPLES_EXT) <==> c.sample_count is Dynamic,
        listed(c, vk::DYNAMIC_STATE_ALPHA_TO_COVERAGE_ENABLE_EXT) <==>
            c.alpha_to_coverage_enable is Dynamic,
        listed(c, vk::DYNAMIC_STATE_ALPHA_TO_ONE_ENABLE_EXT) <==> c.alpha_to_one_enable is Dynamic,
        listed(c, vk::DYNAMIC_STATE_SAMPLE_MASK_EXT) <==> c.sample_mask is Dynamic,
        listed(c, vk::DYNAMIC_STATE_DEPTH_TEST_ENABLE) <==> c.depth_test_enable is Dynamic,
        listed(c, vk::DYNAMIC_STATE_DEPTH_WRITE_ENABLE) <==> c.depth_write_enable is Dynamic,
        listed(c, vk::DYNAMIC_STATE_DEPTH_BOUNDS_TEST_ENABLE) <==>
            c.depth_bounds_test_enable is Dynamic,
        listed(c, vk::DYNAMIC_STATE_STENCIL_TEST_ENABLE) <==> c.stencil_test_enable is Dynamic,
        listed(c, vk::DYNAMIC_STATE_DEPTH_BOUNDS) <==> c.depth_bounds is Dynamic,
        listed(c, vk::DYNAMIC_STATE_LOGIC_OP_ENABLE_EXT) <==> c.blend_logic_op_enable is Dynamic,
        listed(c, vk::DYNAMIC_STATE_LOGIC_OP_EXT) <==> c.blend_logic_op is Dynamic,
        listed(c, vk::DYNAMIC_STATE_BLEND_CONSTANTS) <==> c.blend_constants is Dynamic,
        listed(c, vk::DYNAMIC_STATE_VIEWPORT_WITH_COUNT) <==> c.viewports is Dynamic,
        listed(c, vk::DYNAMIC_STATE_VIEWPORT) <==> c.viewports is Count,
        listed(c, vk::DYNAMIC_STATE_SCISSOR_WITH_COUNT) <==> c.scissors is Dynamic,
        listed(c, vk::DYNAMIC_STATE_SCISSOR) <==> c.scissors is Count,
        listed(c, vk::DYNAMIC_STATE_STENCIL_OP) <==> has_dynamic_ops(c.front_stencil)
            || has_dynamic_ops(c.back_stencil),
        listed(c, vk::DYNAMIC_STATE_COLOR_BLEND_ENABLE_EXT) <==> !graphics::blend_enable_flags(
            c.attachments@,
        ).contains(false),
        listed(c, vk::DYNAMIC_STATE_COLOR_BLEND_EQUATION_EXT) <==> !graphics::blend_equation_flags(
            c.attachments@,
        ).contains(false),
        listed(c, vk::DYNAMIC_STATE_COLOR_WRITE_MASK_EXT) <==> !graphics::write_mask_flags(
            c.attachments@,
        ).contains(false),
{
    lemma_every_section(c, vk::DYNAMIC_STATE_VERTEX_INPUT_EXT);
    lemma_every_section(c, vk::DYNAMIC_STATE_STENCIL_OP);
    lemma_every_section(c, vk::DYNAMIC_STATE_COLOR_BLEND_ENABLE_EXT);
    lemma_every_section(c, vk::DYNAMIC_STATE_COLOR_BLEND_EQUATION_EXT);
    lemma_every_section(c, vk::DYNAMIC_STATE_COLOR_WRITE_MASK_EXT);
    lemma_every_section(c, vk::DYNAMIC_STATE_VIEWPORT_WITH_COUNT);
    lemma_every_section(c, vk::DYNAMIC_STATE_VIEWPORT);
    lemma_every_section(c, vk::DYNAMIC_STATE_SCISSOR_WITH_COUNT);
    lemma_every_section(c, vk::DYNAMIC_STATE_SCISSOR);
    lemma_every_section(c, vk::DYNAMIC_STATE_PRIMITIVE_TOPOLOGY);
    lemma_every_section(c, vk::DYNAMIC_STATE_PRIMITIVE_RESTART_ENABLE);
    lemma_every_section(c, vk::DYNAMIC_STATE_PATCH_CONTROL_POINTS_EXT);
    lemma_every_section(c, vk::DYNAMIC_STATE_DEPTH_CLAMP_ENABLE_EXT);
    lemma_every_section(c, vk::DYNAMIC_STATE_RASTERIZER_DISCARD_ENABLE);
    lemma_every_section(c, vk::DYNAMIC_STATE_POLYGON_MODE_EXT);
    lemma_every_section(c, vk::DYNAMIC_STATE_CULL_MODE);
    lemma_every_section(c, vk::DYNAMIC_STATE_FRONT_FACE);
    lemma_every_section(c, vk::DYNAMIC_STATE_DEPTH_BIAS_ENABLE);
    lemma_every_section(c, vk::DYNAMIC_STATE_LINE_WIDTH);
    lemma_every_section(c, vk::DYNAMIC_STATE_DEPTH_BIAS);
    lemma_every_section(c, vk::DYNAMIC_STATE_RASTERIZATION_SAMPLES_EXT);
    lemma_every_section(c, vk::DYNAMIC_STATE_ALPHA_TO_COVERAGE_ENABLE_EXT);
    lemma_every_section(c, vk::DYNAMIC_STATE_ALPHA_TO_ONE_ENABLE_EXT);
    lemma_every_section(c, vk::DYNAMIC_STATE_SAMPLE_MASK_EXT);
    lemma_every_section(c, vk::DYNAMIC_STATE_DEPTH_TEST_ENABLE);
    lemma_every_section(c, vk::DYNAMIC_STATE_DEPTH_WRITE_ENABLE);
    lemma_every_section(c, vk::DYNAMIC_STATE_DEPTH_BOUNDS_TEST_ENABLE);
    lemma_every_section(c, vk::DYNAMIC_STATE_STENCIL_TEST_ENABLE);
    lemma_every_section(c, vk::DYNAMIC_STATE_DEPTH_BOUNDS);
    lemma_every_section(c, vk::DYNAMIC_STATE_LOGIC_OP_ENABLE_EXT);
    lemma_every_section(c, vk::DYNAMIC_STATE_LOGIC_OP_EXT);
    lemma_every_section(c, vk::DYNAMIC_STATE_BLEND_CONSTANTS);
}

/// The strides of vertices are a dynamic state where the bindings are fixed and
/// some binding leaves its stride to recording.
pub proof fn law_strides_are_listed_for_their_bindings(c: GraphicsPipelineConfig)
    ensures
        listed(c, vk::DYNAMIC_STATE_VERTEX_INPUT_BINDING_STRIDE) <==> {
            &&& c.vertex_bindings is Static
            &&& exists|i: int|
                0 <= i < (c.vertex_bindings->Static_0)@.len() && (
                #[trigger] (c.vertex_bindings->Static_0)@[i]).stride is Dynamic
        },
{
    let x = vk::DYNAMIC_STATE_VERTEX_INPUT_BINDING_STRIDE;
    lemma_every_section(c, x);
    lemma_listed(c, x);
    lemma_input_assembly_states(c, x);
    lemma_rasterization_states(c, x);
    lemma_multisample_states(c, x);
    lemma_depth_stencil_states(c, x);
    lemma_color_blend_states(c, x);
    lemma_first_states(c, x);
    let strides = graphics::stride_states(graphics::fixed_bindings(c.vertex_bindings));
    lemma_pushed_contains(c.vertex_bindings, vk::DYNAMIC_STATE_VERTEX_INPUT_EXT, x);
    lemma_strides_contain(graphics::fixed_bindings(c.vertex_bindings), x);
    lemma_either(
        graphics::pushed(c.vertex_bindings, vk::DYNAMIC_STATE_VERTEX_INPUT_EXT),
        strides,
        x,
    );
}

/// The blending and the write mask of attachments are dynamic states where every
/// attachment leaves them to recording: one that fixes its own fixes them for all.
pub proof fn law_one_fixed_attachment_fixes_all(c: GraphicsPipelineConfig)
    ensures
        listed(c, vk::DYNAMIC_STATE_COLOR_BLEND_ENABLE_EXT) <==> forall|i: int|
            0 <= i < c.attachments@.len() ==> (#[trigger] c.attachments@[i]).blend_enable is Dynamic,
        listed(c, vk::DYNAMIC_STATE_COLOR_BLEND_EQUATION_EXT) <==> forall|i: int|
            0 <= i < c.attachments@.len() ==> (
            #[trigger] c.attachments@[i]).blend_equation is Dynamic,
        listed(c, vk::DYNAMIC_STATE_COLOR_WRITE_MASK_EXT) <==> forall|i: int|
            0 <= i < c.attachments@.len() ==> (
            #[trigger] c.attachments@[i]).color_write_mask is Dynamic,
{
    law_listed_settings_are_dynamic(c);
    let a = c.attachments@;
    let enables = graphics::blend_enable_flags(a);
    let equations = graphics::blend_equation_flags(a);
    let masks = graphics::write_mask_flags(a);
    assert(forall|i: int|
        0 <= i < a.len() ==> enables[i] == ((#[trigger] a[i]).blend_enable is Dynamic));
    assert(forall|i: int|
        0 <= i < a.len() ==> equations[i] == ((#[trigger] a[i]).blend_equation is Dynamic));
    assert(forall|i: int|
        0 <= i < a.len() ==> masks[i] == ((#[trigger] a[i]).color_write_mask is Dynamic));
    if enables.contains(false) {
        let i = choose|i: int| 0 <= i < enables.len() && enables[i] == false;
        assert(!(a[i].blend_enable is Dynamic));
    }
    if equations.contains(false) {
        let i = choose|i: int| 0 <= i < equations.len() && equations[i] == false;
        assert(!(a[i].blend_equation is Dynamic));
    }
    if masks.contains(false) {
        let i = choose|i: int| 0 <= i < masks.len() && masks[i] == false;
        assert(!(a[i].color_write_mask is Dynamic));
    }
}

/// How depths are compared is a dynamic state only of pipelines that always
/// test depths.
pub proof fn law_comparisons_follow_the_test(c: GraphicsPipelineConfig)
    ensures
        listed(c, vk::DYNAMIC_STATE_DEPTH_COMPARE_OP) <==> graphics::depth_test(c)
            && c.depth_compare_op is Dynamic,
        listed(c, vk::DYNAMIC_STATE_DEPTH_COMPARE_OP) <==> c.depth_test_enable
            == OptionalDynamicState::Static(true) && c.depth_compare_op is Dynamic,
{
    lemma_every_section(c, vk::DYNAMIC_STATE_DEPTH_COMPARE_OP);
}

} // verus!
