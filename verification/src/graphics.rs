//! Graphics pipeline configuration and the create-info that it stands for.
//!
//! Floating-point settings are carried as their bit patterns.

use vstd::prelude::*;

use crate::text::{contains_char, str_eq};
use crate::vk;

verus! {

/// A setting that may be left out, fixed at creation, or set while recording.
pub enum OptionalDynamicState<T> {
    Unset,
    Dynamic,
    Static(T),
}

/// A setting that is fixed at creation or set while recording.
pub enum RequiredDynamicState<T> {
    Dynamic,
    Static(T),
}

/// A list whose length and items may each be set while recording.
pub enum CountedDynamicState<T> {
    /// Length and items are set while recording.
    Dynamic,
    /// The length is fixed, the items are set while recording.
    Count(u32),
    /// Length and items are fixed.
    Static(Vec<T>),
}

/// A specialization constant and the bytes of its value.
pub struct SpecializationConstant {
    pub constant_id: u32,
    pub value: Vec<u8>,
}

/// One shader stage of a pipeline.
pub struct ShaderConfig {
    pub stage: u32,
    pub flags: u32,
    pub entry_point: String,
    pub specialization_constants: Vec<SpecializationConstant>,
}

#[derive(Clone, Copy, PartialEq, Eq, Structural, Debug)]
pub struct VertexAttribute {
    pub location: u32,
    pub format: i32,
    pub offset: u32,
}

pub struct VertexBinding {
    pub binding: u32,
    pub stride: OptionalDynamicState<u32>,
    pub input_rate: i32,
    pub attributes: Vec<VertexAttribute>,
}

#[derive(Clone, Copy, PartialEq, Eq, Structural, Debug)]
pub struct Viewport {
    pub x: u32,
    pub y: u32,
    pub width: u32,
    pub height: u32,
    pub min_depth: u32,
    pub max_depth: u32,
}

#[derive(Clone, Copy, PartialEq, Eq, Structural, Debug)]
pub struct Rect2D {
    pub x: i32,
    pub y: i32,
    pub width: u32,
    pub height: u32,
}

#[derive(Clone, Copy, PartialEq, Eq, Structural, Debug)]
pub struct DepthBias {
    pub constant_factor: u32,
    pub clamp: u32,
    pub slope_factor: u32,
}

pub struct StencilOps {
    pub fail: i32,
    pub pass: i32,
    pub depth_fail: i32,
    pub compare: String,
}

pub struct StencilConfig {
    pub ops: OptionalDynamicState<StencilOps>,
}

/// Source factor, operation and destination factor, for color and for alpha.
#[derive(Clone, Copy, PartialEq, Eq, Debug)]
pub struct BlendEquation {
    pub color: (i32, i32, i32),
    pub alpha: (i32, i32, i32),
}

pub struct AttachmentConfig {
    pub format: i32,
    pub blend_enable: RequiredDynamicState<bool>,
    pub blend_equation: OptionalDynamicState<BlendEquation>,
    pub color_write_mask: OptionalDynamicState<String>,
}

/// A graphics pipeline as it is configured.
pub struct GraphicsPipelineConfig {
    pub shaders: Vec<ShaderConfig>,
    pub vertex_bindings: OptionalDynamicState<Vec<VertexBinding>>,
    pub topology: OptionalDynamicState<i32>,
    pub primitive_restart_enabled: OptionalDynamicState<bool>,
    pub tessellation_patch_control_points: OptionalDynamicState<u32>,
    pub viewports: CountedDynamicState<Viewport>,
    pub scissors: CountedDynamicState<Rect2D>,
    pub depth_clamp_enable: OptionalDynamicState<bool>,
    pub rasterizer_discard_enable: OptionalDynamicState<bool>,
    pub polygon_mode: OptionalDynamicState<i32>,
    pub cull_mode: OptionalDynamicState<u32>,
    pub front_face: OptionalDynamicState<i32>,
    pub depth_bias_enable: OptionalDynamicState<bool>,
    pub line_width: OptionalDynamicState<u32>,
    pub depth_bias: OptionalDynamicState<DepthBias>,
    pub sample_count: OptionalDynamicState<u8>,
    pub sample_shading: Option<u32>,
    pub sample_mask: OptionalDynamicState<Vec<u32>>,
    pub alpha_to_coverage_enable: OptionalDynamicState<bool>,
    pub alpha_to_one_enable: OptionalDynamicState<bool>,
    pub depth_test_enable: OptionalDynamicState<bool>,
    pub depth_write_enable: OptionalDynamicState<bool>,
    pub depth_compare_op: OptionalDynamicState<String>,
    pub depth_bounds_test_enable: OptionalDynamicState<bool>,
    pub stencil_test_enable: OptionalDynamicState<bool>,
    pub depth_bounds: OptionalDynamicState<(u32, u32)>,
    pub front_stencil: Option<StencilConfig>,
    pub back_stencil: Option<StencilConfig>,
    pub attachments: Vec<AttachmentConfig>,
    pub blend_logic_op_enable: OptionalDynamicState<bool>,
    pub blend_logic_op: OptionalDynamicState<String>,
    pub blend_constants: OptionalDynamicState<(u32, u32, u32, u32)>,
    pub depth_format: i32,
    pub stencil_format: i32,
}

/// What is wrong with a configuration.
#[derive(Clone, Copy, PartialEq, Eq, Structural, Debug)]
pub enum PipelineError {
    InvalidEntryName,
    UnrecognizedSampleCount,
    InvalidDepthCompareOp,
    InvalidFrontStencilCompareOp,
    InvalidBackStencilCompareOp,
    BlendEquationRequired,
    UnrecognizedColorWriteMask,
    MixedBlendEnable,
    MixedBlendEquation,
    MixedColorWriteMask,
    UnrecognizedBlendLogicOp,
}

#[derive(Clone, Copy, PartialEq, Eq, Structural, Debug)]
pub struct SpecializationMapEntry {
    pub constant_id: u32,
    pub offset: u32,
    pub size: usize,
}

pub struct SpecializationInfo {
    pub entries: Vec<SpecializationMapEntry>,
    pub data: Vec<u8>,
}

/// One shader stage as it is created. Without constants it has no
/// specialization info.
pub struct ShaderStageInfo {
    pub stage: u32,
    pub flags: u32,
    pub entry_point: String,
    pub specialization: Option<SpecializationInfo>,
}

#[derive(Clone, Copy, PartialEq, Eq, Structural, Debug)]
pub struct VertexInputAttribute {
    pub location: u32,
    pub binding: u32,
    pub format: i32,
    pub offset: u32,
}

#[derive(Clone, Copy, PartialEq, Eq, Structural, Debug)]
pub struct VertexInputBinding {
    pub binding: u32,
    pub stride: u32,
    pub input_rate: i32,
}

pub struct VertexInputState {
    pub attributes: Vec<VertexInputAttribute>,
    pub bindings: Vec<VertexInputBinding>,
}

/// A missing list has `None`, with the length given beside it.
pub struct ViewportState {
    pub viewport_count: u32,
    pub viewports: Option<Vec<Viewport>>,
    pub scissor_count: u32,
    pub scissors: Option<Vec<Rect2D>>,
}

#[derive(Clone, Copy, PartialEq, Eq, Structural, Debug)]
pub struct RasterizationState {
    pub depth_clamp_enable: bool,
    pub rasterizer_discard_enable: bool,
    pub polygon_mode: i32,
    pub cull_mode: u32,
    pub front_face: i32,
    pub depth_bias_enable: bool,
    pub depth_bias: DepthBias,
    pub line_width: u32,
}

pub struct MultisampleState {
    pub rasterization_samples: u32,
    pub sample_shading_enable: bool,
    pub min_sample_shading: u32,
    pub sample_mask: Vec<u32>,
    pub alpha_to_coverage_enable: bool,
    pub alpha_to_one_enable: bool,
}

#[derive(Clone, Copy, PartialEq, Eq, Structural, Debug)]
pub struct StencilOpState {
    pub fail_op: i32,
    pub pass_op: i32,
    pub depth_fail_op: i32,
    pub compare_op: i32,
}

#[derive(Clone, Copy, PartialEq, Eq, Structural, Debug)]
pub struct DepthStencilState {
    pub depth_test_enable: bool,
    pub depth_write_enable: bool,
    pub depth_compare_op: i32,
    pub depth_bounds_test_enable: bool,
    pub stencil_test_enable: bool,
    pub front: StencilOpState,
    pub back: StencilOpState,
    pub min_depth_bounds: u32,
    pub max_depth_bounds: u32,
}

#[derive(Clone, Copy, PartialEq, Eq, Structural, Debug)]
pub struct ColorBlendAttachment {
    pub blend_enable: bool,
    pub src_color_blend_factor: i32,
    pub dst_color_blend_factor: i32,
    pub color_blend_op: i32,
    pub src_alpha_blend_factor: i32,
    pub dst_alpha_blend_factor: i32,
    pub alpha_blend_op: i32,
    pub color_write_mask: u32,
}

pub struct ColorBlendState {
    pub logic_op_enable: bool,
    pub logic_op: i32,
    pub attachments: Vec<ColorBlendAttachment>,
    pub blend_constants: (u32, u32, u32, u32),
}

/// A graphics pipeline as it is created.
pub struct GraphicsPipelineInfo {
    pub stages: Vec<ShaderStageInfo>,
    pub vertex_input: VertexInputState,
    pub topology: i32,
    pub primitive_restart_enable: bool,
    pub patch_control_points: u32,
    pub viewport: Option<ViewportState>,
    pub rasterization: RasterizationState,
    pub multisample: MultisampleState,
    pub depth_stencil: DepthStencilState,
    pub color_blend: ColorBlendState,
    pub dynamic_states: Vec<i32>,
    pub color_attachment_formats: Vec<i32>,
    pub depth_attachment_format: i32,
    pub stencil_attachment_format: i32,
}

// ---------------------------------------------------------------------------
// Settings
// ---------------------------------------------------------------------------

/// The dynamic state that a setting asks for.
pub open spec fn pushed<T>(s: OptionalDynamicState<T>, state: i32) -> Seq<i32> {
    if s is Dynamic {
        seq![state]
    } else {
        Seq::empty()
    }
}

/// The value that a setting fixes.
pub open spec fn fixed<T>(s: OptionalDynamicState<T>) -> Option<T> {
    match s {
        OptionalDynamicState::Static(v) => Some(v),
        _ => None,
    }
}

/// The value that a setting fixes, or `default`.
pub open spec fn fixed_or<T>(s: OptionalDynamicState<T>, default: T) -> T {
    match s {
        OptionalDynamicState::Static(v) => v,
        _ => default,
    }
}

impl<T> OptionalDynamicState<T> {
    /// The fixed value, if any; a dynamic setting is noted in `dynamic_states`.
    pub fn unwrap(&self, state: i32, dynamic_states: &mut Vec<i32>) -> (r: Option<&T>)
        ensures
            r is Some <==> *self is Static,
            r matches Some(v) ==> *v == self->Static_0,
            final(dynamic_states)@ == old(dynamic_states)@ + pushed(*self, state),
    {
        match self {
            OptionalDynamicState::Unset => {
                assert(dynamic_states@ + pushed(*self, state) =~= dynamic_states@);
                None
            },
            OptionalDynamicState::Dynamic => {
                dynamic_states.push(state);
                assert(dynamic_states@ =~= old(dynamic_states)@ + pushed(*self, state));
                None
            },
            OptionalDynamicState::Static(v) => {
                assert(dynamic_states@ + pushed(*self, state) =~= dynamic_states@);
                Some(v)
            },
        }
    }

    /// The fixed value, or `default`; a dynamic setting is noted in
    /// `dynamic_states`.
    pub fn unwrap_or(&self, default: T, state: i32, dynamic_states: &mut Vec<i32>) -> (r: T)
        where T: Copy
        ensures
            r == fixed_or(*self, default),
            final(dynamic_states)@ == old(dynamic_states)@ + pushed(*self, state),
    {
        match self.unwrap(state, dynamic_states) {
            Some(v) => *v,
            None => default,
        }
    }
}

proof fn lemma_append_assoc(a: Seq<i32>, b: Seq<i32>, c: Seq<i32>)
    ensures
        a + b + c == a + (b + c),
{
    assert(a + b + c =~= a + (b + c));
}

// ---------------------------------------------------------------------------
// Shader stages
// ---------------------------------------------------------------------------

/// The values of the constants, one after the other.
pub open spec fn constant_data(constants: Seq<SpecializationConstant>) -> Seq<u8>
    decreases constants.len(),
{
    if constants.len() == 0 {
        Seq::empty()
    } else {
        constant_data(constants.drop_last()) + constants.last().value@
    }
}

/// Entry `i` of the map of `constants`: its value lies behind those before it.
pub open spec fn map_entry(
    constants: Seq<SpecializationConstant>,
    i: int,
) -> SpecializationMapEntry {
    SpecializationMapEntry {
        constant_id: constants[i].constant_id,
        offset: constant_data(constants.take(i)).len() as u32,
        size: constants[i].value@.len() as usize,
    }
}

pub open spec fn is_specialization(
    info: SpecializationInfo,
    constants: Seq<SpecializationConstant>,
) -> bool {
    &&& info.data@ == constant_data(constants)
    &&& info.entries@.len() == constants.len()
    &&& forall|i: int|
        0 <= i < constants.len() ==> #[trigger] info.entries@[i] == map_entry(constants, i)
}

pub open spec fn is_stage(info: ShaderStageInfo, shader: ShaderConfig) -> bool {
    &&& info.stage == shader.stage
    &&& info.flags == shader.flags
    &&& info.entry_point@ == shader.entry_point@
    &&& info.specialization is Some <==> shader.specialization_constants@.len() > 0
    &&& info.specialization matches Some(s) ==> is_specialization(
        s,
        shader.specialization_constants@,
    )
}

/// An entry point is named by a string without NUL.
pub open spec fn valid_entry_point(shader: ShaderConfig) -> bool {
    !shader.entry_point@.contains('\0')
}

/// Lays out the specialization constants of a stage.
pub fn specialization_info(constants: &Vec<SpecializationConstant>) -> (info: SpecializationInfo)
    ensures
        is_specialization(info, constants@),
{
    let mut entries: Vec<SpecializationMapEntry> = Vec::new();
    let mut data: Vec<u8> = Vec::new();
    let mut i: usize = 0;
    while i < constants.len()
        invariant
            i <= constants@.len(),
            data@ == constant_data(constants@.take(i as int)),
            entries@.len() == i,
            forall|j: int|
                0 <= j < i ==> #[trigger] entries@[j] == map_entry(constants@, j),
        decreases constants@.len() - i,
    {
        let constant = &constants[i];
        let offset: usize = data.len();
        data.extend_from_slice(constant.value.as_slice());
        entries.push(
            SpecializationMapEntry {
                constant_id: constant.constant_id,
                offset: offset as u32,
                size: constant.value.len(),
            },
        );
        proof {
            let next = constants@.take(i + 1);
            assert(next.drop_last() =~= constants@.take(i as int));
            assert(data@ =~= constant_data(constants@.take(i as int)) + constant.value@);
        }
        i += 1;
    }
    assert(constants@.take(i as int) =~= constants@);
    SpecializationInfo { entries, data }
}

/// Whether some stage names an entry point that is no C string.
pub open spec fn entry_names_valid(shaders: Seq<ShaderConfig>) -> bool {
    forall|i: int| 0 <= i < shaders.len() ==> valid_entry_point(#[trigger] shaders[i])
}

/// The shader stages of a pipeline, in their order.
pub fn shader_stages(shaders: &Vec<ShaderConfig>) -> (r: Result<Vec<ShaderStageInfo>, PipelineError>)
    ensures
        r is Ok <==> entry_names_valid(shaders@),
        r matches Err(e) ==> e == PipelineError::InvalidEntryName,
        r matches Ok(v) ==> v@.len() == shaders@.len() && forall|i: int|
            0 <= i < v@.len() ==> is_stage(#[trigger] v@[i], shaders@[i]),
{
    let mut stages: Vec<ShaderStageInfo> = Vec::new();
    let mut i: usize = 0;
    while i < shaders.len()
        invariant
            i <= shaders@.len(),
            stages@.len() == i,
            forall|j: int| 0 <= j < i ==> valid_entry_point(#[trigger] shaders@[j]),
            forall|j: int| 0 <= j < i ==> is_stage(#[trigger] stages@[j], shaders@[j]),
        decreases shaders@.len() - i,
    {
        let shader = &shaders[i];
        if contains_char(shader.entry_point.as_str(), '\0') {
            assert(!valid_entry_point(shaders@[i as int]));
            return Err(PipelineError::InvalidEntryName);
        }
        let specialization = if shader.specialization_constants.len() == 0 {
            None
        } else {
            Some(specialization_info(&shader.specialization_constants))
        };
        stages.push(
            ShaderStageInfo {
                stage: shader.stage,
                flags: shader.flags,
                entry_point: shader.entry_point.clone(),
                specialization,
            },
        );
        i += 1;
    }
    Ok(stages)
}

// ---------------------------------------------------------------------------
// Vertex input
// ---------------------------------------------------------------------------

pub open spec fn input_attribute(binding: VertexBinding, i: int) -> VertexInputAttribute {
    VertexInputAttribute {
        location: binding.attributes@[i].location,
        binding: binding.binding,
        format: binding.attributes@[i].format,
        offset: binding.attributes@[i].offset,
    }
}

/// The attributes of the bindings, binding by binding.
pub open spec fn input_attributes(bindings: Seq<VertexBinding>) -> Seq<VertexInputAttribute>
    decreases bindings.len(),
{
    if bindings.len() == 0 {
        Seq::empty()
    } else {
        input_attributes(bindings.drop_last()) + Seq::new(
            bindings.last().attributes@.len(),
            |i: int| input_attribute(bindings.last(), i),
        )
    }
}

pub open spec fn input_binding(binding: VertexBinding) -> VertexInputBinding {
    VertexInputBinding {
        binding: binding.binding,
        stride: fixed_or(binding.stride, 0),
        input_rate: binding.input_rate,
    }
}

/// One entry for each binding whose stride is set while recording.
pub open spec fn stride_states(bindings: Seq<VertexBinding>) -> Seq<i32>
    decreases bindings.len(),
{
    if bindings.len() == 0 {
        Seq::empty()
    } else {
        stride_states(bindings.drop_last()) + pushed(
            bindings.last().stride,
            vk::DYNAMIC_STATE_VERTEX_INPUT_BINDING_STRIDE,
        )
    }
}

/// The bindings that are fixed at creation.
pub open spec fn fixed_bindings(c: OptionalDynamicState<Vec<VertexBinding>>) -> Seq<VertexBinding> {
    match c {
        OptionalDynamicState::Static(v) => v@,
        _ => Seq::empty(),
    }
}

pub open spec fn vertex_input_states(c: OptionalDynamicState<Vec<VertexBinding>>) -> Seq<i32> {
    pushed(c, vk::DYNAMIC_STATE_VERTEX_INPUT_EXT) + stride_states(fixed_bindings(c))
}

pub open spec fn is_vertex_input(
    info: VertexInputState,
    c: OptionalDynamicState<Vec<VertexBinding>>,
) -> bool {
    &&& info.attributes@ == input_attributes(fixed_bindings(c))
    &&& info.bindings@ == fixed_bindings(c).map_values(|b: VertexBinding| input_binding(b))
}

fn push_attributes(binding: &VertexBinding, out: &mut Vec<VertexInputAttribute>)
    ensures
        final(out)@ == old(out)@ + Seq::new(
            binding.attributes@.len(),
            |i: int| input_attribute(*binding, i),
        ),
{
    let mut i: usize = 0;
    while i < binding.attributes.len()
        invariant
            i <= binding.attributes@.len(),
            out@ == old(out)@ + Seq::new(i as nat, |i: int| input_attribute(*binding, i)),
        decreases binding.attributes@.len() - i,
    {
        let attribute = binding.attributes[i];
        let ghost before = out@;
        out.push(
            VertexInputAttribute {
                location: attribute.location,
                binding: binding.binding,
                format: attribute.format,
                offset: attribute.offset,
            },
        );
        i += 1;
        assert(out@ =~= old(out)@ + Seq::new(i as nat, |i: int| input_attribute(*binding, i)));
    }
}

/// Vertex input state of a pipeline.
pub fn vertex_input_state(
    c: &OptionalDynamicState<Vec<VertexBinding>>,
    dynamic_states: &mut Vec<i32>,
) -> (info: VertexInputState)
    ensures
        is_vertex_input(info, *c),
        final(dynamic_states)@ == old(dynamic_states)@ + vertex_input_states(*c),
{
    let mut attributes: Vec<VertexInputAttribute> = Vec::new();
    let mut input_bindings: Vec<VertexInputBinding> = Vec::new();
    match c.unwrap(vk::DYNAMIC_STATE_VERTEX_INPUT_EXT, dynamic_states) {
        None => {},
        Some(bindings) => {
            let ghost start = dynamic_states@;
            let mut i: usize = 0;
            assert(start + stride_states(bindings@.take(0)) =~= start);
            while i < bindings.len()
                invariant
                    i <= bindings@.len(),
                    attributes@ == input_attributes(bindings@.take(i as int)),
                    input_bindings@ == bindings@.take(i as int).map_values(
                        |b: VertexBinding| input_binding(b),
                    ),
                    dynamic_states@ == start + stride_states(bindings@.take(i as int)),
                decreases bindings@.len() - i,
            {
                let binding = &bindings[i];
                push_attributes(binding, &mut attributes);
                let stride: u32 = binding.stride.unwrap_or(
                    0,
                    vk::DYNAMIC_STATE_VERTEX_INPUT_BINDING_STRIDE,
                    dynamic_states,
                );
                input_bindings.push(
                    VertexInputBinding {
                        binding: binding.binding,
                        stride,
                        input_rate: binding.input_rate,
                    },
                );
                proof {
                    let next = bindings@.take(i + 1);
                    assert(next.drop_last() =~= bindings@.take(i as int));
                    assert(next.map_values(|b: VertexBinding| input_binding(b)) =~= input_bindings@);
                    assert(dynamic_states@ =~= start + stride_states(next));
                }
                i += 1;
            }
            assert(bindings@.take(i as int) =~= bindings@);
        },
    }
    assert(dynamic_states@ =~= old(dynamic_states)@ + vertex_input_states(*c));
    assert(fixed_bindings(*c).map_values(|b: VertexBinding| input_binding(b))
        =~= input_bindings@);
    VertexInputState { attributes, bindings: input_bindings }
}

// ---------------------------------------------------------------------------
// Viewports and scissors
// ---------------------------------------------------------------------------

/// The dynamic state that a counted list asks for.
pub open spec fn counted_states<T>(
    c: CountedDynamicState<T>,
    with_count: i32,
    without_count: i32,
) -> Seq<i32> {
    match c {
        CountedDynamicState::Dynamic => seq![with_count],
        CountedDynamicState::Count(_) => seq![without_count],
        CountedDynamicState::Static(_) => Seq::empty(),
    }
}

/// The length of a counted list; 0 where it is set while recording.
pub open spec fn counted_len<T>(c: CountedDynamicState<T>) -> u32 {
    match c {
        CountedDynamicState::Dynamic => 0,
        CountedDynamicState::Count(n) => n,
        CountedDynamicState::Static(v) => v@.len() as u32,
    }
}

pub open spec fn is_counted<T>(count: u32, items: Option<Vec<T>>, c: CountedDynamicState<T>) -> bool {
    &&& count == counted_len(c)
    &&& items is Some <==> c is Static
    &&& items matches Some(v) ==> v@ == c->Static_0@
}

fn copy_items<T: Copy>(items: &Vec<T>) -> (r: Vec<T>)
    ensures
        r@ == items@,
{
    let mut out: Vec<T> = Vec::new();
    let mut i: usize = 0;
    while i < items.len()
        invariant
            i <= items@.len(),
            out@ == items@.take(i as int),
        decreases items@.len() - i,
    {
        out.push(items[i]);
        i += 1;
        assert(out@ =~= items@.take(i as int));
    }
    assert(items@.take(i as int) =~= items@);
    out
}

fn counted<T: Copy>(
    c: &CountedDynamicState<T>,
    with_count: i32,
    without_count: i32,
    dynamic_states: &mut Vec<i32>,
) -> (r: (u32, Option<Vec<T>>))
    ensures
        is_counted(r.0, r.1, *c),
        final(dynamic_states)@ == old(dynamic_states)@ + counted_states(
            *c,
            with_count,
            without_count,
        ),
{
    let r = match c {
        CountedDynamicState::Dynamic => {
            dynamic_states.push(with_count);
            (0, None)
        },
        CountedDynamicState::Count(n) => {
            dynamic_states.push(without_count);
            (*n, None)
        },
        CountedDynamicState::Static(items) => (items.len() as u32, Some(copy_items(items))),
    };
    assert(dynamic_states@ =~= old(dynamic_states)@ + counted_states(
        *c,
        with_count,
        without_count,
    ));
    r
}

pub open spec fn viewport_states(c: GraphicsPipelineConfig) -> Seq<i32> {
    counted_states(
        c.viewports,
        vk::DYNAMIC_STATE_VIEWPORT_WITH_COUNT,
        vk::DYNAMIC_STATE_VIEWPORT,
    ) + counted_states(
        c.scissors,
        vk::DYNAMIC_STATE_SCISSOR_WITH_COUNT,
        vk::DYNAMIC_STATE_SCISSOR,
    )
}

pub open spec fn is_viewport(info: Option<ViewportState>, c: GraphicsPipelineConfig) -> bool {
    &&& info is Some <==> counted_len(c.scissors) > 0 || counted_len(c.viewports) > 0
    &&& info matches Some(v) ==> is_counted(v.viewport_count, v.viewports, c.viewports)
        && is_counted(v.scissor_count, v.scissors, c.scissors)
}

/// Viewport state; left out where neither list has a length.
pub fn viewport_state(c: &GraphicsPipelineConfig, dynamic_states: &mut Vec<i32>) -> (info: Option<
    ViewportState,
>)
    ensures
        is_viewport(info, *c),
        final(dynamic_states)@ == old(dynamic_states)@ + viewport_states(*c),
{
    let (viewport_count, viewports): (u32, Option<Vec<Viewport>>) = counted(
        &c.viewports,
        vk::DYNAMIC_STATE_VIEWPORT_WITH_COUNT,
        vk::DYNAMIC_STATE_VIEWPORT,
        dynamic_states,
    );
    let (scissor_count, scissors): (u32, Option<Vec<Rect2D>>) = counted(
        &c.scissors,
        vk::DYNAMIC_STATE_SCISSOR_WITH_COUNT,
        vk::DYNAMIC_STATE_SCISSOR,
        dynamic_states,
    );
    assert(dynamic_states@ =~= old(dynamic_states)@ + viewport_states(*c));
    if scissor_count > 0 || viewport_count > 0 {
        Some(ViewportState { viewport_count, viewports, scissor_count, scissors })
    } else {
        None
    }
}

// ---------------------------------------------------------------------------
// Rasterization
// ---------------------------------------------------------------------------

pub open spec fn no_depth_bias() -> DepthBias {
    DepthBias { constant_factor: 0, clamp: 0, slope_factor: 0 }
}

pub open spec fn rasterization_of(c: GraphicsPipelineConfig) -> RasterizationState {
    RasterizationState {
        depth_clamp_enable: fixed_or(c.depth_clamp_enable, false),
        rasterizer_discard_enable: fixed_or(c.rasterizer_discard_enable, false),
        polygon_mode: fixed_or(c.polygon_mode, 0),
        cull_mode: fixed_or(c.cull_mode, 0),
        front_face: fixed_or(c.front_face, 0),
        depth_bias_enable: fixed_or(c.depth_bias_enable, false),
        depth_bias: fixed_or(c.depth_bias, no_depth_bias()),
        line_width: fixed_or(c.line_width, 0),
    }
}

pub open spec fn rasterization_states(c: GraphicsPipelineConfig) -> Seq<i32> {
    pushed(c.depth_clamp_enable, vk::DYNAMIC_STATE_DEPTH_CLAMP_ENABLE_EXT) + pushed(
        c.rasterizer_discard_enable,
        vk::DYNAMIC_STATE_RASTERIZER_DISCARD_ENABLE,
    ) + pushed(c.polygon_mode, vk::DYNAMIC_STATE_POLYGON_MODE_EXT) + pushed(
        c.cull_mode,
        vk::DYNAMIC_STATE_CULL_MODE,
    ) + pushed(c.front_face, vk::DYNAMIC_STATE_FRONT_FACE) + pushed(
        c.depth_bias_enable,
        vk::DYNAMIC_STATE_DEPTH_BIAS_ENABLE,
    ) + pushed(c.line_width, vk::DYNAMIC_STATE_LINE_WIDTH) + pushed(
        c.depth_bias,
        vk::DYNAMIC_STATE_DEPTH_BIAS,
    )
}

/// Rasterization state of a pipeline.
pub fn rasterization_state(c: &GraphicsPipelineConfig, dynamic_states: &mut Vec<i32>) -> (info:
    RasterizationState)
    ensures
        info == rasterization_of(*c),
        final(dynamic_states)@ == old(dynamic_states)@ + rasterization_states(*c),
{
    let depth_clamp_enable: bool = c.depth_clamp_enable.unwrap_or(
        false,
        vk::DYNAMIC_STATE_DEPTH_CLAMP_ENABLE_EXT,
        dynamic_states,
    );
    let rasterizer_discard_enable: bool = c.rasterizer_discard_enable.unwrap_or(
        false,
        vk::DYNAMIC_STATE_RASTERIZER_DISCARD_ENABLE,
        dynamic_states,
    );
    let polygon_mode: i32 = c.polygon_mode.unwrap_or(
        0,
        vk::DYNAMIC_STATE_POLYGON_MODE_EXT,
        dynamic_states,
    );
    let cull_mode: u32 = c.cull_mode.unwrap_or(0, vk::DYNAMIC_STATE_CULL_MODE, dynamic_states);
    let front_face: i32 = c.front_face.unwrap_or(0, vk::DYNAMIC_STATE_FRONT_FACE, dynamic_states);
    let depth_bias_enable: bool = c.depth_bias_enable.unwrap_or(
        false,
        vk::DYNAMIC_STATE_DEPTH_BIAS_ENABLE,
        dynamic_states,
    );
    let line_width: u32 = c.line_width.unwrap_or(0, vk::DYNAMIC_STATE_LINE_WIDTH, dynamic_states);
    let depth_bias = c.depth_bias.unwrap_or(
        DepthBias { constant_factor: 0, clamp: 0, slope_factor: 0 },
        vk::DYNAMIC_STATE_DEPTH_BIAS,
        dynamic_states,
    );
    assert(dynamic_states@ =~= old(dynamic_states)@ + rasterization_states(*c));
    RasterizationState {
        depth_clamp_enable,
        rasterizer_discard_enable,
        polygon_mode,
        cull_mode,
        front_face,
        depth_bias_enable,
        depth_bias,
        line_width,
    }
}

// ---------------------------------------------------------------------------
// Multisampling
// ---------------------------------------------------------------------------

/// The sample counts that exist.
pub open spec fn known_sample_count(n: u8) -> bool {
    n == 1 || n == 2 || n == 4 || n == 8 || n == 16 || n == 32 || n == 64
}

pub open spec fn sample_count_valid(c: GraphicsPipelineConfig) -> bool {
    fixed(c.sample_count) matches Some(n) ==> known_sample_count(n)
}

pub open spec fn multisample_states(c: GraphicsPipelineConfig) -> Seq<i32> {
    pushed(c.sample_count, vk::DYNAMIC_STATE_RASTERIZATION_SAMPLES_EXT) + pushed(
        c.alpha_to_coverage_enable,
        vk::DYNAMIC_STATE_ALPHA_TO_COVERAGE_ENABLE_EXT,
    ) + pushed(c.alpha_to_one_enable, vk::DYNAMIC_STATE_ALPHA_TO_ONE_ENABLE_EXT) + pushed(
        c.sample_mask,
        vk::DYNAMIC_STATE_SAMPLE_MASK_EXT,
    )
}

pub open spec fn is_multisample(info: MultisampleState, c: GraphicsPipelineConfig) -> bool {
    &&& info.rasterization_samples == fixed_or(c.sample_count, 0)
    &&& info.sample_shading_enable == (c.sample_shading is Some)
    &&& info.min_sample_shading == (match c.sample_shading {
        Some(v) => v,
        None => 0,
    })
    &&& info.sample_mask@ == (match c.sample_mask {
        OptionalDynamicState::Static(v) => v@,
        _ => Seq::empty(),
    })
    &&& info.alpha_to_coverage_enable == fixed_or(c.alpha_to_coverage_enable, false)
    &&& info.alpha_to_one_enable == fixed_or(c.alpha_to_one_enable, false)
}

/// Multisample state of a pipeline.
pub fn multisample_state(c: &GraphicsPipelineConfig, dynamic_states: &mut Vec<i32>) -> (r: Result<
    MultisampleState,
    PipelineError,
>)
    ensures
        r is Ok <==> sample_count_valid(*c),
        r matches Err(e) ==> e == PipelineError::UnrecognizedSampleCount,
        r matches Ok(info) ==> is_multisample(info, *c) && final(dynamic_states)@ == old(
            dynamic_states,
        )@ + multisample_states(*c),
{
    let rasterization_samples: u32 = match c.sample_count.unwrap(
        vk::DYNAMIC_STATE_RASTERIZATION_SAMPLES_EXT,
        dynamic_states,
    ) {
        None => 0,
        Some(n) => match *n {
            1 | 2 | 4 | 8 | 16 | 32 | 64 => *n as u32,
            _ => {
                return Err(PipelineError::UnrecognizedSampleCount);
            },
        },
    };
    let (sample_shading_enable, min_sample_shading): (bool, u32) = match c.sample_shading {
        Some(v) => (true, v),
        None => (false, 0),
    };
    let alpha_to_coverage_enable: bool = c.alpha_to_coverage_enable.unwrap_or(
        false,
        vk::DYNAMIC_STATE_ALPHA_TO_COVERAGE_ENABLE_EXT,
        dynamic_states,
    );
    let alpha_to_one_enable: bool = c.alpha_to_one_enable.unwrap_or(
        false,
        vk::DYNAMIC_STATE_ALPHA_TO_ONE_ENABLE_EXT,
        dynamic_states,
    );
    let sample_mask: Vec<u32> = match c.sample_mask.unwrap(
        vk::DYNAMIC_STATE_SAMPLE_MASK_EXT,
        dynamic_states,
    ) {
        Some(mask) => copy_items(mask),
        None => Vec::new(),
    };
    assert(dynamic_states@ =~= old(dynamic_states)@ + multisample_states(*c));
    Ok(
        MultisampleState {
            rasterization_samples,
            sample_shading_enable,
            min_sample_shading,
            sample_mask,
            alpha_to_coverage_enable,
            alpha_to_one_enable,
        },
    )
}

// ---------------------------------------------------------------------------
// Depth and stencil
// ---------------------------------------------------------------------------

/// The comparison that a string writes; `None` for one that writes none.
pub open spec fn compare_op(op: Seq<char>) -> Option<i32> {
    if op == "false"@ || op == "0"@ {
        Some(vk::COMPARE_OP_NEVER)
    } else if op == "<"@ {
        Some(vk::COMPARE_OP_LESS)
    } else if op == "=="@ {
        Some(vk::COMPARE_OP_EQUAL)
    } else if op == "<="@ {
        Some(vk::COMPARE_OP_LESS_OR_EQUAL)
    } else if op == ">"@ {
        Some(vk::COMPARE_OP_GREATER)
    } else if op == "!="@ {
        Some(vk::COMPARE_OP_NOT_EQUAL)
    } else if op == ">="@ {
        Some(vk::COMPARE_OP_GREATER_OR_EQUAL)
    } else if op == "true"@ || op == "1"@ {
        Some(vk::COMPARE_OP_ALWAYS)
    } else {
        None
    }
}

/// Reads a comparison.
pub fn compare_op_str(op: &str) -> (r: Option<i32>)
    ensures
        r == compare_op(op@),
{
    if str_eq(op, "false") || str_eq(op, "0") {
        Some(vk::COMPARE_OP_NEVER)
    } else if str_eq(op, "<") {
        Some(vk::COMPARE_OP_LESS)
    } else if str_eq(op, "==") {
        Some(vk::COMPARE_OP_EQUAL)
    } else if str_eq(op, "<=") {
        Some(vk::COMPARE_OP_LESS_OR_EQUAL)
    } else if str_eq(op, ">") {
        Some(vk::COMPARE_OP_GREATER)
    } else if str_eq(op, "!=") {
        Some(vk::COMPARE_OP_NOT_EQUAL)
    } else if str_eq(op, ">=") {
        Some(vk::COMPARE_OP_GREATER_OR_EQUAL)
    } else if str_eq(op, "true") || str_eq(op, "1") {
        Some(vk::COMPARE_OP_ALWAYS)
    } else {
        None
    }
}

/// Whether the depth test is on from creation.
pub open spec fn depth_test(c: GraphicsPipelineConfig) -> bool {
    fixed_or(c.depth_test_enable, false)
}

/// The depth comparison, which is read only where the depth test is on from
/// creation; without one, nothing passes.
pub open spec fn depth_compare(c: GraphicsPipelineConfig) -> Option<i32> {
    if !depth_test(c) {
        Some(vk::COMPARE_OP_NEVER)
    } else {
        match c.depth_compare_op {
            OptionalDynamicState::Static(op) => compare_op(op@),
            _ => Some(vk::COMPARE_OP_NEVER),
        }
    }
}

pub open spec fn no_stencil() -> StencilOpState {
    StencilOpState { fail_op: 0, pass_op: 0, depth_fail_op: 0, compare_op: 0 }
}

/// One side's stencil state; `None` where its comparison cannot be read.
pub open spec fn stencil_of(c: Option<StencilConfig>) -> Option<StencilOpState> {
    match c {
        Some(StencilConfig { ops: OptionalDynamicState::Static(ops) }) => match compare_op(
            ops.compare@,
        ) {
            Some(op) => Some(
                StencilOpState {
                    fail_op: ops.fail,
                    pass_op: ops.pass,
                    depth_fail_op: ops.depth_fail,
                    compare_op: op,
                },
            ),
            None => None,
        },
        _ => Some(no_stencil()),
    }
}

pub open spec fn stencil_states(c: Option<StencilConfig>) -> Seq<i32> {
    match c {
        Some(s) => pushed(s.ops, vk::DYNAMIC_STATE_STENCIL_OP),
        None => Seq::empty(),
    }
}

pub open spec fn depth_compare_states(c: GraphicsPipelineConfig) -> Seq<i32> {
    if depth_test(c) {
        pushed(c.depth_compare_op, vk::DYNAMIC_STATE_DEPTH_COMPARE_OP)
    } else {
        Seq::empty()
    }
}

pub open spec fn depth_stencil_states(c: GraphicsPipelineConfig) -> Seq<i32> {
    pushed(c.depth_test_enable, vk::DYNAMIC_STATE_DEPTH_TEST_ENABLE) + pushed(
        c.depth_write_enable,
        vk::DYNAMIC_STATE_DEPTH_WRITE_ENABLE,
    ) + depth_compare_states(c) + pushed(c.depth_bounds_test_enable, vk::DYNAMIC_STATE_DEPTH_BOUNDS_TEST_ENABLE) + pushed(
        c.stencil_test_enable,
        vk::DYNAMIC_STATE_STENCIL_TEST_ENABLE,
    ) + pushed(c.depth_bounds, vk::DYNAMIC_STATE_DEPTH_BOUNDS) + stencil_states(c.front_stencil)
        + stencil_states(c.back_stencil)
}

pub open spec fn depth_stencil_error(c: GraphicsPipelineConfig) -> Option<PipelineError> {
    if depth_compare(c) is None {
        Some(PipelineError::InvalidDepthCompareOp)
    } else if stencil_of(c.front_stencil) is None {
        Some(PipelineError::InvalidFrontStencilCompareOp)
    } else if stencil_of(c.back_stencil) is None {
        Some(PipelineError::InvalidBackStencilCompareOp)
    } else {
        None
    }
}

pub open spec fn depth_stencil_of(c: GraphicsPipelineConfig) -> DepthStencilState {
    DepthStencilState {
        depth_test_enable: depth_test(c),
        depth_write_enable: fixed_or(c.depth_write_enable, false),
        depth_compare_op: depth_compare(c)->0,
        depth_bounds_test_enable: fixed_or(c.depth_bounds_test_enable, false),
        stencil_test_enable: fixed_or(c.stencil_test_enable, false),
        front: stencil_of(c.front_stencil)->0,
        back: stencil_of(c.back_stencil)->0,
        min_depth_bounds: fixed_or(c.depth_bounds, (0, 0)).0,
        max_depth_bounds: fixed_or(c.depth_bounds, (0, 0)).1,
    }
}

fn stencil_side(c: &Option<StencilConfig>, dynamic_states: &mut Vec<i32>) -> (r: Option<
    StencilOpState,
>)
    ensures
        r == stencil_of(*c),
        final(dynamic_states)@ == old(dynamic_states)@ + stencil_states(*c),
{
    let none = StencilOpState { fail_op: 0, pass_op: 0, depth_fail_op: 0, compare_op: 0 };
    match c {
        None => {
            assert(dynamic_states@ =~= old(dynamic_states)@ + stencil_states(*c));
            Some(none)
        },
        Some(side) => {
            match side.ops.unwrap(vk::DYNAMIC_STATE_STENCIL_OP, dynamic_states) {
                None => Some(none),
                Some(ops) => match compare_op_str(ops.compare.as_str()) {
                    None => None,
                    Some(op) => Some(
                        StencilOpState {
                            fail_op: ops.fail,
                            pass_op: ops.pass,
                            depth_fail_op: ops.depth_fail,
                            compare_op: op,
                        },
                    ),
                },
            }
        },
    }
}

/// Depth and stencil state of a pipeline.
pub fn depth_stencil_state(c: &GraphicsPipelineConfig, dynamic_states: &mut Vec<i32>) -> (r: Result<
    DepthStencilState,
    PipelineError,
>)
    ensures
        r is Ok <==> depth_stencil_error(*c) is None,
        r matches Err(e) ==> depth_stencil_error(*c) == Some(e),
        r matches Ok(info) ==> info == depth_stencil_of(*c) && final(dynamic_states)@ == old(
            dynamic_states,
        )@ + depth_stencil_states(*c),
{
    let depth_test_enable: bool = c.depth_test_enable.unwrap_or(
        false,
        vk::DYNAMIC_STATE_DEPTH_TEST_ENABLE,
        dynamic_states,
    );
    let ghost mut noted = pushed(c.depth_test_enable, vk::DYNAMIC_STATE_DEPTH_TEST_ENABLE);
    let depth_write_enable: bool = c.depth_write_enable.unwrap_or(
        false,
        vk::DYNAMIC_STATE_DEPTH_WRITE_ENABLE,
        dynamic_states,
    );
    proof {
        lemma_append_assoc(old(dynamic_states)@, noted, pushed(c.depth_write_enable, vk::DYNAMIC_STATE_DEPTH_WRITE_ENABLE));
        noted = noted + pushed(c.depth_write_enable, vk::DYNAMIC_STATE_DEPTH_WRITE_ENABLE);
    }
    let depth_compare_op: i32 = if depth_test_enable {
        match c.depth_compare_op.unwrap(vk::DYNAMIC_STATE_DEPTH_COMPARE_OP, dynamic_states) {
            None => vk::COMPARE_OP_NEVER,
            Some(op) => match compare_op_str(op.as_str()) {
                Some(v) => v,
                None => {
                    return Err(PipelineError::InvalidDepthCompareOp);
                },
            },
        }
    } else {
        assert(dynamic_states@ + Seq::<i32>::empty() =~= dynamic_states@);
        vk::COMPARE_OP_NEVER
    };
    proof {
        lemma_append_assoc(old(dynamic_states)@, noted, depth_compare_states(*c));
        noted = noted + depth_compare_states(*c);
    }
    let depth_bounds_test_enable: bool = c.depth_bounds_test_enable.unwrap_or(
        false,
        vk::DYNAMIC_STATE_DEPTH_BOUNDS_TEST_ENABLE,
        dynamic_states,
    );
    proof {
        lemma_append_assoc(old(dynamic_states)@, noted, pushed(c.depth_bounds_test_enable, vk::DYNAMIC_STATE_DEPTH_BOUNDS_TEST_ENABLE));
        noted = noted + pushed(c.depth_bounds_test_enable, vk::DYNAMIC_STATE_DEPTH_BOUNDS_TEST_ENABLE);
    }
    let stencil_test_enable: bool = c.stencil_test_enable.unwrap_or(
        false,
        vk::DYNAMIC_STATE_STENCIL_TEST_ENABLE,
        dynamic_states,
    );
    proof {
        lemma_append_assoc(old(dynamic_states)@, noted, pushed(c.stencil_test_enable, vk::DYNAMIC_STATE_STENCIL_TEST_ENABLE));
        noted = noted + pushed(c.stencil_test_enable, vk::DYNAMIC_STATE_STENCIL_TEST_ENABLE);
    }
    let (min_depth_bounds, max_depth_bounds): (u32, u32) = c.depth_bounds.unwrap_or(
        (0, 0),
        vk::DYNAMIC_STATE_DEPTH_BOUNDS,
        dynamic_states,
    );
    proof {
        lemma_append_assoc(old(dynamic_states)@, noted, pushed(c.depth_bounds, vk::DYNAMIC_STATE_DEPTH_BOUNDS));
        noted = noted + pushed(c.depth_bounds, vk::DYNAMIC_STATE_DEPTH_BOUNDS);
    }
    let front = match stencil_side(&c.front_stencil, dynamic_states) {
        Some(s) => s,
        None => {
            return Err(PipelineError::InvalidFrontStencilCompareOp);
        },
    };
    proof {
        lemma_append_assoc(old(dynamic_states)@, noted, stencil_states(c.front_stencil));
        noted = noted + stencil_states(c.front_stencil);
    }
    let back = match stencil_side(&c.back_stencil, dynamic_states) {
        Some(s) => s,
        None => {
            return Err(PipelineError::InvalidBackStencilCompareOp);
        },
    };
    proof {
        lemma_append_assoc(old(dynamic_states)@, noted, stencil_states(c.back_stencil));
        noted = noted + stencil_states(c.back_stencil);
    }
    assert(noted == depth_stencil_states(*c));
    Ok(
        DepthStencilState {
            depth_test_enable,
            depth_write_enable,
            depth_compare_op,
            depth_bounds_test_enable,
            stencil_test_enable,
            front,
            back,
            min_depth_bounds,
            max_depth_bounds,
        },
    )
}

// ---------------------------------------------------------------------------
// Color blending
// ---------------------------------------------------------------------------

pub open spec fn is_component(c: char) -> bool {
    c == 'r' || c == 'g' || c == 'b' || c == 'a'
}

/// A write mask is written with the letters of the components.
pub open spec fn write_mask_valid(mask: Seq<char>) -> bool {
    forall|i: int| 0 <= i < mask.len() ==> is_component(#[trigger] mask[i])
}

pub open spec fn component_bit(mask: Seq<char>, c: char, bit: u32) -> u32 {
    if mask.contains(c) {
        bit
    } else {
        0
    }
}

/// The components that a write mask names.
pub open spec fn write_mask_bits(mask: Seq<char>) -> u32 {
    component_bit(mask, 'r', vk::COLOR_COMPONENT_R) | component_bit(
        mask,
        'g',
        vk::COLOR_COMPONENT_G,
    ) | component_bit(mask, 'b', vk::COLOR_COMPONENT_B) | component_bit(
        mask,
        'a',
        vk::COLOR_COMPONENT_A,
    )
}

/// Reads a color write mask.
pub fn color_write_mask(mask: &str) -> (r: Option<u32>)
    ensures
        r is Some <==> write_mask_valid(mask@),
        r matches Some(bits) ==> bits == write_mask_bits(mask@),
{
    let n: usize = mask.unicode_len();
    let mut i: usize = 0;
    while i < n
        invariant
            i <= n,
            n == mask@.len(),
            forall|j: int| 0 <= j < i ==> is_component(#[trigger] mask@[j]),
        decreases n - i,
    {
        match mask.get_char(i) {
            'r' | 'g' | 'b' | 'a' => {},
            _ => {
                assert(!is_component(mask@[i as int]));
                return None;
            },
        }
        i += 1;
    }
    let r: u32 = if contains_char(mask, 'r') { vk::COLOR_COMPONENT_R } else { 0 };
    let g: u32 = if contains_char(mask, 'g') { vk::COLOR_COMPONENT_G } else { 0 };
    let b: u32 = if contains_char(mask, 'b') { vk::COLOR_COMPONENT_B } else { 0 };
    let a: u32 = if contains_char(mask, 'a') { vk::COLOR_COMPONENT_A } else { 0 };
    Some(r | g | b | a)
}

pub open spec fn all_components() -> u32 {
    vk::COLOR_COMPONENT_R | vk::COLOR_COMPONENT_G | vk::COLOR_COMPONENT_B | vk::COLOR_COMPONENT_A
}

pub open spec fn attachment_error(a: AttachmentConfig) -> Option<PipelineError> {
    if a.blend_equation is Unset && a.blend_enable == RequiredDynamicState::Static(true) {
        Some(PipelineError::BlendEquationRequired)
    } else if a.color_write_mask is Static && !write_mask_valid(a.color_write_mask->Static_0@) {
        Some(PipelineError::UnrecognizedColorWriteMask)
    } else {
        None
    }
}

/// The blend state of an attachment. What is not fixed is zero, but for the
/// write mask, which covers every component where none is given.
pub open spec fn attachment_of(a: AttachmentConfig) -> ColorBlendAttachment {
    let zero = BlendEquation { color: (0, 0, 0), alpha: (0, 0, 0) };
    let equation = fixed_or(a.blend_equation, zero);
    ColorBlendAttachment {
        blend_enable: a.blend_enable == RequiredDynamicState::Static(true),
        src_color_blend_factor: equation.color.0,
        dst_color_blend_factor: equation.color.2,
        color_blend_op: equation.color.1,
        src_alpha_blend_factor: equation.alpha.0,
        dst_alpha_blend_factor: equation.alpha.2,
        alpha_blend_op: equation.alpha.1,
        color_write_mask: match a.color_write_mask {
            OptionalDynamicState::Unset => all_components(),
            OptionalDynamicState::Dynamic => 0,
            OptionalDynamicState::Static(mask) => write_mask_bits(mask@),
        },
    }
}

/// Blend state of one attachment.
pub fn color_blend_attachment(a: &AttachmentConfig) -> (r: Result<
    ColorBlendAttachment,
    PipelineError,
>)
    ensures
        r is Ok <==> attachment_error(*a) is None,
        r matches Err(e) ==> attachment_error(*a) == Some(e),
        r matches Ok(info) ==> info == attachment_of(*a),
{
    let blend_enable: bool = match a.blend_enable {
        RequiredDynamicState::Dynamic => false,
        RequiredDynamicState::Static(b) => b,
    };
    let equation: BlendEquation = match &a.blend_equation {
        OptionalDynamicState::Static(equation) => *equation,
        OptionalDynamicState::Dynamic => BlendEquation { color: (0, 0, 0), alpha: (0, 0, 0) },
        OptionalDynamicState::Unset => {
            if blend_enable {
                return Err(PipelineError::BlendEquationRequired);
            }
            BlendEquation { color: (0, 0, 0), alpha: (0, 0, 0) }
        },
    };
    let write_mask: u32 = match &a.color_write_mask {
        OptionalDynamicState::Unset => vk::COLOR_COMPONENT_R | vk::COLOR_COMPONENT_G
            | vk::COLOR_COMPONENT_B | vk::COLOR_COMPONENT_A,
        OptionalDynamicState::Dynamic => 0,
        OptionalDynamicState::Static(mask) => match color_write_mask(mask.as_str()) {
            Some(bits) => bits,
            None => {
                return Err(PipelineError::UnrecognizedColorWriteMask);
            },
        },
    };
    Ok(
        ColorBlendAttachment {
            blend_enable,
            src_color_blend_factor: equation.color.0,
            dst_color_blend_factor: equation.color.2,
            color_blend_op: equation.color.1,
            src_alpha_blend_factor: equation.alpha.0,
            dst_alpha_blend_factor: equation.alpha.2,
            alpha_blend_op: equation.alpha.1,
            color_write_mask: write_mask,
        },
    )
}

/// The error of the first faulty attachment.
pub open spec fn first_attachment_error(attachments: Seq<AttachmentConfig>) -> Option<PipelineError>
    decreases attachments.len(),
{
    if attachments.len() == 0 {
        None
    } else if first_attachment_error(attachments.drop_last()) is Some {
        first_attachment_error(attachments.drop_last())
    } else {
        attachment_error(attachments.last())
    }
}

/// A setting of the attachments is dynamic for all of them or for none.
pub open spec fn uniform(flags: Seq<bool>) -> bool {
    !flags.contains(true) || !flags.contains(false)
}

pub open spec fn blend_enable_flags(attachments: Seq<AttachmentConfig>) -> Seq<bool> {
    attachments.map_values(|a: AttachmentConfig| a.blend_enable is Dynamic)
}

pub open spec fn blend_equation_flags(attachments: Seq<AttachmentConfig>) -> Seq<bool> {
    attachments.map_values(|a: AttachmentConfig| a.blend_equation is Dynamic)
}

pub open spec fn write_mask_flags(attachments: Seq<AttachmentConfig>) -> Seq<bool> {
    attachments.map_values(|a: AttachmentConfig| a.color_write_mask is Dynamic)
}

/// A state that is dynamic for every attachment is asked for once; with no
/// attachment at all it is asked for too.
pub open spec fn shared_state(flags: Seq<bool>, state: i32) -> Seq<i32> {
    if !flags.contains(false) {
        seq![state]
    } else {
        Seq::empty()
    }
}

/// The logic operation that a string writes over source `s`, destination `t`
/// (`d` where it stands alone).
pub open spec fn logic_op(op: Seq<char>) -> Option<i32> {
    if op == "s & t"@ {
        Some(vk::LOGIC_OP_AND)
    } else if op == "s & !t"@ {
        Some(vk::LOGIC_OP_AND_REVERSE)
    } else if op == "!s & t"@ {
        Some(vk::LOGIC_OP_AND_INVERTED)
    } else if op == "!(s & t)"@ {
        Some(vk::LOGIC_OP_NAND)
    } else if op == "s | t"@ {
        Some(vk::LOGIC_OP_OR)
    } else if op == "s | !t"@ {
        Some(vk::LOGIC_OP_OR_REVERSE)
    } else if op == "!s | t"@ {
        Some(vk::LOGIC_OP_OR_INVERTED)
    } else if op == "!(s | t)"@ {
        Some(vk::LOGIC_OP_NOR)
    } else if op == "s ^ t"@ {
        Some(vk::LOGIC_OP_XOR)
    } else if op == "!(s ^ t)"@ {
        Some(vk::LOGIC_OP_EQUIVALENT)
    } else if op == "d"@ {
        Some(vk::LOGIC_OP_NO_OP)
    } else if op == "!d"@ {
        Some(vk::LOGIC_OP_INVERT)
    } else if op == "s"@ {
        Some(vk::LOGIC_OP_COPY)
    } else if op == "!s"@ {
        Some(vk::LOGIC_OP_COPY_INVERTED)
    } else if op == "0"@ {
        Some(vk::LOGIC_OP_CLEAR)
    } else if op == "1"@ {
        Some(vk::LOGIC_OP_SET)
    } else {
        None
    }
}

/// Reads a logic operation.
pub fn logic_op_str(op: &str) -> (r: Option<i32>)
    ensures
        r == logic_op(op@),
{
    if str_eq(op, "s & t") {
        Some(vk::LOGIC_OP_AND)
    } else if str_eq(op, "s & !t") {
        Some(vk::LOGIC_OP_AND_REVERSE)
    } else if str_eq(op, "!s & t") {
        Some(vk::LOGIC_OP_AND_INVERTED)
    } else if str_eq(op, "!(s & t)") {
        Some(vk::LOGIC_OP_NAND)
    } else if str_eq(op, "s | t") {
        Some(vk::LOGIC_OP_OR)
    } else if str_eq(op, "s | !t") {
        Some(vk::LOGIC_OP_OR_REVERSE)
    } else if str_eq(op, "!s | t") {
        Some(vk::LOGIC_OP_OR_INVERTED)
    } else if str_eq(op, "!(s | t)") {
        Some(vk::LOGIC_OP_NOR)
    } else if str_eq(op, "s ^ t") {
        Some(vk::LOGIC_OP_XOR)
    } else if str_eq(op, "!(s ^ t)") {
        Some(vk::LOGIC_OP_EQUIVALENT)
    } else if str_eq(op, "d") {
        Some(vk::LOGIC_OP_NO_OP)
    } else if str_eq(op, "!d") {
        Some(vk::LOGIC_OP_INVERT)
    } else if str_eq(op, "s") {
        Some(vk::LOGIC_OP_COPY)
    } else if str_eq(op, "!s") {
        Some(vk::LOGIC_OP_COPY_INVERTED)
    } else if str_eq(op, "0") {
        Some(vk::LOGIC_OP_CLEAR)
    } else if str_eq(op, "1") {
        Some(vk::LOGIC_OP_SET)
    } else {
        None
    }
}

/// The logic operation of a pipeline; clears where none is given.
pub open spec fn logic_op_of(c: GraphicsPipelineConfig) -> Option<i32> {
    match c.blend_logic_op {
        OptionalDynamicState::Static(op) => logic_op(op@),
        _ => Some(vk::LOGIC_OP_CLEAR),
    }
}

pub open spec fn color_blend_error(c: GraphicsPipelineConfig) -> Option<PipelineError> {
    if first_attachment_error(c.attachments@) is Some {
        first_attachment_error(c.attachments@)
    } else if !uniform(blend_enable_flags(c.attachments@)) {
        Some(PipelineError::MixedBlendEnable)
    } else if !uniform(blend_equation_flags(c.attachments@)) {
        Some(PipelineError::MixedBlendEquation)
    } else if !uniform(write_mask_flags(c.attachments@)) {
        Some(PipelineError::MixedColorWriteMask)
    } else if logic_op_of(c) is None {
        Some(PipelineError::UnrecognizedBlendLogicOp)
    } else {
        None
    }
}

pub open spec fn color_blend_states(c: GraphicsPipelineConfig) -> Seq<i32> {
    shared_state(blend_enable_flags(c.attachments@), vk::DYNAMIC_STATE_COLOR_BLEND_ENABLE_EXT)
        + shared_state(
        blend_equation_flags(c.attachments@),
        vk::DYNAMIC_STATE_COLOR_BLEND_EQUATION_EXT,
    ) + shared_state(write_mask_flags(c.attachments@), vk::DYNAMIC_STATE_COLOR_WRITE_MASK_EXT)
        + pushed(c.blend_logic_op_enable, vk::DYNAMIC_STATE_LOGIC_OP_ENABLE_EXT) + pushed(
        c.blend_logic_op,
        vk::DYNAMIC_STATE_LOGIC_OP_EXT,
    ) + pushed(c.blend_constants, vk::DYNAMIC_STATE_BLEND_CONSTANTS)
}

pub open spec fn is_color_blend(info: ColorBlendState, c: GraphicsPipelineConfig) -> bool {
    &&& info.logic_op_enable == fixed_or(c.blend_logic_op_enable, false)
    &&& Some(info.logic_op) == logic_op_of(c)
    &&& info.attachments@ == c.attachments@.map_values(|a: AttachmentConfig| attachment_of(a))
    &&& info.blend_constants == fixed_or(c.blend_constants, (0, 0, 0, 0))
}

/// Asks for `state` where every flag is set; `false` where only some are.
fn share(flags: &Vec<bool>, state: i32, dynamic_states: &mut Vec<i32>) -> (ok: bool)
    ensures
        ok == uniform(flags@),
        ok ==> final(dynamic_states)@ == old(dynamic_states)@ + shared_state(flags@, state),
{
    let mut some = false;
    let mut all = true;
    let mut i: usize = 0;
    while i < flags.len()
        invariant
            i <= flags@.len(),
            some == flags@.take(i as int).contains(true),
            all == !flags@.take(i as int).contains(false),
        decreases flags@.len() - i,
    {
        let ghost before = flags@.take(i as int);
        let ghost after = flags@.take(i + 1);
        proof {
            assert(after =~= before.push(flags@[i as int]));
            assert(after[i as int] == flags@[i as int]);
            assert forall|b: bool| after.contains(b) == (before.contains(b) || flags@[i as int]
                == b) by {
                if before.contains(b) {
                    let j = choose|j: int| 0 <= j < before.len() && before[j] == b;
                    assert(after[j] == b);
                }
                if after.contains(b) {
                    let j = choose|j: int| 0 <= j < after.len() && after[j] == b;
                    if j < i {
                        assert(before[j] == b);
                    }
                }
            }
        }
        if flags[i] {
            some = true;
        } else {
            all = false;
        }
        i += 1;
    }
    assert(flags@.take(i as int) =~= flags@);
    if all {
        dynamic_states.push(state);
    } else if some {
        return false;
    }
    assert(dynamic_states@ =~= old(dynamic_states)@ + shared_state(flags@, state));
    true
}

/// Color blend state of a pipeline.
pub fn color_blend_state(c: &GraphicsPipelineConfig, dynamic_states: &mut Vec<i32>) -> (r: Result<
    ColorBlendState,
    PipelineError,
>)
    ensures
        r is Ok <==> color_blend_error(*c) is None,
        r matches Err(e) ==> color_blend_error(*c) == Some(e),
        r matches Ok(info) ==> is_color_blend(info, *c) && final(dynamic_states)@ == old(
            dynamic_states,
        )@ + color_blend_states(*c),
{
    let mut attachments: Vec<ColorBlendAttachment> = Vec::new();
    let mut blend_enable: Vec<bool> = Vec::new();
    let mut blend_equation: Vec<bool> = Vec::new();
    let mut write_mask: Vec<bool> = Vec::new();
    let mut i: usize = 0;
    while i < c.attachments.len()
        invariant
            i <= c.attachments@.len(),
            dynamic_states@ == old(dynamic_states)@,
            attachments@ == c.attachments@.take(i as int).map_values(
                |a: AttachmentConfig| attachment_of(a),
            ),
            blend_enable@ == blend_enable_flags(c.attachments@.take(i as int)),
            blend_equation@ == blend_equation_flags(c.attachments@.take(i as int)),
            write_mask@ == write_mask_flags(c.attachments@.take(i as int)),
            first_attachment_error(c.attachments@.take(i as int)) is None,
        decreases c.attachments@.len() - i,
    {
        let a = &c.attachments[i];
        let ghost next = c.attachments@.take(i + 1);
        proof {
            assert(next.drop_last() =~= c.attachments@.take(i as int));
            assert(next.last() == *a);
        }
        match color_blend_attachment(a) {
            Ok(info) => {
                attachments.push(info);
            },
            Err(e) => {
                proof {
                    lemma_first_error_stays(c.attachments@, i + 1);
                }
                return Err(e);
            },
        }
        blend_enable.push(
            match a.blend_enable {
                RequiredDynamicState::Dynamic => true,
                RequiredDynamicState::Static(_) => false,
            },
        );
        blend_equation.push(
            match &a.blend_equation {
                OptionalDynamicState::Dynamic => true,
                _ => false,
            },
        );
        write_mask.push(
            match &a.color_write_mask {
                OptionalDynamicState::Dynamic => true,
                _ => false,
            },
        );
        proof {
            assert(attachments@ =~= next.map_values(|a: AttachmentConfig| attachment_of(a)));
            assert(blend_enable@ =~= blend_enable_flags(next));
            assert(blend_equation@ =~= blend_equation_flags(next));
            assert(write_mask@ =~= write_mask_flags(next));
        }
        i += 1;
    }
    assert(c.attachments@.take(i as int) =~= c.attachments@);
    if !share(&blend_enable, vk::DYNAMIC_STATE_COLOR_BLEND_ENABLE_EXT, dynamic_states) {
        return Err(PipelineError::MixedBlendEnable);
    }
    if !share(&blend_equation, vk::DYNAMIC_STATE_COLOR_BLEND_EQUATION_EXT, dynamic_states) {
        return Err(PipelineError::MixedBlendEquation);
    }
    if !share(&write_mask, vk::DYNAMIC_STATE_COLOR_WRITE_MASK_EXT, dynamic_states) {
        return Err(PipelineError::MixedColorWriteMask);
    }
    let logic_op_enable: bool = c.blend_logic_op_enable.unwrap_or(
        false,
        vk::DYNAMIC_STATE_LOGIC_OP_ENABLE_EXT,
        dynamic_states,
    );
    let op: i32 = match c.blend_logic_op.unwrap(vk::DYNAMIC_STATE_LOGIC_OP_EXT, dynamic_states) {
        None => vk::LOGIC_OP_CLEAR,
        Some(op) => match logic_op_str(op.as_str()) {
            Some(v) => v,
            None => {
                return Err(PipelineError::UnrecognizedBlendLogicOp);
            },
        },
    };
    let blend_constants = c.blend_constants.unwrap_or(
        (0, 0, 0, 0),
        vk::DYNAMIC_STATE_BLEND_CONSTANTS,
        dynamic_states,
    );
    assert(dynamic_states@ =~= old(dynamic_states)@ + color_blend_states(*c));
    Ok(ColorBlendState { logic_op_enable, logic_op: op, attachments, blend_constants })
}

/// A faulty prefix makes the whole list faulty, with the same error.
proof fn lemma_first_error_stays(attachments: Seq<AttachmentConfig>, n: int)
    requires
        0 <= n <= attachments.len(),
        first_attachment_error(attachments.take(n)) is Some,
    ensures
        first_attachment_error(attachments) == first_attachment_error(attachments.take(n)),
    decreases attachments.len() - n,
{
    if n == attachments.len() {
        assert(attachments.take(n) =~= attachments);
    } else {
        let next = attachments.take(n + 1);
        assert(next.drop_last() =~= attachments.take(n));
        lemma_first_error_stays(attachments, n + 1);
    }
}

// ---------------------------------------------------------------------------
// The whole pipeline
// ---------------------------------------------------------------------------

pub open spec fn input_assembly_states(c: GraphicsPipelineConfig) -> Seq<i32> {
    pushed(c.topology, vk::DYNAMIC_STATE_PRIMITIVE_TOPOLOGY) + pushed(
        c.primitive_restart_enabled,
        vk::DYNAMIC_STATE_PRIMITIVE_RESTART_ENABLE,
    ) + pushed(c.tessellation_patch_control_points, vk::DYNAMIC_STATE_PATCH_CONTROL_POINTS_EXT)
}

/// Every state that is set while recording, in the order in which the
/// settings are read.
pub open spec fn dynamic_states_of(c: GraphicsPipelineConfig) -> Seq<i32> {
    vertex_input_states(c.vertex_bindings) + input_assembly_states(c) + viewport_states(c)
        + rasterization_states(c) + multisample_states(c) + depth_stencil_states(c)
        + color_blend_states(c)
}

/// The first fault of a configuration, in the order in which it is read.
pub open spec fn config_error(c: GraphicsPipelineConfig) -> Option<PipelineError> {
    if !entry_names_valid(c.shaders@) {
        Some(PipelineError::InvalidEntryName)
    } else if !sample_count_valid(c) {
        Some(PipelineError::UnrecognizedSampleCount)
    } else if depth_stencil_error(c) is Some {
        depth_stencil_error(c)
    } else {
        color_blend_error(c)
    }
}

pub open spec fn is_pipeline(info: GraphicsPipelineInfo, c: GraphicsPipelineConfig) -> bool {
    &&& info.stages@.len() == c.shaders@.len()
    &&& forall|i: int|
        0 <= i < info.stages@.len() ==> is_stage(#[trigger] info.stages@[i], c.shaders@[i])
    &&& is_vertex_input(info.vertex_input, c.vertex_bindings)
    &&& info.topology == fixed_or(c.topology, 0)
    &&& info.primitive_restart_enable == fixed_or(c.primitive_restart_enabled, false)
    &&& info.patch_control_points == fixed_or(c.tessellation_patch_control_points, 0)
    &&& is_viewport(info.viewport, c)
    &&& info.rasterization == rasterization_of(c)
    &&& is_multisample(info.multisample, c)
    &&& info.depth_stencil == depth_stencil_of(c)
    &&& is_color_blend(info.color_blend, c)
    &&& info.dynamic_states@ == dynamic_states_of(c)
    &&& info.color_attachment_formats@ == c.attachments@.map_values(
        |a: AttachmentConfig| a.format,
    )
    &&& info.depth_attachment_format == c.depth_format
    &&& info.stencil_attachment_format == c.stencil_format
}

fn attachment_formats(attachments: &Vec<AttachmentConfig>) -> (r: Vec<i32>)
    ensures
        r@ == attachments@.map_values(|a: AttachmentConfig| a.format),
{
    let mut out: Vec<i32> = Vec::new();
    let mut i: usize = 0;
    while i < attachments.len()
        invariant
            i <= attachments@.len(),
            out@ == attachments@.take(i as int).map_values(|a: AttachmentConfig| a.format),
        decreases attachments@.len() - i,
    {
        out.push(attachments[i].format);
        i += 1;
        assert(out@ =~= attachments@.take(i as int).map_values(|a: AttachmentConfig| a.format));
    }
    assert(attachments@.take(i as int) =~= attachments@);
    out
}

/// Works out the create-info of a graphics pipeline.
pub fn graphics_pipeline_info(c: &GraphicsPipelineConfig) -> (r: Result<
    GraphicsPipelineInfo,
    PipelineError,
>)
    ensures
        r is Ok <==> config_error(*c) is None,
        r matches Err(e) ==> config_error(*c) == Some(e),
        r matches Ok(info) ==> is_pipeline(info, *c),
{
    let stages = match shader_stages(&c.shaders) {
        Ok(v) => v,
        Err(e) => {
            return Err(e);
        },
    };
    let mut dynamic_states: Vec<i32> = Vec::new();
    let vertex_input = vertex_input_state(&c.vertex_bindings, &mut dynamic_states);
    let topology: i32 = c.topology.unwrap_or(
        0,
        vk::DYNAMIC_STATE_PRIMITIVE_TOPOLOGY,
        &mut dynamic_states,
    );
    let primitive_restart_enable: bool = c.primitive_restart_enabled.unwrap_or(
        false,
        vk::DYNAMIC_STATE_PRIMITIVE_RESTART_ENABLE,
        &mut dynamic_states,
    );
    let patch_control_points: u32 = c.tessellation_patch_control_points.unwrap_or(
        0,
        vk::DYNAMIC_STATE_PATCH_CONTROL_POINTS_EXT,
        &mut dynamic_states,
    );
    assert(dynamic_states@ =~= vertex_input_states(c.vertex_bindings) + input_assembly_states(*c));
    let viewport = viewport_state(c, &mut dynamic_states);
    let rasterization = rasterization_state(c, &mut dynamic_states);
    let multisample = match multisample_state(c, &mut dynamic_states) {
        Ok(v) => v,
        Err(e) => {
            return Err(e);
        },
    };
    let depth_stencil = match depth_stencil_state(c, &mut dynamic_states) {
        Ok(v) => v,
        Err(e) => {
            return Err(e);
        },
    };
    let color_blend = match color_blend_state(c, &mut dynamic_states) {
        Ok(v) => v,
        Err(e) => {
            return Err(e);
        },
    };
    Ok(
        GraphicsPipelineInfo {
            stages,
            vertex_input,
            topology,
            primitive_restart_enable,
            patch_control_points,
            viewport,
            rasterization,
            multisample,
            depth_stencil,
            color_blend,
            dynamic_states,
            color_attachment_formats: attachment_formats(&c.attachments),
            depth_attachment_format: c.depth_format,
            stencil_attachment_format: c.stencil_format,
        },
    )
}

// ---------------------------------------------------------------------------
// What settings come to
// ---------------------------------------------------------------------------

/// Input assembly and rasterization are as they are fixed in the configuration,
/// each property by the setting of its name; one that is not fixed is off or
/// zero.
pub proof fn law_rasterization_is_as_configured(
    info: GraphicsPipelineInfo,
    c: GraphicsPipelineConfig,
)
    requires
        is_pipeline(info, c),
    ensures
        c.topology matches OptionalDynamicState::Static(v) ==> info.topology == v,
        !(c.topology is Static) ==> info.topology == 0,
        c.primitive_restart_enabled matches OptionalDynamicState::Static(v) ==> info.primitive_restart_enable == v,
        !(c.primitive_restart_enabled is Static) ==> !info.primitive_restart_enable,
        c.tessellation_patch_control_points matches OptionalDynamicState::Static(v) ==> info.patch_control_points == v,
        !(c.tessellation_patch_control_points is Static) ==> info.patch_control_points == 0,
        c.depth_clamp_enable matches OptionalDynamicState::Static(v) ==> info.rasterization.depth_clamp_enable == v,
        !(c.depth_clamp_enable is Static) ==> !info.rasterization.depth_clamp_enable,
        c.rasterizer_discard_enable matches OptionalDynamicState::Static(v) ==> info.rasterization.rasterizer_discard_enable == v,
        !(c.rasterizer_discard_enable is Static) ==> !info.rasterization.rasterizer_discard_enable,
        c.polygon_mode matches OptionalDynamicState::Static(v) ==> info.rasterization.polygon_mode == v,
        !(c.polygon_mode is Static) ==> info.rasterization.polygon_mode == 0,
        c.cull_mode matches OptionalDynamicState::Static(v) ==> info.rasterization.cull_mode == v,
        !(c.cull_mode is Static) ==> info.rasterization.cull_mode == 0,
        c.front_face matches OptionalDynamicState::Static(v) ==> info.rasterization.front_face == v,
        !(c.front_face is Static) ==> info.rasterization.front_face == 0,
        c.depth_bias_enable matches OptionalDynamicState::Static(v) ==> info.rasterization.depth_bias_enable == v,
        !(c.depth_bias_enable is Static) ==> !info.rasterization.depth_bias_enable,
        c.line_width matches OptionalDynamicState::Static(v) ==> info.rasterization.line_width == v,
        !(c.line_width is Static) ==> info.rasterization.line_width == 0,
        c.depth_bias matches OptionalDynamicState::Static(v) ==> info.rasterization.depth_bias == v,
        !(c.depth_bias is Static) ==> info.rasterization.depth_bias == (DepthBias { constant_factor: 0, clamp: 0, slope_factor: 0 }),
{
}

/// Depth and stencil tests are as they are fixed in the configuration, each
/// property by the setting of its name; one that is not fixed is off or zero.
/// Depths are compared as configured where the test is on from creation, and
/// otherwise never pass.
pub proof fn law_depth_and_stencil_are_as_configured(
    info: GraphicsPipelineInfo,
    c: GraphicsPipelineConfig,
)
    requires
        is_pipeline(info, c),
        config_error(c) is None,
    ensures
        c.depth_test_enable matches OptionalDynamicState::Static(v) ==> info.depth_stencil.depth_test_enable == v,
        !(c.depth_test_enable is Static) ==> !info.depth_stencil.depth_test_enable,
        c.depth_write_enable matches OptionalDynamicState::Static(v) ==> info.depth_stencil.depth_write_enable == v,
        !(c.depth_write_enable is Static) ==> !info.depth_stencil.depth_write_enable,
        c.depth_bounds_test_enable matches OptionalDynamicState::Static(v) ==> info.depth_stencil.depth_bounds_test_enable == v,
        !(c.depth_bounds_test_enable is Static) ==> !info.depth_stencil.depth_bounds_test_enable,
        c.stencil_test_enable matches OptionalDynamicState::Static(v) ==> info.depth_stencil.stencil_test_enable == v,
        !(c.stencil_test_enable is Static) ==> !info.depth_stencil.stencil_test_enable,
        c.depth_bounds matches OptionalDynamicState::Static(v) ==> info.depth_stencil.min_depth_bounds
            == v.0 && info.depth_stencil.max_depth_bounds == v.1,
        !(c.depth_bounds is Static) ==> info.depth_stencil.min_depth_bounds == 0
            && info.depth_stencil.max_depth_bounds == 0,
        c.depth_test_enable == OptionalDynamicState::Static(true) && c.depth_compare_op is Static
            ==> compare_op(c.depth_compare_op->Static_0@) == Some(
            info.depth_stencil.depth_compare_op,
        ),
        c.depth_test_enable != OptionalDynamicState::Static(true) || !(c.depth_compare_op is Static)
            ==> info.depth_stencil.depth_compare_op == vk::COMPARE_OP_NEVER,
        side_is_as_configured(info.depth_stencil.front, c.front_stencil),
        side_is_as_configured(info.depth_stencil.back, c.back_stencil),
{
}

/// One side of the stencil test does what its configuration fixes, each
/// operation in its own case, and nothing where it fixes nothing.
pub open spec fn side_is_as_configured(side: StencilOpState, c: Option<StencilConfig>) -> bool {
    if c is Some && c->0.ops is Static {
        let ops = c->0.ops->Static_0;
        &&& side.fail_op == ops.fail
        &&& side.pass_op == ops.pass
        &&& side.depth_fail_op == ops.depth_fail
        &&& compare_op(ops.compare@) == Some(side.compare_op)
    } else {
        side.fail_op == 0 && side.pass_op == 0 && side.depth_fail_op == 0 && side.compare_op == 0
    }
}

/// Multisampling is as it is fixed in the configuration, each property by the
/// setting of its name; samples are shaded one by one exactly where a least
/// fraction is given.
pub proof fn law_multisampling_is_as_configured(
    info: GraphicsPipelineInfo,
    c: GraphicsPipelineConfig,
)
    requires
        is_pipeline(info, c),
    ensures
        c.sample_count matches OptionalDynamicState::Static(v) ==> info.multisample.rasterization_samples == v,
        !(c.sample_count is Static) ==> info.multisample.rasterization_samples == 0,
        c.alpha_to_coverage_enable matches OptionalDynamicState::Static(v) ==> info.multisample.alpha_to_coverage_enable == v,
        !(c.alpha_to_coverage_enable is Static) ==> !info.multisample.alpha_to_coverage_enable,
        c.alpha_to_one_enable matches OptionalDynamicState::Static(v) ==> info.multisample.alpha_to_one_enable == v,
        !(c.alpha_to_one_enable is Static) ==> !info.multisample.alpha_to_one_enable,
        c.sample_shading matches Some(v) ==> info.multisample.sample_shading_enable
            && info.multisample.min_sample_shading == v,
        c.sample_shading is None ==> !info.multisample.sample_shading_enable
            && info.multisample.min_sample_shading == 0,
        c.sample_mask is Static ==> info.multisample.sample_mask@ == c.sample_mask->Static_0@,
        !(c.sample_mask is Static) ==> info.multisample.sample_mask@.len() == 0,
{
}

/// Blending is as it is fixed in the configuration. Each attachment has the
/// format, the factors and the operations that are configured for it; it is
/// blended exactly where that is fixed.
pub proof fn law_blending_is_as_configured(
    info: GraphicsPipelineInfo,
    c: GraphicsPipelineConfig,
    i: int,
)
    requires
        is_pipeline(info, c),
        config_error(c) is None,
        0 <= i < c.attachments@.len(),
    ensures
        c.blend_logic_op_enable matches OptionalDynamicState::Static(v) ==> info.color_blend.logic_op_enable == v,
        !(c.blend_logic_op_enable is Static) ==> !info.color_blend.logic_op_enable,
        c.blend_constants matches OptionalDynamicState::Static(v) ==> info.color_blend.blend_constants == v,
        !(c.blend_constants is Static) ==> info.color_blend.blend_constants == (0u32, 0u32, 0u32, 0u32),
        c.blend_logic_op is Static ==> logic_op(c.blend_logic_op->Static_0@) == Some(
            info.color_blend.logic_op,
        ),
        !(c.blend_logic_op is Static) ==> info.color_blend.logic_op == vk::LOGIC_OP_CLEAR,
        info.color_blend.attachments@.len() == c.attachments@.len(),
        info.color_attachment_formats@.len() == c.attachments@.len(),
        info.color_attachment_formats@[i] == c.attachments@[i].format,
        info.depth_attachment_format == c.depth_format,
        info.stencil_attachment_format == c.stencil_format,
        ({
            let a = c.attachments@[i];
            let blend = info.color_blend.attachments@[i];
            &&& blend.blend_enable <==> a.blend_enable == RequiredDynamicState::Static(true)
            &&& a.blend_equation matches OptionalDynamicState::Static(equation) ==> {
                &&& blend.src_color_blend_factor == equation.color.0
                &&& blend.color_blend_op == equation.color.1
                &&& blend.dst_color_blend_factor == equation.color.2
                &&& blend.src_alpha_blend_factor == equation.alpha.0
                &&& blend.alpha_blend_op == equation.alpha.1
                &&& blend.dst_alpha_blend_factor == equation.alpha.2
            }
            &&& !(a.blend_equation is Static) ==> {
                &&& blend.src_color_blend_factor == 0
                &&& blend.color_blend_op == 0
                &&& blend.dst_color_blend_factor == 0
                &&& blend.src_alpha_blend_factor == 0
                &&& blend.alpha_blend_op == 0
                &&& blend.dst_alpha_blend_factor == 0
            }
            &&& a.color_write_mask is Unset ==> blend.color_write_mask == 15
            &&& a.color_write_mask is Dynamic ==> blend.color_write_mask == 0
            &&& a.color_write_mask is Static ==> names_components(
                a.color_write_mask->Static_0@,
                blend.color_write_mask,
            )
        }),
{
    let a = c.attachments@[i];
    assert(info.color_blend.attachments@[i] == attachment_of(a));
    assert(1u32 | 2u32 | 4u32 | 8u32 == 15u32) by (bit_vector);
    if a.color_write_mask is Static {
        lemma_mask_bits(a.color_write_mask->Static_0@);
    }
}

/// The bits are those of the components whose letters stand in the mask, from
/// red, which is the lowest, to alpha.
pub open spec fn names_components(mask: Seq<char>, bits: u32) -> bool {
    &&& bits % 2 == 1 <==> mask.contains('r')
    &&& bits / 2 % 2 == 1 <==> mask.contains('g')
    &&& bits / 4 % 2 == 1 <==> mask.contains('b')
    &&& bits / 8 % 2 == 1 <==> mask.contains('a')
    &&& bits < 16
}

proof fn lemma_mask_bits(mask: Seq<char>)
    ensures
        names_components(mask, write_mask_bits(mask)),
{
    let r = component_bit(mask, 'r', vk::COLOR_COMPONENT_R);
    let g = component_bit(mask, 'g', vk::COLOR_COMPONENT_G);
    let b = component_bit(mask, 'b', vk::COLOR_COMPONENT_B);
    let a = component_bit(mask, 'a', vk::COLOR_COMPONENT_A);
    let bits = r | g | b | a;
    assert(bits == r + g + b + a) by (bit_vector)
        requires
            bits == r | g | b | a,
            r == 0 || r == 1,
            g == 0 || g == 2,
            b == 0 || b == 4,
            a == 0 || a == 8,
    ;
}

/// A write mask stands for the components that it names, whatever their order.
pub proof fn law_masks_name_their_components(mask: Seq<char>)
    ensures
        names_components(mask, write_mask_bits(mask)),
        write_mask_valid(mask) <==> forall|i: int|
            0 <= i < mask.len() ==> (#[trigger] mask[i] == 'r' || mask[i] == 'g' || mask[i] == 'b'
                || mask[i] == 'a'),
{
    lemma_mask_bits(mask);
    if write_mask_valid(mask) {
        assert forall|i: int| 0 <= i < mask.len() implies (#[trigger] mask[i] == 'r' || mask[i]
            == 'g' || mask[i] == 'b' || mask[i] == 'a') by {
            assert(is_component(mask[i]));
        }
    }
}

/// The comparison of two numbers comes out as its name says: of the three bits
/// of the operation the first is for numbers that are less, the second for equal
/// ones, and the third for those that are greater.
pub proof fn law_comparisons_mean_what_they_say()
    ensures
        compare_op("false"@) == Some(0i32),
        compare_op("0"@) == Some(0i32),
        compare_op("<"@) == Some(1i32),
        compare_op("=="@) == Some(2i32),
        compare_op("<="@) == Some(3i32),
        compare_op(">"@) == Some(4i32),
        compare_op("!="@) == Some(5i32),
        compare_op(">="@) == Some(6i32),
        compare_op("true"@) == Some(7i32),
        compare_op("1"@) == Some(7i32),
        forall|op: Seq<char>|
            #[trigger] compare_op(op) is Some ==> op == "false"@ || op == "0"@ || op == "<"@ || op
                == "=="@ || op == "<="@ || op == ">"@ || op == "!="@ || op == ">="@ || op
                == "true"@ || op == "1"@,
{
    reveal_strlit("false");
    reveal_strlit("0");
    reveal_strlit("<");
    reveal_strlit("==");
    reveal_strlit("<=");
    reveal_strlit(">");
    reveal_strlit("!=");
    reveal_strlit(">=");
    reveal_strlit("true");
    reveal_strlit("1");
    assert("false"@.len() == 5);
    assert("0"@.len() == 1);
    assert("<"@.len() == 1);
    assert("=="@.len() == 2);
    assert("<="@.len() == 2);
    assert(">"@.len() == 1);
    assert("!="@.len() == 2);
    assert(">="@.len() == 2);
    assert("true"@.len() == 4);
    assert("1"@.len() == 1);
    assert("<"@[0] != "0"@[0]);
    assert("<"@ != "0"@);
    assert("<="@[0] != "=="@[0]);
    assert("<="@ != "=="@);
    assert(">"@[0] != "0"@[0]);
    assert(">"@ != "0"@);
    assert(">"@[0] != "<"@[0]);
    assert(">"@ != "<"@);
    assert("!="@[0] != "=="@[0]);
    assert("!="@ != "=="@);
    assert("!="@[0] != "<="@[0]);
    assert("!="@ != "<="@);
    assert(">="@[0] != "=="@[0]);
    assert(">="@ != "=="@);
    assert(">="@[0] != "<="@[0]);
    assert(">="@ != "<="@);
    assert(">="@[0] != "!="@[0]);
    assert(">="@ != "!="@);
    assert("1"@[0] != "0"@[0]);
    assert("1"@ != "0"@);
    assert("1"@[0] != "<"@[0]);
    assert("1"@ != "<"@);
    assert("1"@[0] != ">"@[0]);
    assert("1"@ != ">"@);
}

/// What a logic operation makes of a bit of the source and one of the
/// destination: its number is its table.
pub open spec fn logic_result(op: i32, source: bool, destination: bool) -> bool {
    if source && destination {
        op % 2 == 1
    } else if source {
        op / 2 % 2 == 1
    } else if destination {
        op / 4 % 2 == 1
    } else {
        op / 8 % 2 == 1
    }
}

/// A logic operation computes what its name says, of the source `s` and of the
/// destination `t`, which stands alone as `d`.
pub proof fn law_logic_operations_compute_what_they_say(s: bool, d: bool)
    ensures
        logic_op("s & t"@) matches Some(op) && 0 <= op < 16 && logic_result(op, s, d) == (s && d),
        logic_op("s & !t"@) matches Some(op) && 0 <= op < 16 && logic_result(op, s, d) == (s && !d),
        logic_op("!s & t"@) matches Some(op) && 0 <= op < 16 && logic_result(op, s, d) == (!s && d),
        logic_op("!(s & t)"@) matches Some(op) && 0 <= op < 16 && logic_result(op, s, d) == (!(s && d)),
        logic_op("s | t"@) matches Some(op) && 0 <= op < 16 && logic_result(op, s, d) == (s || d),
        logic_op("s | !t"@) matches Some(op) && 0 <= op < 16 && logic_result(op, s, d) == (s || !d),
        logic_op("!s | t"@) matches Some(op) && 0 <= op < 16 && logic_result(op, s, d) == (!s || d),
        logic_op("!(s | t)"@) matches Some(op) && 0 <= op < 16 && logic_result(op, s, d) == (!(s || d)),
        logic_op("s ^ t"@) matches Some(op) && 0 <= op < 16 && logic_result(op, s, d) == (s != d),
        logic_op("!(s ^ t)"@) matches Some(op) && 0 <= op < 16 && logic_result(op, s, d) == (s == d),
        logic_op("d"@) matches Some(op) && 0 <= op < 16 && logic_result(op, s, d) == (d),
        logic_op("!d"@) matches Some(op) && 0 <= op < 16 && logic_result(op, s, d) == (!d),
        logic_op("s"@) matches Some(op) && 0 <= op < 16 && logic_result(op, s, d) == (s),
        logic_op("!s"@) matches Some(op) && 0 <= op < 16 && logic_result(op, s, d) == (!s),
        logic_op("0"@) matches Some(op) && 0 <= op < 16 && logic_result(op, s, d) == (false),
        logic_op("1"@) matches Some(op) && 0 <= op < 16 && logic_result(op, s, d) == (true),
        forall|op: Seq<char>| #[trigger] logic_op(op) is Some ==> logic_op_name(op),
{
    reveal_strlit("s & t");
    reveal_strlit("s & !t");
    reveal_strlit("!s & t");
    reveal_strlit("!(s & t)");
    reveal_strlit("s | t");
    reveal_strlit("s | !t");
    reveal_strlit("!s | t");
    reveal_strlit("!(s | t)");
    reveal_strlit("s ^ t");
    reveal_strlit("!(s ^ t)");
    reveal_strlit("d");
    reveal_strlit("!d");
    reveal_strlit("s");
    reveal_strlit("!s");
    reveal_strlit("0");
    reveal_strlit("1");
    assert("s & t"@.len() == 5);
    assert("s & !t"@.len() == 6);
    assert("!s & t"@.len() == 6);
    assert("!(s & t)"@.len() == 8);
    assert("s | t"@.len() == 5);
    assert("s | !t"@.len() == 6);
    assert("!s | t"@.len() == 6);
    assert("!(s | t)"@.len() == 8);
    assert("s ^ t"@.len() == 5);
    assert("!(s ^ t)"@.len() == 8);
    assert("d"@.len() == 1);
    assert("!d"@.len() == 2);
    assert("s"@.len() == 1);
    assert("!s"@.len() == 2);
    assert("0"@.len() == 1);
    assert("1"@.len() == 1);
    assert("!s & t"@[0] != "s & !t"@[0]);
    assert("!s & t"@ != "s & !t"@);
    assert("s | t"@[2] != "s & t"@[2]);
    assert("s | t"@ != "s & t"@);
    assert("s | !t"@[2] != "s & !t"@[2]);
    assert("s | !t"@ != "s & !t"@);
    assert("s | !t"@[0] != "!s & t"@[0]);
    assert("s | !t"@ != "!s & t"@);
    assert("!s | t"@[0] != "s & !t"@[0]);
    assert("!s | t"@ != "s & !t"@);
    assert("!s | t"@[3] != "!s & t"@[3]);
    assert("!s | t"@ != "!s & t"@);
    assert("!s | t"@[0] != "s | !t"@[0]);
    assert("!s | t"@ != "s | !t"@);
    assert("!(s | t)"@[4] != "!(s & t)"@[4]);
    assert("!(s | t)"@ != "!(s & t)"@);
    assert("s ^ t"@[2] != "s & t"@[2]);
    assert("s ^ t"@ != "s & t"@);
    assert("s ^ t"@[2] != "s | t"@[2]);
    assert("s ^ t"@ != "s | t"@);
    assert("!(s ^ t)"@[4] != "!(s & t)"@[4]);
    assert("!(s ^ t)"@ != "!(s & t)"@);
    assert("!(s ^ t)"@[4] != "!(s | t)"@[4]);
    assert("!(s ^ t)"@ != "!(s | t)"@);
    assert("s"@[0] != "d"@[0]);
    assert("s"@ != "d"@);
    assert("!s"@[1] != "!d"@[1]);
    assert("!s"@ != "!d"@);
    assert("0"@[0] != "d"@[0]);
    assert("0"@ != "d"@);
    assert("0"@[0] != "s"@[0]);
    assert("0"@ != "s"@);
    assert("1"@[0] != "d"@[0]);
    assert("1"@ != "d"@);
    assert("1"@[0] != "s"@[0]);
    assert("1"@ != "s"@);
    assert("1"@[0] != "0"@[0]);
    assert("1"@ != "0"@);
}

/// The names of logic operations.
pub open spec fn logic_op_name(op: Seq<char>) -> bool {
    ||| op == "s & t"@
    ||| op == "s & !t"@
    ||| op == "!s & t"@
    ||| op == "!(s & t)"@
    ||| op == "s | t"@
    ||| op == "s | !t"@
    ||| op == "!s | t"@
    ||| op == "!(s | t)"@
    ||| op == "s ^ t"@
    ||| op == "!(s ^ t)"@
    ||| op == "d"@
    ||| op == "!d"@
    ||| op == "s"@
    ||| op == "!s"@
    ||| op == "0"@
    ||| op == "1"@
}

/// A specialization constant is read back as it was written: the bytes that its
/// map entry names are its value, under its number.
pub proof fn law_constants_are_read_back(
    info: SpecializationInfo,
    constants: Seq<SpecializationConstant>,
    i: int,
)
    requires
        is_specialization(info, constants),
        info.data@.len() <= u32::MAX,
        0 <= i < constants.len(),
    ensures
        ({
            let entry = info.entries@[i];
            &&& entry.constant_id == constants[i].constant_id
            &&& entry.size == constants[i].value@.len()
            &&& entry.offset + entry.size <= info.data@.len()
            &&& info.data@.subrange(entry.offset as int, entry.offset + entry.size)
                == constants[i].value@
        }),
        info.entries@.len() == constants.len(),
        i == 0 ==> info.entries@[i].offset == 0,
        i + 1 == constants.len() ==> info.data@.len() == info.entries@[i].offset
            + info.entries@[i].size,
{
    assert(info.entries@[i] == map_entry(constants, i));
    lemma_constant_place(constants, i);
    if i + 1 == constants.len() {
        assert(constants.drop_last() =~= constants.take(i));
    }
    assert(info.data@.subrange(
        info.entries@[i].offset as int,
        info.entries@[i].offset + info.entries@[i].size,
    ) =~= constants[i].value@);
}

proof fn lemma_constant_place(constants: Seq<SpecializationConstant>, i: int)
    requires
        0 <= i < constants.len(),
    ensures
        constant_data(constants.take(i)).len() + constants[i].value@.len() <= constant_data(
            constants,
        ).len(),
        forall|k: int|
            0 <= k < constants[i].value@.len() ==> #[trigger] constants[i].value@[k]
                == constant_data(constants)[constant_data(constants.take(i)).len() + k],
    decreases constants.len(),
{
    let init = constants.drop_last();
    if i == constants.len() - 1 {
        assert(init =~= constants.take(i));
    } else {
        lemma_constant_place(init, i);
        assert(init.take(i) =~= constants.take(i));
    }
}

/// A pipeline has the stages that are configured, in their order; a stage has a
/// specialization exactly where it has constants.
pub proof fn law_stages_are_as_configured(
    info: GraphicsPipelineInfo,
    c: GraphicsPipelineConfig,
    i: int,
)
    requires
        is_pipeline(info, c),
        0 <= i < c.shaders@.len(),
    ensures
        info.stages@.len() == c.shaders@.len(),
        info.stages@[i].stage == c.shaders@[i].stage,
        info.stages@[i].flags == c.shaders@[i].flags,
        info.stages@[i].entry_point@ == c.shaders@[i].entry_point@,
        info.stages@[i].specialization is Some <==> c.shaders@[i].specialization_constants@.len()
            > 0,
        info.stages@[i].specialization is Some ==>
            info.stages@[i].specialization->0.entries@.len()
            == c.shaders@[i].specialization_constants@.len(),
{
    assert(is_stage(info.stages@[i], c.shaders@[i]));
}

/// Vertices are read as configured: each binding has its number, its input rate
/// and its stride, and each attribute its location, its format, its offset and
/// the number of the binding that it belongs to.
pub proof fn law_vertices_are_read_as_configured(
    info: GraphicsPipelineInfo,
    c: GraphicsPipelineConfig,
    b: int,
    i: int,
)
    requires
        is_pipeline(info, c),
        c.vertex_bindings is Static,
        0 <= b < c.vertex_bindings->Static_0@.len(),
        0 <= i < c.vertex_bindings->Static_0@[b].attributes@.len(),
    ensures
        ({
            let binding = c.vertex_bindings->Static_0@[b];
            let read = info.vertex_input.bindings@[b];
            &&& info.vertex_input.bindings@.len() == c.vertex_bindings->Static_0@.len()
            &&& read.binding == binding.binding
            &&& read.input_rate == binding.input_rate
            &&& binding.stride is Static ==> read.stride == binding.stride->Static_0
            &&& !(binding.stride is Static) ==> read.stride == 0
        }),
        exists|k: int|
            0 <= k < info.vertex_input.attributes@.len() && {
                let binding = c.vertex_bindings->Static_0@[b];
                let read = #[trigger] info.vertex_input.attributes@[k];
                &&& read.binding == binding.binding
                &&& read.location == binding.attributes@[i].location
                &&& read.format == binding.attributes@[i].format
                &&& read.offset == binding.attributes@[i].offset
            },
{
    let bindings = c.vertex_bindings->Static_0@;
    lemma_attribute_place(bindings, b, i);
    let k = input_attributes(bindings.take(b)).len() + i;
    assert(info.vertex_input.attributes@[k] == input_attribute(bindings[b], i));
    assert(info.vertex_input.bindings@[b] == input_binding(bindings[b]));
}

/// The attributes of a pipeline are those of its bindings and no others, those
/// of an earlier binding first.
pub proof fn law_attributes_belong_to_bindings(
    info: GraphicsPipelineInfo,
    c: GraphicsPipelineConfig,
    k: int,
)
    requires
        is_pipeline(info, c),
        0 <= k < info.vertex_input.attributes@.len(),
    ensures
        c.vertex_bindings is Static,
        exists|b: int, i: int|
            0 <= b < c.vertex_bindings->Static_0@.len() && 0 <= i
                < c.vertex_bindings->Static_0@[b].attributes@.len()
                && info.vertex_input.attributes@[k] == #[trigger] input_attribute(
                c.vertex_bindings->Static_0@[b],
                i,
            ),
{
    lemma_attribute_source(fixed_bindings(c.vertex_bindings), k);
}

proof fn lemma_attribute_place(bindings: Seq<VertexBinding>, b: int, i: int)
    requires
        0 <= b < bindings.len(),
        0 <= i < bindings[b].attributes@.len(),
    ensures
        input_attributes(bindings.take(b)).len() + i < input_attributes(bindings).len(),
        input_attributes(bindings)[input_attributes(bindings.take(b)).len() + i]
            == input_attribute(bindings[b], i),
    decreases bindings.len(),
{
    let init = bindings.drop_last();
    if b == bindings.len() - 1 {
        assert(init =~= bindings.take(b));
    } else {
        lemma_attribute_place(init, b, i);
        assert(init.take(b) =~= bindings.take(b));
    }
}

proof fn lemma_attribute_source(bindings: Seq<VertexBinding>, k: int)
    requires
        0 <= k < input_attributes(bindings).len(),
    ensures
        exists|b: int, i: int|
            0 <= b < bindings.len() && 0 <= i < bindings[b].attributes@.len() && input_attributes(
                bindings,
            )[k] == #[trigger] input_attribute(bindings[b], i),
    decreases bindings.len(),
{
    let init = bindings.drop_last();
    let n = input_attributes(init).len();
    if k < n {
        lemma_attribute_source(init, k);
        let (b, i) = choose|b: int, i: int|
            0 <= b < init.len() && 0 <= i < init[b].attributes@.len() && input_attributes(init)[k]
                == #[trigger] input_attribute(init[b], i);
        assert(input_attributes(bindings)[k] == input_attribute(bindings[b], i));
    } else {
        assert(input_attributes(bindings)[k] == input_attribute(
            bindings[bindings.len() - 1],
            k - n,
        ));
    }
}

/// Viewports and scissors are those of the configuration, or left out where they
/// are set while recording; their number is that of the configuration, or zero.
pub proof fn law_viewports_are_as_configured(
    info: GraphicsPipelineInfo,
    c: GraphicsPipelineConfig,
)
    requires
        is_pipeline(info, c),
        c.viewports is Static ==> c.viewports->Static_0@.len() <= u32::MAX,
        c.scissors is Static ==> c.scissors->Static_0@.len() <= u32::MAX,
    ensures
        info.viewport matches Some(v) ==> {
            &&& c.viewports is Dynamic ==> v.viewport_count == 0 && v.viewports is None
            &&& c.viewports is Count ==> v.viewport_count == c.viewports->Count_0
                && v.viewports is None
            &&& c.viewports is Static ==> v.viewport_count == c.viewports->Static_0@.len()
                && v.viewports is Some && v.viewports->0@ == c.viewports->Static_0@
            &&& c.scissors is Dynamic ==> v.scissor_count == 0 && v.scissors is None
            &&& c.scissors is Count ==> v.scissor_count == c.scissors->Count_0
                && v.scissors is None
            &&& c.scissors is Static ==> v.scissor_count == c.scissors->Static_0@.len()
                && v.scissors is Some && v.scissors->0@ == c.scissors->Static_0@
            &&& v.viewport_count > 0 || v.scissor_count > 0
        },
        info.viewport is None ==> {
            &&& c.viewports is Count ==> c.viewports->Count_0 == 0
            &&& c.viewports is Static ==> c.viewports->Static_0@.len() == 0
            &&& c.scissors is Count ==> c.scissors->Count_0 == 0
            &&& c.scissors is Static ==> c.scissors->Static_0@.len() == 0
        },
{
}

/// A configuration is refused for the first of its faults, and only for one that
/// it has.
pub proof fn law_faults_are_found(c: GraphicsPipelineConfig)
    ensures
        (exists|i: int|
            0 <= i < c.shaders@.len() && (#[trigger] c.shaders@[i]).entry_point@.contains('\0'))
            <==> config_error(c) == Some(PipelineError::InvalidEntryName),
        config_error(c) == Some(PipelineError::UnrecognizedSampleCount) ==> (
        c.sample_count matches OptionalDynamicState::Static(n) && !(n == 1 || n == 2 || n == 4 || n
            == 8 || n == 16 || n == 32 || n == 64)),
        config_error(c) == Some(PipelineError::InvalidDepthCompareOp) ==> c.depth_test_enable
            == OptionalDynamicState::Static(true) && c.depth_compare_op is Static && compare_op(
            c.depth_compare_op->Static_0@,
        ) is None,
        config_error(c) == Some(PipelineError::InvalidFrontStencilCompareOp)
            ==> side_is_unreadable(c.front_stencil),
        config_error(c) == Some(PipelineError::InvalidBackStencilCompareOp)
            ==> side_is_unreadable(c.back_stencil),
        config_error(c) == Some(PipelineError::UnrecognizedBlendLogicOp) ==> c.blend_logic_op
            is Static && logic_op(c.blend_logic_op->Static_0@) is None,
        config_error(c) is None ==> {
            &&& c.sample_count matches OptionalDynamicState::Static(n) ==> n == 1 || n == 2 || n
                == 4 || n == 8 || n == 16 || n == 32 || n == 64
            &&& c.depth_test_enable == OptionalDynamicState::Static(true) && c.depth_compare_op
                is Static ==> compare_op(c.depth_compare_op->Static_0@) is Some
            &&& !side_is_unreadable(c.front_stencil)
            &&& !side_is_unreadable(c.back_stencil)
            &&& c.blend_logic_op is Static ==> logic_op(c.blend_logic_op->Static_0@) is Some
        },
{
    if exists|i: int|
        0 <= i < c.shaders@.len() && (#[trigger] c.shaders@[i]).entry_point@.contains('\0') {
        let i = choose|i: int|
            0 <= i < c.shaders@.len() && (#[trigger] c.shaders@[i]).entry_point@.contains('\0');
        assert(!valid_entry_point(c.shaders@[i]));
    }
    lemma_attachment_faults(c.attachments@);
}

/// How a side of the stencil test compares cannot be read.
pub open spec fn side_is_unreadable(c: Option<StencilConfig>) -> bool {
    c is Some && c->0.ops is Static && compare_op(c->0.ops->Static_0.compare@) is None
}

proof fn lemma_attachment_faults(attachments: Seq<AttachmentConfig>)
    ensures
        first_attachment_error(attachments) is None || first_attachment_error(attachments) == Some(
            PipelineError::BlendEquationRequired,
        ) || first_attachment_error(attachments) == Some(PipelineError::UnrecognizedColorWriteMask),
    decreases attachments.len(),
{
    if attachments.len() > 0 {
        lemma_attachment_faults(attachments.drop_last());
    }
}

/// An attachment is faulty where it is blended without an equation, or where its
/// write mask names something other than a component; the first faulty one is
/// reported.
pub proof fn law_attachment_faults_are_found(attachments: Seq<AttachmentConfig>)
    ensures
        first_attachment_error(attachments) is None <==> forall|i: int|
            0 <= i < attachments.len() ==> !attachment_is_faulty(#[trigger] attachments[i]),
        first_attachment_error(attachments) is Some ==> exists|i: int|
            0 <= i < attachments.len() && attachment_is_faulty(#[trigger] attachments[i])
                && attachment_error(attachments[i]) == first_attachment_error(attachments) && (
            forall|j: int| 0 <= j < i ==> !attachment_is_faulty(#[trigger] attachments[j])),
    decreases attachments.len(),
{
    if attachments.len() > 0 {
        let init = attachments.drop_last();
        let last = attachments.last();
        law_attachment_faults_are_found(init);
        assert(attachment_error(last) is Some <==> attachment_is_faulty(last));
        if first_attachment_error(init) is Some {
            let i = choose|i: int|
                0 <= i < init.len() && attachment_is_faulty(#[trigger] init[i])
                    && attachment_error(init[i]) == first_attachment_error(init) && (forall|j: int|
                    0 <= j < i ==> !attachment_is_faulty(#[trigger] init[j]));
            assert(attachments[i] == init[i]);
            assert forall|j: int| 0 <= j < i implies !attachment_is_faulty(
                #[trigger] attachments[j],
            ) by {
                assert(attachments[j] == init[j]);
            }
        } else {
            assert forall|j: int| 0 <= j < init.len() implies !attachment_is_faulty(
                #[trigger] attachments[j],
            ) by {
                assert(attachments[j] == init[j]);
            }
            assert(attachments[attachments.len() - 1] == last);
        }
    }
}

/// An attachment cannot be made.
pub open spec fn attachment_is_faulty(a: AttachmentConfig) -> bool {
    ||| (a.blend_enable == RequiredDynamicState::Static(true) && a.blend_equation is Unset)
    ||| (a.color_write_mask is Static && exists|i: int|
        0 <= i < a.color_write_mask->Static_0@.len() && {
            let letter = #[trigger] a.color_write_mask->Static_0@[i];
            letter != 'r' && letter != 'g' && letter != 'b' && letter != 'a'
        })
}

/// A fault of the blending of attachments is one of leaving a property to
/// recording for some of them and not for others.
pub proof fn law_attachments_agree(c: GraphicsPipelineConfig, i: int, j: int)
    requires
        config_error(c) is None,
        0 <= i < c.attachments@.len(),
        0 <= j < c.attachments@.len(),
    ensures
        c.attachments@[i].blend_enable is Dynamic <==> c.attachments@[j].blend_enable is Dynamic,
        c.attachments@[i].blend_equation is Dynamic
            <==> c.attachments@[j].blend_equation is Dynamic,
        c.attachments@[i].color_write_mask is Dynamic
            <==> c.attachments@[j].color_write_mask is Dynamic,
{
    let a = c.attachments@;
    assert(blend_enable_flags(a)[i] == (a[i].blend_enable is Dynamic));
    assert(blend_enable_flags(a)[j] == (a[j].blend_enable is Dynamic));
    assert(blend_equation_flags(a)[i] == (a[i].blend_equation is Dynamic));
    assert(blend_equation_flags(a)[j] == (a[j].blend_equation is Dynamic));
    assert(write_mask_flags(a)[i] == (a[i].color_write_mask is Dynamic));
    assert(write_mask_flags(a)[j] == (a[j].color_write_mask is Dynamic));
}

/// A configuration whose attachments differ in what they leave to recording is
/// refused.
pub proof fn law_mixed_attachments_are_refused(c: GraphicsPipelineConfig, i: int, j: int)
    requires
        0 <= i < c.attachments@.len(),
        0 <= j < c.attachments@.len(),
        (c.attachments@[i].blend_enable is Dynamic) != (c.attachments@[j].blend_enable is Dynamic)
            || (c.attachments@[i].blend_equation is Dynamic) != (
        c.attachments@[j].blend_equation is Dynamic) || (
        c.attachments@[i].color_write_mask is Dynamic) != (
        c.attachments@[j].color_write_mask is Dynamic),
    ensures
        config_error(c) is Some,
{
    if config_error(c) is None {
        law_attachments_agree(c, i, j);
    }
}

impl PipelineError {
    /// What to tell the author of the configuration.
    pub fn message(&self) -> (r: &'static str)
        ensures
            r@ == (match *self {
                PipelineError::InvalidEntryName => "Invalid entry name"@,
                PipelineError::UnrecognizedSampleCount => "Unrecognized: sample_count"@,
                PipelineError::InvalidDepthCompareOp => "Invalid depth compare op"@,
                PipelineError::InvalidFrontStencilCompareOp =>
                    "Invalid comapre op for front stencil"@,
                PipelineError::InvalidBackStencilCompareOp =>
                    "Invalid compare op for back stencil"@,
                PipelineError::BlendEquationRequired =>
                    "Blending enabled; blend equation required"@,
                PipelineError::UnrecognizedColorWriteMask => "unrecognized color write mask"@,
                PipelineError::MixedBlendEnable =>
                    "If some attachment[n].blend_enable was set to Dynamic, it must be set to Dynamic for all attachments"@,
                PipelineError::MixedBlendEquation =>
                    "If some attachment[n].blend_equation was set to Dynamic, it must be set to Dynamic for all attachments"@,
                PipelineError::MixedColorWriteMask =>
                    "If some attachment[n].color_write_mask was set to Dynamic, it must be set to Dynamic for all attachments"@,
                PipelineError::UnrecognizedBlendLogicOp => "Unrecognized: blend_logic_op"@,
            }),
    {
        match self {
            PipelineError::InvalidEntryName => "Invalid entry name",
            PipelineError::UnrecognizedSampleCount => "Unrecognized: sample_count",
            PipelineError::InvalidDepthCompareOp => "Invalid depth compare op",
            PipelineError::InvalidFrontStencilCompareOp => "Invalid comapre op for front stencil",
            PipelineError::InvalidBackStencilCompareOp => "Invalid compare op for back stencil",
            PipelineError::BlendEquationRequired => "Blending enabled; blend equation required",
            PipelineError::UnrecognizedColorWriteMask => "unrecognized color write mask",
            PipelineError::MixedBlendEnable =>
                "If some attachment[n].blend_enable was set to Dynamic, it must be set to Dynamic for all attachments",
            PipelineError::MixedBlendEquation =>
                "If some attachment[n].blend_equation was set to Dynamic, it must be set to Dynamic for all attachments",
            PipelineError::MixedColorWriteMask =>
                "If some attachment[n].color_write_mask was set to Dynamic, it must be set to Dynamic for all attachments",
            PipelineError::UnrecognizedBlendLogicOp => "Unrecognized: blend_logic_op",
        }
    }
}

} // verus!
