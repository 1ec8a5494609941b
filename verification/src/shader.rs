//! Pipeline configurations: which file format they are in, and the pieces of
//! compute and ray tracing pipelines and of their layouts.

use vstd::prelude::*;

use crate::rtx;
use crate::rtx::{
    RayTracingPipelineLibraryCreateInfo, SbtLayout, SbtLayoutStage, ShaderEntry,
};
use crate::text::{contains_char, ends_with, str_eq};
use crate::vk;

verus! {

// ---------------------------------------------------------------------------
// File formats
// ---------------------------------------------------------------------------

/// The format of a configuration file.
#[derive(Debug, Clone, Copy, PartialEq, Eq, Structural)]
pub enum ConfigFormat {
    /// A binary file that `postcard` reads.
    Postcard,
    /// A text file that `ron` reads.
    Ron,
}

pub open spec fn has_suffix(s: Seq<char>, suffix: Seq<char>) -> bool {
    s.len() >= suffix.len() && s.subrange(s.len() - suffix.len(), s.len() as int) == suffix
}

/// The format that a file extension stands for.
pub open spec fn format_of(extension: Seq<char>) -> Option<ConfigFormat> {
    if has_suffix(extension, ".bin"@) {
        Some(ConfigFormat::Postcard)
    } else if has_suffix(extension, ".ron"@) {
        Some(ConfigFormat::Ron)
    } else {
        None
    }
}

/// A configuration whose extension ends in `.bin` is binary, and one whose
/// extension ends in `.ron` is text, whatever stands before.
pub proof fn law_formats_follow_the_ending(start: Seq<char>)
    ensures
        format_of(start + ".bin"@) == Some(ConfigFormat::Postcard),
        format_of(start + ".ron"@) == Some(ConfigFormat::Ron),
{
    reveal_strlit(".bin");
    reveal_strlit(".ron");
    let a = start + ".bin"@;
    let b = start + ".ron"@;
    assert(a.subrange(a.len() - 4, a.len() as int) =~= ".bin"@);
    assert(b.subrange(b.len() - 4, b.len() as int) =~= ".ron"@);
    assert(".ron"@[1] != ".bin"@[1]);
}

/// A configuration with another ending is in no known format.
pub proof fn law_other_endings_name_no_format(extension: Seq<char>)
    requires
        format_of(extension) is Some,
    ensures
        extension.len() >= 4,
        extension[extension.len() - 4] == '.',
        format_of(extension) == Some(ConfigFormat::Postcard) ==> extension[extension.len() - 3]
            == 'b' && extension[extension.len() - 2] == 'i' && extension[extension.len() - 1]
            == 'n',
        format_of(extension) == Some(ConfigFormat::Ron) ==> extension[extension.len() - 3] == 'r'
            && extension[extension.len() - 2] == 'o' && extension[extension.len() - 1] == 'n',
{
    reveal_strlit(".bin");
    reveal_strlit(".ron");
    let end = extension.subrange(extension.len() - 4, extension.len() as int);
    assert(end[0] == extension[extension.len() - 4]);
    assert(end[1] == extension[extension.len() - 3]);
    assert(end[2] == extension[extension.len() - 2]);
    assert(end[3] == extension[extension.len() - 1]);
}

/// Picks the format of a configuration by its file extension.
pub fn config_format(extension: &str) -> (r: Option<ConfigFormat>)
    ensures
        r == format_of(extension@),
{
    if ends_with(extension, ".bin") {
        Some(ConfigFormat::Postcard)
    } else if ends_with(extension, ".ron") {
        Some(ConfigFormat::Ron)
    } else {
        None
    }
}

// ---------------------------------------------------------------------------
// Layouts
// ---------------------------------------------------------------------------

/// Where the layout of a pipeline comes from.
#[derive(Debug, Clone, Copy, PartialEq, Eq, Structural)]
pub enum PipelineLayoutRef {
    /// It stands in the configuration.
    Inline,
    /// It stands in a file of its own.
    Path,
    /// It is the layout of the descriptor heap.
    Bindless,
}

/// Where the layout of a descriptor set comes from.
#[derive(Debug, Clone, Copy, PartialEq, Eq, Structural)]
pub enum DescriptorSetLayoutRef {
    Inline,
    Path,
    SamplerHeap,
    ResourceHeap,
}

/// Whether a pipeline layout can be had; the bindless one needs a descriptor
/// heap.
pub fn layout_available(layout: PipelineLayoutRef, has_heap: bool) -> (r: bool)
    ensures
        r == (layout is Bindless ==> has_heap),
{
    match layout {
        PipelineLayoutRef::Bindless => has_heap,
        _ => true,
    }
}

/// Push constants of one shader stage: the bytes from `begin` to `end`.
#[derive(Debug, Clone, Copy, PartialEq, Eq, Structural)]
pub struct PushConstants {
    pub stage: u32,
    pub begin: u32,
    pub end: u32,
}

#[derive(Debug, Clone, Copy, PartialEq, Eq, Structural)]
pub struct PushConstantRange {
    pub stage_flags: u32,
    pub offset: u32,
    pub size: u32,
}

/// A pipeline layout as it is created. The sets keep their order.
pub struct PipelineLayoutInfo {
    pub flags: u32,
    pub sets: Vec<DescriptorSetLayoutRef>,
    pub push_constants: Vec<PushConstantRange>,
}

pub open spec fn needs_heap(set: DescriptorSetLayoutRef) -> bool {
    set is SamplerHeap || set is ResourceHeap
}

pub open spec fn range_of(c: PushConstants) -> PushConstantRange {
    PushConstantRange {
        stage_flags: c.stage,
        offset: c.begin,
        size: (c.end - c.begin) as u32,
    }
}

/// A range of push constants covers the bytes of its stage, from where they
/// begin to where they end. The sets of descriptor heaps need a heap.
pub proof fn law_push_constants_cover_their_bytes(c: PushConstants, set: DescriptorSetLayoutRef)
    requires
        c.begin <= c.end,
    ensures
        range_of(c).stage_flags == c.stage,
        range_of(c).offset == c.begin,
        range_of(c).offset + range_of(c).size == c.end,
        !needs_heap(set) <==> set == DescriptorSetLayoutRef::Inline || set
            == DescriptorSetLayoutRef::Path,
{
}

/// Works out a pipeline layout; `None` where a set comes from a descriptor
/// heap and there is no heap.
pub fn pipeline_layout_info(
    independent_sets: bool,
    sets: &Vec<DescriptorSetLayoutRef>,
    push_constants: &Vec<PushConstants>,
    has_heap: bool,
) -> (r: Option<PipelineLayoutInfo>)
    requires
        forall|i: int|
            0 <= i < push_constants@.len() ==> (#[trigger] push_constants@[i]).begin
                <= push_constants@[i].end,
    ensures
        r is Some <==> has_heap || forall|i: int|
            0 <= i < sets@.len() ==> !needs_heap(#[trigger] sets@[i]),
        r matches Some(info) ==> {
            &&& info.flags == (if independent_sets {
                vk::PIPELINE_LAYOUT_CREATE_INDEPENDENT_SETS_EXT
            } else {
                0
            })
            &&& info.sets@ == sets@
            &&& info.push_constants@ == push_constants@.map_values(
                |c: PushConstants| range_of(c),
            )
        },
{
    let mut out_sets: Vec<DescriptorSetLayoutRef> = Vec::new();
    let mut i: usize = 0;
    while i < sets.len()
        invariant
            i <= sets@.len(),
            out_sets@ == sets@.take(i as int),
            has_heap || forall|j: int| 0 <= j < i ==> !needs_heap(#[trigger] sets@[j]),
        decreases sets@.len() - i,
    {
        let set = sets[i];
        match set {
            DescriptorSetLayoutRef::SamplerHeap | DescriptorSetLayoutRef::ResourceHeap => {
                if !has_heap {
                    assert(needs_heap(sets@[i as int]));
                    return None;
                }
            },
            _ => {},
        }
        out_sets.push(set);
        i += 1;
        assert(out_sets@ =~= sets@.take(i as int));
    }
    assert(sets@.take(i as int) =~= sets@);
    let mut ranges: Vec<PushConstantRange> = Vec::new();
    let mut k: usize = 0;
    while k < push_constants.len()
        invariant
            k <= push_constants@.len(),
            forall|i: int|
                0 <= i < push_constants@.len() ==> (#[trigger] push_constants@[i]).begin
                    <= push_constants@[i].end,
            ranges@ == push_constants@.take(k as int).map_values(|c: PushConstants| range_of(c)),
        decreases push_constants@.len() - k,
    {
        let c = push_constants[k];
        assert(push_constants@[k as int].begin <= push_constants@[k as int].end);
        ranges.push(
            PushConstantRange { stage_flags: c.stage, offset: c.begin, size: c.end - c.begin },
        );
        k += 1;
        assert(ranges@ =~= push_constants@.take(k as int).map_values(
            |c: PushConstants| range_of(c),
        ));
    }
    assert(push_constants@.take(k as int) =~= push_constants@);
    let flags: u32 = if independent_sets {
        vk::PIPELINE_LAYOUT_CREATE_INDEPENDENT_SETS_EXT
    } else {
        0
    };
    Some(PipelineLayoutInfo { flags, sets: out_sets, push_constants: ranges })
}

/// A binding of a descriptor set.
pub struct DescriptorBinding {
    pub binding: u32,
    pub ty: i32,
    pub count: u32,
    pub stages: Vec<u32>,
}

#[derive(Debug, Clone, Copy, PartialEq, Eq, Structural)]
pub struct DescriptorBindingInfo {
    pub binding: u32,
    pub descriptor_type: i32,
    pub descriptor_count: u32,
    pub stage_flags: u32,
}

/// All bits of the given flags.
pub open spec fn union_of(flags: Seq<u32>) -> u32
    decreases flags.len(),
{
    if flags.len() == 0 {
        0
    } else {
        union_of(flags.drop_last()) | flags.last()
    }
}

fn union_all(flags: &Vec<u32>) -> (r: u32)
    ensures
        r == union_of(flags@),
{
    let mut out: u32 = 0;
    let mut i: usize = 0;
    while i < flags.len()
        invariant
            i <= flags@.len(),
            out == union_of(flags@.take(i as int)),
        decreases flags@.len() - i,
    {
        assert(flags@.take(i + 1).drop_last() =~= flags@.take(i as int));
        out = out | flags[i];
        i += 1;
    }
    assert(flags@.take(i as int) =~= flags@);
    out
}

pub open spec fn binding_of(b: DescriptorBinding) -> DescriptorBindingInfo {
    DescriptorBindingInfo {
        binding: b.binding,
        descriptor_type: b.ty,
        descriptor_count: b.count,
        stage_flags: union_of(b.stages@),
    }
}

/// A binding keeps its number, its type and its count. It is visible to the
/// stages that are listed for it, and to no others.
pub proof fn law_bindings_are_as_configured(b: DescriptorBinding, bit: u32)
    requires
        bit < 32,
    ensures
        binding_of(b).binding == b.binding,
        binding_of(b).descriptor_type == b.ty,
        binding_of(b).descriptor_count == b.count,
        (binding_of(b).stage_flags >> bit) & 1 == 1 <==> exists|i: int|
            0 <= i < b.stages@.len() && (#[trigger] b.stages@[i] >> bit) & 1 == 1,
{
    lemma_union_bits(b.stages@, bit);
}

proof fn lemma_union_bits(flags: Seq<u32>, bit: u32)
    requires
        bit < 32,
    ensures
        (union_of(flags) >> bit) & 1 == 1 <==> exists|i: int|
            0 <= i < flags.len() && (#[trigger] flags[i] >> bit) & 1 == 1,
    decreases flags.len(),
{
    if flags.len() == 0 {
        assert((0u32 >> bit) & 1 == 0) by (bit_vector);
    } else {
        let init = flags.drop_last();
        let before = union_of(init);
        let last = flags[flags.len() - 1];
        lemma_union_bits(init, bit);
        assert(((before | last) >> bit) & 1 == 1 <==> (before >> bit) & 1 == 1 || (last >> bit) & 1
            == 1) by (bit_vector);
        if exists|i: int| 0 <= i < init.len() && (#[trigger] init[i] >> bit) & 1 == 1 {
            let i = choose|i: int| 0 <= i < init.len() && (#[trigger] init[i] >> bit) & 1 == 1;
            assert((flags[i] >> bit) & 1 == 1);
        }
        if exists|i: int| 0 <= i < flags.len() && (#[trigger] flags[i] >> bit) & 1 == 1 {
            let i = choose|i: int| 0 <= i < flags.len() && (#[trigger] flags[i] >> bit) & 1 == 1;
            if i < init.len() {
                assert((init[i] >> bit) & 1 == 1);
            }
        }
    }
}

/// Works out a descriptor set layout: its bindings and its flags.
pub fn descriptor_set_layout_info(
    bindings: &Vec<DescriptorBinding>,
    update_after_bind_pool: bool,
    push_descriptor: bool,
) -> (r: (Vec<DescriptorBindingInfo>, u32))
    ensures
        r.0@ == bindings@.map_values(|b: DescriptorBinding| binding_of(b)),
        r.1 == (if update_after_bind_pool {
            vk::DESCRIPTOR_SET_LAYOUT_CREATE_UPDATE_AFTER_BIND_POOL
        } else {
            0
        }) | (if push_descriptor {
            vk::DESCRIPTOR_SET_LAYOUT_CREATE_PUSH_DESCRIPTOR_KHR
        } else {
            0
        }),
{
    let mut out: Vec<DescriptorBindingInfo> = Vec::new();
    let mut i: usize = 0;
    while i < bindings.len()
        invariant
            i <= bindings@.len(),
            out@ == bindings@.take(i as int).map_values(|b: DescriptorBinding| binding_of(b)),
        decreases bindings@.len() - i,
    {
        let b = &bindings[i];
        out.push(
            DescriptorBindingInfo {
                binding: b.binding,
                descriptor_type: b.ty,
                descriptor_count: b.count,
                stage_flags: union_all(&b.stages),
            },
        );
        i += 1;
        assert(out@ =~= bindings@.take(i as int).map_values(
            |b: DescriptorBinding| binding_of(b),
        ));
    }
    assert(bindings@.take(i as int) =~= bindings@);
    let a: u32 = if update_after_bind_pool {
        vk::DESCRIPTOR_SET_LAYOUT_CREATE_UPDATE_AFTER_BIND_POOL
    } else {
        0
    };
    let b: u32 = if push_descriptor {
        vk::DESCRIPTOR_SET_LAYOUT_CREATE_PUSH_DESCRIPTOR_KHR
    } else {
        0
    };
    (out, a | b)
}

// ---------------------------------------------------------------------------
// Compute pipelines
// ---------------------------------------------------------------------------

pub open spec fn flag(on: bool, bit: u32) -> u32 {
    if on {
        bit
    } else {
        0
    }
}

/// The creation flags of a pipeline.
pub open spec fn create_flags(library: bool, disable_optimization: bool, dispatch_base: bool) -> u32 {
    flag(library, vk::PIPELINE_CREATE_LIBRARY_KHR) | flag(
        disable_optimization,
        vk::PIPELINE_CREATE_DISABLE_OPTIMIZATION,
    ) | flag(dispatch_base, vk::PIPELINE_CREATE_DISPATCH_BASE)
}

fn compute_create_flags(library: bool, disable_optimization: bool, dispatch_base: bool) -> (r: u32)
    ensures
        r == create_flags(library, disable_optimization, dispatch_base),
{
    let a: u32 = if library { vk::PIPELINE_CREATE_LIBRARY_KHR } else { 0 };
    let b: u32 = if disable_optimization { vk::PIPELINE_CREATE_DISABLE_OPTIMIZATION } else { 0 };
    let c: u32 = if dispatch_base { vk::PIPELINE_CREATE_DISPATCH_BASE } else { 0 };
    a | b | c
}

/// A shader file and the function in it to begin with.
pub struct Shader {
    pub path: String,
    pub entry_point: String,
    pub flags: u32,
}

/// A shader of a pipeline, at one stage.
pub struct ShaderUse {
    pub path: String,
    pub entry_point: String,
    pub flags: u32,
    pub stage: u32,
}

/// Mathematical content of a [`ShaderUse`].
pub struct ShaderUseView {
    pub path: Seq<char>,
    pub entry_point: Seq<char>,
    pub flags: u32,
    pub stage: u32,
}

impl View for ShaderUse {
    type V = ShaderUseView;

    open spec fn view(&self) -> ShaderUseView {
        ShaderUseView {
            path: self.path@,
            entry_point: self.entry_point@,
            flags: self.flags,
            stage: self.stage,
        }
    }
}

pub open spec fn used_at(s: Shader, stage: u32) -> ShaderUseView {
    ShaderUseView { path: s.path@, entry_point: s.entry_point@, flags: s.flags, stage }
}

fn use_shader(s: &Shader, stage: u32) -> (r: ShaderUse)
    ensures
        r@ == used_at(*s, stage),
{
    ShaderUse {
        path: s.path.clone(),
        entry_point: s.entry_point.clone(),
        flags: s.flags,
        stage,
    }
}

/// A shader is used as it is described, at the stage that it is used for.
pub proof fn law_shaders_are_used_as_described(r: ShaderUse, s: Shader, stage: u32)
    requires
        r@ == used_at(s, stage),
    ensures
        r.path@ == s.path@,
        r.entry_point@ == s.entry_point@,
        r.flags == s.flags,
        r.stage == stage,
{
}

/// A compute pipeline as it is configured.
pub struct ComputePipelineConfig {
    pub shader: Shader,
    pub disable_optimization: bool,
    pub dispatch_base: bool,
}

/// A compute pipeline as it is created.
pub struct ComputePipelineInfo {
    pub flags: u32,
    pub shader: ShaderUse,
}

/// Works out a compute pipeline; `None` where the entry point is no C string.
pub fn compute_pipeline_info(c: &ComputePipelineConfig) -> (r: Option<ComputePipelineInfo>)
    ensures
        r is Some <==> !c.shader.entry_point@.contains('\0'),
        r matches Some(info) ==> {
            &&& info.flags == create_flags(false, c.disable_optimization, c.dispatch_base)
            &&& info.shader@ == used_at(c.shader, vk::SHADER_STAGE_COMPUTE)
        },
{
    if contains_char(c.shader.entry_point.as_str(), '\0') {
        return None;
    }
    Some(
        ComputePipelineInfo {
            flags: compute_create_flags(false, c.disable_optimization, c.dispatch_base),
            shader: use_shader(&c.shader, vk::SHADER_STAGE_COMPUTE),
        },
    )
}

// ---------------------------------------------------------------------------
// Ray tracing pipelines
// ---------------------------------------------------------------------------

/// Whether real pipeline libraries are used: the extension must be there, and
/// the driver must not be one that is known to handle them badly.
pub fn use_pipeline_library(has_extension: bool, driver_id: i32) -> (r: bool)
    ensures
        r == (has_extension && driver_id != vk::DRIVER_ID_AMD_PROPRIETARY),
{
    has_extension && driver_id != vk::DRIVER_ID_AMD_PROPRIETARY
}

/// A shader of a hit group.
pub enum HitgroupShader {
    Unused,
    /// A shader of this group alone.
    Singleton(Shader),
    /// A shader that the configuration names.
    Reused(String),
}

#[derive(Debug, Clone, Copy, PartialEq, Eq, Structural)]
pub enum HitGroupType {
    Triangles,
    Aabbs,
}

/// A shader group of a ray tracing pipeline. `param_size` is the size of the
/// inline data of its table entries.
pub enum RayTracingStage {
    RayGen { shader: Shader, param_size: u32 },
    Miss { shader: Shader, param_size: u32 },
    Callable { shader: Shader, param_size: u32 },
    HitGroup {
        ty: HitGroupType,
        intersection: HitgroupShader,
        any_hit: HitgroupShader,
        closest_hit: HitgroupShader,
        param_size: u32,
    },
}

/// What a ray tracing pipeline may use.
#[derive(Debug, Clone, Copy, PartialEq, Eq, Structural)]
pub struct RayTracingLimits {
    pub max_ray_recursion_depth: u32,
    pub max_ray_payload_size: u32,
    pub max_hit_attribute_size: u32,
    pub dynamic_stack_size: bool,
}

/// A ray tracing pipeline as it is configured.
pub struct RayTracingPipelineConfig {
    pub stages: Vec<RayTracingStage>,
    /// The named shaders.
    pub shaders: Vec<(String, Shader)>,
    pub disable_optimization: bool,
    pub dispatch_base: bool,
    pub limits: RayTracingLimits,
}

/// A shader group, by the places of its shaders in the shader list.
#[derive(Debug, Clone, Copy, PartialEq, Eq, Structural)]
pub struct ShaderGroup {
    pub ty: i32,
    pub general_shader: u32,
    pub closest_hit_shader: u32,
    pub any_hit_shader: u32,
    pub intersection_shader: u32,
}

/// A ray tracing pipeline as it is created.
pub struct RayTracingPlan {
    pub flags: u32,
    pub shaders: Vec<ShaderUse>,
    pub groups: Vec<ShaderGroup>,
    pub limits: RayTracingLimits,
    pub sbt_layout: SbtLayout,
}

/// Progress of building a pipeline.
#[verifier::ext_equal]
pub struct PlanState {
    pub shaders: Seq<ShaderUseView>,
    pub groups: Seq<ShaderGroup>,
    pub raygen: SbtLayoutStage,
    pub miss: SbtLayoutStage,
    pub callable: SbtLayoutStage,
    pub hitgroup: SbtLayoutStage,
}

/// The stage of the table with one more shader.
pub open spec fn counted_stage(s: SbtLayoutStage, param_size: u32) -> SbtLayoutStage {
    SbtLayoutStage {
        param_size: if s.param_size >= param_size {
            s.param_size
        } else {
            param_size
        },
        count: (s.count + 1) as u8,
    }
}

pub open spec fn general_group(shader: nat) -> ShaderGroup {
    ShaderGroup {
        ty: vk::RAY_TRACING_SHADER_GROUP_TYPE_GENERAL,
        general_shader: shader as u32,
        closest_hit_shader: vk::SHADER_UNUSED,
        any_hit_shader: vk::SHADER_UNUSED,
        intersection_shader: vk::SHADER_UNUSED,
    }
}

/// The first shader under a name.
pub open spec fn is_named(shaders: Seq<(String, Shader)>, name: Seq<char>, i: int) -> bool {
    &&& 0 <= i < shaders.len()
    &&& shaders[i].0@ == name
    &&& forall|j: int| 0 <= j < i ==> (#[trigger] shaders[j]).0@ != name
}

pub open spec fn named(shaders: Seq<(String, Shader)>, name: Seq<char>) -> int {
    choose|i: int| is_named(shaders, name, i)
}

/// The shader that a hit group uses, if any.
pub open spec fn hitgroup_shader(h: HitgroupShader, named_shaders: Seq<(String, Shader)>) -> Option<
    Shader,
> {
    match h {
        HitgroupShader::Unused => None,
        HitgroupShader::Singleton(s) => Some(s),
        HitgroupShader::Reused(name) => Some(
            named_shaders[named(named_shaders, name@)].1,
        ),
    }
}

/// The shader list with the shader of a hit group, where it has one.
pub open spec fn with_hitgroup_shader(
    shaders: Seq<ShaderUseView>,
    h: HitgroupShader,
    named_shaders: Seq<(String, Shader)>,
    stage: u32,
) -> Seq<ShaderUseView> {
    match hitgroup_shader(h, named_shaders) {
        Some(s) => shaders.push(used_at(s, stage)),
        None => shaders,
    }
}

/// The place that the shader of a hit group takes in the list.
pub open spec fn hitgroup_place(shaders: Seq<ShaderUseView>, h: HitgroupShader) -> u32 {
    if h is Unused {
        vk::SHADER_UNUSED
    } else {
        shaders.len() as u32
    }
}

/// The pipeline with one more group.
pub open spec fn with_stage(
    p: PlanState,
    stage: RayTracingStage,
    named_shaders: Seq<(String, Shader)>,
) -> PlanState {
    match stage {
        RayTracingStage::RayGen { shader, param_size } => PlanState {
            shaders: p.shaders.push(used_at(shader, vk::SHADER_STAGE_RAYGEN_KHR)),
            groups: p.groups.push(general_group(p.shaders.len())),
            raygen: counted_stage(p.raygen, param_size),
            ..p
        },
        RayTracingStage::Miss { shader, param_size } => PlanState {
            shaders: p.shaders.push(used_at(shader, vk::SHADER_STAGE_MISS_KHR)),
            groups: p.groups.push(general_group(p.shaders.len())),
            miss: counted_stage(p.miss, param_size),
            ..p
        },
        RayTracingStage::Callable { shader, param_size } => PlanState {
            shaders: p.shaders.push(used_at(shader, vk::SHADER_STAGE_CALLABLE_KHR)),
            groups: p.groups.push(general_group(p.shaders.len())),
            callable: counted_stage(p.callable, param_size),
            ..p
        },
        RayTracingStage::HitGroup { ty, intersection, any_hit, closest_hit, param_size } => {
            let s1 = with_hitgroup_shader(
                p.shaders,
                any_hit,
                named_shaders,
                vk::SHADER_STAGE_ANY_HIT_KHR,
            );
            let s2 = with_hitgroup_shader(
                s1,
                closest_hit,
                named_shaders,
                vk::SHADER_STAGE_CLOSEST_HIT_KHR,
            );
            let s3 = with_hitgroup_shader(
                s2,
                intersection,
                named_shaders,
                vk::SHADER_STAGE_INTERSECTION_KHR,
            );
            PlanState {
                shaders: s3,
                groups: p.groups.push(
                    ShaderGroup {
                        ty: match ty {
                            HitGroupType::Triangles =>
                                vk::RAY_TRACING_SHADER_GROUP_TYPE_TRIANGLES_HIT_GROUP,
                            HitGroupType::Aabbs =>
                                vk::RAY_TRACING_SHADER_GROUP_TYPE_PROCEDURAL_HIT_GROUP,
                        },
                        general_shader: vk::SHADER_UNUSED,
                        any_hit_shader: hitgroup_place(p.shaders, any_hit),
                        closest_hit_shader: hitgroup_place(s1, closest_hit),
                        intersection_shader: hitgroup_place(s2, intersection),
                    },
                ),
                hitgroup: counted_stage(p.hitgroup, param_size),
                ..p
            }
        },
    }
}

/// The kinds of groups, in the order in which a binding table has them.
#[derive(Debug, Clone, Copy, PartialEq, Eq, Structural)]
pub enum GroupKind {
    RayGen,
    Miss,
    Callable,
    HitGroup,
}

pub open spec fn kind_of(stage: RayTracingStage) -> GroupKind {
    match stage {
        RayTracingStage::RayGen { .. } => GroupKind::RayGen,
        RayTracingStage::Miss { .. } => GroupKind::Miss,
        RayTracingStage::Callable { .. } => GroupKind::Callable,
        RayTracingStage::HitGroup { .. } => GroupKind::HitGroup,
    }
}

/// The groups of one kind, in their order.
pub open spec fn of_kind(stages: Seq<RayTracingStage>, kind: GroupKind) -> Seq<RayTracingStage>
    decreases stages.len(),
{
    if stages.len() == 0 {
        Seq::empty()
    } else if kind_of(stages.last()) == kind {
        of_kind(stages.drop_last(), kind).push(stages.last())
    } else {
        of_kind(stages.drop_last(), kind)
    }
}

/// All groups, kind by kind.
pub open spec fn canonical(stages: Seq<RayTracingStage>) -> Seq<RayTracingStage> {
    of_kind(stages, GroupKind::RayGen) + of_kind(stages, GroupKind::Miss) + of_kind(
        stages,
        GroupKind::Callable,
    ) + of_kind(stages, GroupKind::HitGroup)
}

pub open spec fn empty_stage() -> SbtLayoutStage {
    SbtLayoutStage { param_size: 0, count: 0 }
}

/// The pipeline of the given groups, in the given order.
pub open spec fn plan_of(
    stages: Seq<RayTracingStage>,
    named_shaders: Seq<(String, Shader)>,
) -> PlanState
    decreases stages.len(),
{
    if stages.len() == 0 {
        PlanState {
            shaders: Seq::empty(),
            groups: Seq::empty(),
            raygen: empty_stage(),
            miss: empty_stage(),
            callable: empty_stage(),
            hitgroup: empty_stage(),
        }
    } else {
        with_stage(plan_of(stages.drop_last(), named_shaders), stages.last(), named_shaders)
    }
}

/// The entry point of a shader is named by a string without NUL.
pub open spec fn entry_valid(s: Shader) -> bool {
    !s.entry_point@.contains('\0')
}

/// There is a shader under a name, and it has a valid entry point.
pub open spec fn name_resolvable(shaders: Seq<(String, Shader)>, name: Seq<char>) -> bool {
    exists|i: int| #[trigger] is_named(shaders, name, i) && entry_valid(shaders[i].1)
}

/// A shader that a hit group uses exists, and has a valid entry point.
pub open spec fn resolvable(h: HitgroupShader, named_shaders: Seq<(String, Shader)>) -> bool {
    match h {
        HitgroupShader::Unused => true,
        HitgroupShader::Singleton(s) => entry_valid(s),
        HitgroupShader::Reused(name) => name_resolvable(named_shaders, name@),
    }
}

/// The shaders of a stage exist, and have valid entry points.
pub open spec fn stage_resolvable(
    stage: RayTracingStage,
    named_shaders: Seq<(String, Shader)>,
) -> bool {
    match stage {
        RayTracingStage::RayGen { shader, .. } => entry_valid(shader),
        RayTracingStage::Miss { shader, .. } => entry_valid(shader),
        RayTracingStage::Callable { shader, .. } => entry_valid(shader),
        RayTracingStage::HitGroup { intersection, any_hit, closest_hit, .. } => {
            &&& resolvable(intersection, named_shaders)
            &&& resolvable(any_hit, named_shaders)
            &&& resolvable(closest_hit, named_shaders)
        },
    }
}

pub open spec fn plan_view(
    shaders: Vec<ShaderUse>,
    groups: Vec<ShaderGroup>,
    layout: SbtLayout,
) -> PlanState {
    PlanState {
        shaders: shaders@.map_values(|s: ShaderUse| s@),
        groups: groups@,
        raygen: layout.raygen,
        miss: layout.miss,
        callable: layout.callable,
        hitgroup: layout.hitgroup,
    }
}

fn find_named(shaders: &Vec<(String, Shader)>, name: &str) -> (r: usize)
    requires
        exists|i: int| #[trigger] is_named(shaders@, name@, i),
    ensures
        is_named(shaders@, name@, r as int),
        r == named(shaders@, name@),
{
    let ghost target = choose|i: int| is_named(shaders@, name@, i);
    let mut i: usize = 0;
    while i < shaders.len()
        invariant
            is_named(shaders@, name@, target),
            target == named(shaders@, name@),
            0 <= i <= target,
        decreases shaders@.len() - i,
    {
        if str_eq(shaders[i].0.as_str(), name) {
            assert(i == target);
            return i;
        }
        i += 1;
    }
    0
}

/// Adds the shader of a hit group, if any, and returns its place.
fn add_hitgroup_shader(
    h: &HitgroupShader,
    named_shaders: &Vec<(String, Shader)>,
    stage: u32,
    shaders: &mut Vec<ShaderUse>,
) -> (r: u32)
    requires
        resolvable(*h, named_shaders@),
    ensures
        r == hitgroup_place(old(shaders)@.map_values(|s: ShaderUse| s@), *h),
        final(shaders)@.map_values(|s: ShaderUse| s@) == with_hitgroup_shader(
            old(shaders)@.map_values(|s: ShaderUse| s@),
            *h,
            named_shaders@,
            stage,
        ),
{
    let place: u32 = shaders.len() as u32;
    match h {
        HitgroupShader::Unused => vk::SHADER_UNUSED,
        HitgroupShader::Singleton(s) => {
            shaders.push(use_shader(s, stage));
            assert(shaders@.map_values(|s: ShaderUse| s@) =~= old(shaders)@.map_values(
                |s: ShaderUse| s@,
            ).push(used_at(*s, stage)));
            place
        },
        HitgroupShader::Reused(name) => {
            let i: usize = find_named(named_shaders, name.as_str());
            shaders.push(use_shader(&named_shaders[i].1, stage));
            assert(shaders@.map_values(|s: ShaderUse| s@) =~= old(shaders)@.map_values(
                |s: ShaderUse| s@,
            ).push(used_at(named_shaders@[i as int].1, stage)));
            place
        },
    }
}

fn add_general(
    shader: &Shader,
    stage: u32,
    shaders: &mut Vec<ShaderUse>,
    groups: &mut Vec<ShaderGroup>,
)
    ensures
        final(shaders)@.map_values(|s: ShaderUse| s@) == old(shaders)@.map_values(
            |s: ShaderUse| s@,
        ).push(used_at(*shader, stage)),
        final(groups)@ == old(groups)@.push(general_group(old(shaders)@.len())),
{
    let place: u32 = shaders.len() as u32;
    shaders.push(use_shader(shader, stage));
    assert(shaders@.map_values(|s: ShaderUse| s@) =~= old(shaders)@.map_values(
        |s: ShaderUse| s@,
    ).push(used_at(*shader, stage)));
    groups.push(
        ShaderGroup {
            ty: vk::RAY_TRACING_SHADER_GROUP_TYPE_GENERAL,
            general_shader: place,
            closest_hit_shader: vk::SHADER_UNUSED,
            any_hit_shader: vk::SHADER_UNUSED,
            intersection_shader: vk::SHADER_UNUSED,
        },
    );
}

fn count_stage(s: SbtLayoutStage, param_size: u32) -> (r: SbtLayoutStage)
    requires
        s.count < u8::MAX,
    ensures
        r == counted_stage(s, param_size),
{
    SbtLayoutStage {
        param_size: if s.param_size >= param_size { s.param_size } else { param_size },
        count: s.count + 1,
    }
}

fn add_stage(
    stage: &RayTracingStage,
    named_shaders: &Vec<(String, Shader)>,
    shaders: &mut Vec<ShaderUse>,
    groups: &mut Vec<ShaderGroup>,
    layout: &mut SbtLayout,
)
    requires
        stage_resolvable(*stage, named_shaders@),
        old(layout).raygen.count < u8::MAX || kind_of(*stage) != GroupKind::RayGen,
        old(layout).miss.count < u8::MAX || kind_of(*stage) != GroupKind::Miss,
        old(layout).callable.count < u8::MAX || kind_of(*stage) != GroupKind::Callable,
        old(layout).hitgroup.count < u8::MAX || kind_of(*stage) != GroupKind::HitGroup,
    ensures
        plan_view(*final(shaders), *final(groups), *final(layout)) == with_stage(
            plan_view(*old(shaders), *old(groups), *old(layout)),
            *stage,
            named_shaders@,
        ),
        final(layout).handle_size == old(layout).handle_size,
        final(layout).base_aligment == old(layout).base_aligment,
        final(layout).entry_alignment == old(layout).entry_alignment,
{
    match stage {
        RayTracingStage::RayGen { shader, param_size } => {
            layout.raygen = count_stage(layout.raygen, *param_size);
            add_general(shader, vk::SHADER_STAGE_RAYGEN_KHR, shaders, groups);
        },
        RayTracingStage::Miss { shader, param_size } => {
            layout.miss = count_stage(layout.miss, *param_size);
            add_general(shader, vk::SHADER_STAGE_MISS_KHR, shaders, groups);
        },
        RayTracingStage::Callable { shader, param_size } => {
            layout.callable = count_stage(layout.callable, *param_size);
            add_general(shader, vk::SHADER_STAGE_CALLABLE_KHR, shaders, groups);
        },
        RayTracingStage::HitGroup { ty, intersection, any_hit, closest_hit, param_size } => {
            layout.hitgroup = count_stage(layout.hitgroup, *param_size);
            let any_hit_shader: u32 = add_hitgroup_shader(
                any_hit,
                named_shaders,
                vk::SHADER_STAGE_ANY_HIT_KHR,
                shaders,
            );
            let closest_hit_shader: u32 = add_hitgroup_shader(
                closest_hit,
                named_shaders,
                vk::SHADER_STAGE_CLOSEST_HIT_KHR,
                shaders,
            );
            let intersection_shader: u32 = add_hitgroup_shader(
                intersection,
                named_shaders,
                vk::SHADER_STAGE_INTERSECTION_KHR,
                shaders,
            );
            let group_type: i32 = match ty {
                HitGroupType::Triangles => vk::RAY_TRACING_SHADER_GROUP_TYPE_TRIANGLES_HIT_GROUP,
                HitGroupType::Aabbs => vk::RAY_TRACING_SHADER_GROUP_TYPE_PROCEDURAL_HIT_GROUP,
            };
            groups.push(
                ShaderGroup {
                    ty: group_type,
                    general_shader: vk::SHADER_UNUSED,
                    closest_hit_shader,
                    any_hit_shader,
                    intersection_shader,
                },
            );
        },
    }
    assert(plan_view(*shaders, *groups, *layout) =~= with_stage(
        plan_view(*old(shaders), *old(groups), *old(layout)),
        *stage,
        named_shaders@,
    ));
}

fn stage_kind(stage: &RayTracingStage) -> (r: GroupKind)
    ensures
        r == kind_of(*stage),
{
    match stage {
        RayTracingStage::RayGen { .. } => GroupKind::RayGen,
        RayTracingStage::Miss { .. } => GroupKind::Miss,
        RayTracingStage::Callable { .. } => GroupKind::Callable,
        RayTracingStage::HitGroup { .. } => GroupKind::HitGroup,
    }
}

/// The number of groups of a kind in a plan is what its table counts.
pub open spec fn kind_count(p: PlanState, kind: GroupKind) -> int {
    match kind {
        GroupKind::RayGen => p.raygen.count as int,
        GroupKind::Miss => p.miss.count as int,
        GroupKind::Callable => p.callable.count as int,
        GroupKind::HitGroup => p.hitgroup.count as int,
    }
}

/// No kind has more groups than a table can count.
pub open spec fn countable(stages: Seq<RayTracingStage>) -> bool {
    forall|kind: GroupKind| (#[trigger] of_kind(stages, kind)).len() <= u8::MAX
}

proof fn lemma_of_kind_append(a: Seq<RayTracingStage>, b: Seq<RayTracingStage>, kind: GroupKind)
    ensures
        of_kind(a + b, kind) == of_kind(a, kind) + of_kind(b, kind),
    decreases b.len(),
{
    if b.len() == 0 {
        assert(a + b =~= a);
        assert(of_kind(a, kind) + of_kind(b, kind) =~= of_kind(a, kind));
    } else {
        assert((a + b).drop_last() =~= a + b.drop_last());
        lemma_of_kind_append(a, b.drop_last(), kind);
        assert(of_kind(a + b, kind) =~= of_kind(a, kind) + of_kind(b, kind));
    }
}

proof fn lemma_of_kind_twice(stages: Seq<RayTracingStage>, kind: GroupKind, other: GroupKind)
    ensures
        kind == other ==> of_kind(of_kind(stages, kind), other) == of_kind(stages, kind),
        kind != other ==> of_kind(of_kind(stages, kind), other) == Seq::<RayTracingStage>::empty(),
        forall|i: int|
            0 <= i < of_kind(stages, kind).len() ==> kind_of(
                #[trigger] of_kind(stages, kind)[i],
            ) == kind,
    decreases stages.len(),
{
    if stages.len() > 0 {
        let init = stages.drop_last();
        lemma_of_kind_twice(init, kind, other);
        if kind_of(stages.last()) == kind {
            assert(of_kind(stages, kind).drop_last() =~= of_kind(init, kind));
        }
    }
}

/// A plan counts the groups of each kind.
proof fn lemma_counts(stages: Seq<RayTracingStage>, named_shaders: Seq<(String, Shader)>)
    requires
        countable(stages),
    ensures
        forall|kind: GroupKind|
            kind_count(plan_of(stages, named_shaders), kind) == (#[trigger] of_kind(
                stages,
                kind,
            )).len(),
    decreases stages.len(),
{
    if stages.len() > 0 {
        let init = stages.drop_last();
        assert forall|kind: GroupKind| (#[trigger] of_kind(init, kind)).len() <= u8::MAX by {
            assert(of_kind(stages, kind).len() <= u8::MAX);
        }
        lemma_counts(init, named_shaders);
        assert forall|kind: GroupKind|
            kind_count(plan_of(stages, named_shaders), kind) == (#[trigger] of_kind(
                stages,
                kind,
            )).len() by {
            assert(of_kind(init, kind).len() == kind_count(plan_of(init, named_shaders), kind));
            assert(of_kind(stages, kind).len() <= u8::MAX);
        }
    }
}

/// A prefix of the canonical order is countable where all stages are.
proof fn lemma_prefix_countable(
    stages: Seq<RayTracingStage>,
    done: Seq<RayTracingStage>,
    rest: Seq<RayTracingStage>,
)
    requires
        countable(stages),
        done + rest == canonical(stages),
    ensures
        countable(done),
{
    assert forall|kind: GroupKind| (#[trigger] of_kind(done, kind)).len() <= u8::MAX by {
        lemma_of_kind_append(done, rest, kind);
        lemma_canonical_kinds(stages, kind);
        assert(of_kind(stages, kind).len() <= u8::MAX);
    }
}

/// The canonical order keeps the groups of each kind.
proof fn lemma_canonical_kinds(stages: Seq<RayTracingStage>, kind: GroupKind)
    ensures
        of_kind(canonical(stages), kind) == of_kind(stages, kind),
{
    let a = of_kind(stages, GroupKind::RayGen);
    let b = of_kind(stages, GroupKind::Miss);
    let c = of_kind(stages, GroupKind::Callable);
    let d = of_kind(stages, GroupKind::HitGroup);
    lemma_of_kind_append(a + b + c, d, kind);
    lemma_of_kind_append(a + b, c, kind);
    lemma_of_kind_append(a, b, kind);
    lemma_of_kind_twice(stages, GroupKind::RayGen, kind);
    lemma_of_kind_twice(stages, GroupKind::Miss, kind);
    lemma_of_kind_twice(stages, GroupKind::Callable, kind);
    lemma_of_kind_twice(stages, GroupKind::HitGroup, kind);
    assert(of_kind(canonical(stages), kind) =~= of_kind(stages, kind));
}

/// Adds the groups of one kind behind those that are `done`.
fn add_kind(
    c: &RayTracingPipelineConfig,
    kind: GroupKind,
    done: Ghost<Seq<RayTracingStage>>,
    rest: Ghost<Seq<RayTracingStage>>,
    shaders: &mut Vec<ShaderUse>,
    groups: &mut Vec<ShaderGroup>,
    layout: &mut SbtLayout,
)
    requires
        countable(c.stages@),
        forall|i: int|
            0 <= i < c.stages@.len() ==> stage_resolvable(#[trigger] c.stages@[i], c.shaders@),
        done@ + of_kind(c.stages@, kind) + rest@ == canonical(c.stages@),
        plan_view(*old(shaders), *old(groups), *old(layout)) == plan_of(done@, c.shaders@),
    ensures
        plan_view(*final(shaders), *final(groups), *final(layout)) == plan_of(
            done@ + of_kind(c.stages@, kind),
            c.shaders@,
        ),
        final(layout).handle_size == old(layout).handle_size,
        final(layout).base_aligment == old(layout).base_aligment,
        final(layout).entry_alignment == old(layout).entry_alignment,
{
    let mut i: usize = 0;
    proof {
        assert(done@ + of_kind(c.stages@.take(0), kind) =~= done@);
    }
    while i < c.stages.len()
        invariant
            i <= c.stages@.len(),
            countable(c.stages@),
            forall|i: int|
                0 <= i < c.stages@.len() ==> stage_resolvable(
                    #[trigger] c.stages@[i],
                    c.shaders@,
                ),
            done@ + of_kind(c.stages@, kind) + rest@ == canonical(c.stages@),
            plan_view(*shaders, *groups, *layout) == plan_of(
                done@ + of_kind(c.stages@.take(i as int), kind),
                c.shaders@,
            ),
            layout.handle_size == old(layout).handle_size,
            layout.base_aligment == old(layout).base_aligment,
            layout.entry_alignment == old(layout).entry_alignment,
        decreases c.stages@.len() - i,
    {
        let stage = &c.stages[i];
        let ghost before = of_kind(c.stages@.take(i as int), kind);
        let ghost after = of_kind(c.stages@.take(i + 1), kind);
        let ghost tail = of_kind(c.stages@.skip(i + 1), kind);
        proof {
            assert(c.stages@.take(i + 1).drop_last() =~= c.stages@.take(i as int));
            assert(c.stages@ =~= c.stages@.take(i + 1) + c.stages@.skip(i + 1));
            lemma_of_kind_append(c.stages@.take(i + 1), c.stages@.skip(i + 1), kind);
        }
        if stage_kind(stage) == kind {
            proof {
                assert((done@ + after) + (tail + rest@) =~= canonical(c.stages@));
                lemma_prefix_countable(c.stages@, done@ + after, tail + rest@);
                assert((done@ + after).drop_last() =~= done@ + before);
                assert((done@ + after).last() == *stage);
                assert forall|k: GroupKind| (#[trigger] of_kind(done@ + before, k)).len()
                    <= u8::MAX by {
                    assert(of_kind(done@ + after, k).len() <= u8::MAX);
                }
                lemma_counts(done@ + before, c.shaders@);
                assert(of_kind(done@ + before, kind).len() + 1 == of_kind(
                    done@ + after,
                    kind,
                ).len());
                assert(of_kind(done@ + after, kind).len() <= u8::MAX);
                assert(kind_count(plan_of(done@ + before, c.shaders@), kind) == of_kind(
                    done@ + before,
                    kind,
                ).len());
            }
            add_stage(stage, &c.shaders, shaders, groups, layout);
        }
        i += 1;
    }
    assert(c.stages@.take(i as int) =~= c.stages@);
}

/// A pipeline can be worked out from a configuration: a table can count its
/// groups, and its shaders are there.
pub open spec fn plannable(c: RayTracingPipelineConfig) -> bool {
    &&& countable(c.stages@)
    &&& forall|i: int|
        0 <= i < c.stages@.len() ==> stage_resolvable(#[trigger] c.stages@[i], c.shaders@)
}

/// A shader that a hit group uses can be handed to a driver: its entry point has
/// no NUL in its name, and one that is named is there.
pub open spec fn is_usable(h: HitgroupShader, shaders: Seq<(String, Shader)>) -> bool {
    &&& h matches HitgroupShader::Singleton(s) ==> !s.entry_point@.contains('\0')
    &&& h matches HitgroupShader::Reused(name) ==> exists|i: int|
        0 <= i < shaders.len() && (#[trigger] shaders[i]).0@ == name@
            && !shaders[i].1.entry_point@.contains('\0') && forall|j: int|
            0 <= j < i ==> (#[trigger] shaders[j]).0@ != name@
}

proof fn lemma_usable(h: HitgroupShader, shaders: Seq<(String, Shader)>)
    ensures
        resolvable(h, shaders) <==> is_usable(h, shaders),
{
    if let HitgroupShader::Reused(name) = h {
        if resolvable(h, shaders) {
            let i = choose|i: int| #[trigger]
                is_named(shaders, name@, i) && entry_valid(shaders[i].1);
            assert(shaders[i].0@ == name@);
        }
        if is_usable(h, shaders) {
            let i = choose|i: int|
                0 <= i < shaders.len() && (#[trigger] shaders[i]).0@ == name@
                    && !shaders[i].1.entry_point@.contains('\0') && forall|j: int|
                    0 <= j < i ==> (#[trigger] shaders[j]).0@ != name@;
            assert(is_named(shaders, name@, i));
        }
    }
}

proof fn lemma_of_kind_is_no_longer(stages: Seq<RayTracingStage>, kind: GroupKind)
    ensures
        of_kind(stages, kind).len() <= stages.len(),
    decreases stages.len(),
{
    if stages.len() > 0 {
        lemma_of_kind_is_no_longer(stages.drop_last(), kind);
    }
}

proof fn lemma_of_kind_is_all(stages: Seq<RayTracingStage>, kind: GroupKind)
    requires
        forall|i: int| 0 <= i < stages.len() ==> kind_of(#[trigger] stages[i]) == kind,
    ensures
        of_kind(stages, kind) == stages,
    decreases stages.len(),
{
    if stages.len() > 0 {
        let rest = stages.drop_last();
        assert(forall|i: int| 0 <= i < rest.len() ==> #[trigger] rest[i] == stages[i]);
        assert(kind_of(stages[stages.len() - 1]) == kind);
        lemma_of_kind_is_all(rest, kind);
        assert(rest.push(stages.last()) =~= stages);
    } else {
        assert(of_kind(stages, kind) =~= stages);
    }
}

/// A pipeline of no more groups than a byte counts can be planned where every
/// shader that its groups use can be handed to a driver; one with a shader that
/// cannot be, or with more groups of one kind, cannot be planned.
pub proof fn law_pipelines_of_usable_shaders_can_be_planned(c: RayTracingPipelineConfig, i: int)
    requires
        0 <= i < c.stages@.len(),
    ensures
        plannable(c) ==> match c.stages@[i] {
            RayTracingStage::RayGen { shader, .. } => !shader.entry_point@.contains('\0'),
            RayTracingStage::Miss { shader, .. } => !shader.entry_point@.contains('\0'),
            RayTracingStage::Callable { shader, .. } => !shader.entry_point@.contains('\0'),
            RayTracingStage::HitGroup { intersection, any_hit, closest_hit, .. } => is_usable(
                intersection,
                c.shaders@,
            ) && is_usable(any_hit, c.shaders@) && is_usable(closest_hit, c.shaders@),
        },
        c.stages@.len() > 255 && (forall|j: int|
            0 <= j < c.stages@.len() ==> kind_of(#[trigger] c.stages@[j]) == kind_of(c.stages@[i]))
            ==> !plannable(c),
        c.stages@.len() <= 255 && (forall|j: int|
            0 <= j < c.stages@.len() ==> match #[trigger] c.stages@[j] {
                RayTracingStage::RayGen { shader, .. } => !shader.entry_point@.contains('\0'),
                RayTracingStage::Miss { shader, .. } => !shader.entry_point@.contains('\0'),
                RayTracingStage::Callable { shader, .. } => !shader.entry_point@.contains('\0'),
                RayTracingStage::HitGroup { intersection, any_hit, closest_hit, .. } => is_usable(
                    intersection,
                    c.shaders@,
                ) && is_usable(any_hit, c.shaders@) && is_usable(closest_hit, c.shaders@),
            }) ==> plannable(c),
{
    assert forall|j: int| 0 <= j < c.stages@.len() implies (stage_resolvable(
        #[trigger] c.stages@[j],
        c.shaders@,
    ) <==> match c.stages@[j] {
        RayTracingStage::RayGen { shader, .. } => !shader.entry_point@.contains('\0'),
        RayTracingStage::Miss { shader, .. } => !shader.entry_point@.contains('\0'),
        RayTracingStage::Callable { shader, .. } => !shader.entry_point@.contains('\0'),
        RayTracingStage::HitGroup { intersection, any_hit, closest_hit, .. } => is_usable(
            intersection,
            c.shaders@,
        ) && is_usable(any_hit, c.shaders@) && is_usable(closest_hit, c.shaders@),
    }) by {
        if let RayTracingStage::HitGroup { intersection, any_hit, closest_hit, .. } = c.stages@[j] {
            lemma_usable(intersection, c.shaders@);
            lemma_usable(any_hit, c.shaders@);
            lemma_usable(closest_hit, c.shaders@);
        }
    }
    if forall|j: int|
        0 <= j < c.stages@.len() ==> kind_of(#[trigger] c.stages@[j]) == kind_of(c.stages@[i]) {
        lemma_of_kind_is_all(c.stages@, kind_of(c.stages@[i]));
    }
    assert forall|kind: GroupKind| c.stages@.len() <= 255 implies (#[trigger] of_kind(
        c.stages@,
        kind,
    )).len() <= u8::MAX by {
        lemma_of_kind_is_no_longer(c.stages@, kind);
    }
}

fn is_name_resolvable(shaders: &Vec<(String, Shader)>, name: &str) -> (r: bool)
    ensures
        r == name_resolvable(shaders@, name@),
{
    let mut i: usize = 0;
    while i < shaders.len()
        invariant
            i <= shaders@.len(),
            forall|j: int| 0 <= j < i ==> (#[trigger] shaders@[j]).0@ != name@,
        decreases shaders@.len() - i,
    {
        if str_eq(shaders[i].0.as_str(), name) {
            let valid: bool = !contains_char(shaders[i].1.entry_point.as_str(), '\0');
            proof {
                assert(is_named(shaders@, name@, i as int));
                assert(valid == entry_valid(shaders@[i as int].1));
                assert forall|k: int| #[trigger] is_named(shaders@, name@, k) implies k == i by {
                    if i < k {
                        assert(shaders@[i as int].0@ != name@);
                    }
                }
            }
            return valid;
        }
        i += 1;
    }
    false
}

fn is_resolvable(h: &HitgroupShader, named_shaders: &Vec<(String, Shader)>) -> (r: bool)
    ensures
        r == resolvable(*h, named_shaders@),
{
    match h {
        HitgroupShader::Unused => true,
        HitgroupShader::Singleton(s) => !contains_char(s.entry_point.as_str(), '\0'),
        HitgroupShader::Reused(name) => is_name_resolvable(named_shaders, name.as_str()),
    }
}

fn is_stage_resolvable(stage: &RayTracingStage, named_shaders: &Vec<(String, Shader)>) -> (r: bool)
    ensures
        r == stage_resolvable(*stage, named_shaders@),
{
    match stage {
        RayTracingStage::RayGen { shader, .. } => !contains_char(
            shader.entry_point.as_str(),
            '\0',
        ),
        RayTracingStage::Miss { shader, .. } => !contains_char(shader.entry_point.as_str(), '\0'),
        RayTracingStage::Callable { shader, .. } => !contains_char(
            shader.entry_point.as_str(),
            '\0',
        ),
        RayTracingStage::HitGroup { intersection, any_hit, closest_hit, .. } => is_resolvable(
            intersection,
            named_shaders,
        ) && is_resolvable(any_hit, named_shaders) && is_resolvable(closest_hit, named_shaders),
    }
}

/// Whether a pipeline can be worked out from a configuration.
pub fn is_plannable(c: &RayTracingPipelineConfig) -> (r: bool)
    ensures
        r == plannable(*c),
{
    let mut raygen: u8 = 0;
    let mut miss: u8 = 0;
    let mut callable: u8 = 0;
    let mut hitgroup: u8 = 0;
    let mut i: usize = 0;
    while i < c.stages.len()
        invariant
            i <= c.stages@.len(),
            raygen == of_kind(c.stages@.take(i as int), GroupKind::RayGen).len(),
            miss == of_kind(c.stages@.take(i as int), GroupKind::Miss).len(),
            callable == of_kind(c.stages@.take(i as int), GroupKind::Callable).len(),
            hitgroup == of_kind(c.stages@.take(i as int), GroupKind::HitGroup).len(),
            forall|j: int|
                0 <= j < i ==> stage_resolvable(#[trigger] c.stages@[j], c.shaders@),
        decreases c.stages@.len() - i,
    {
        let stage = &c.stages[i];
        proof {
            assert(c.stages@.take(i + 1).drop_last() =~= c.stages@.take(i as int));
            assert(c.stages@.take(i + 1).last() == *stage);
            assert(c.stages@.take(i + 1) + c.stages@.skip(i + 1) =~= c.stages@);
            lemma_of_kind_append(
                c.stages@.take(i + 1),
                c.stages@.skip(i + 1),
                kind_of(*stage),
            );
        }
        if !is_stage_resolvable(stage, &c.shaders) {
            return false;
        }
        let count: u8 = match stage {
            RayTracingStage::RayGen { .. } => raygen,
            RayTracingStage::Miss { .. } => miss,
            RayTracingStage::Callable { .. } => callable,
            RayTracingStage::HitGroup { .. } => hitgroup,
        };
        if count == u8::MAX {
            assert(of_kind(c.stages@, kind_of(*stage)).len() > u8::MAX);
            return false;
        }
        match stage {
            RayTracingStage::RayGen { .. } => {
                raygen = count + 1;
            },
            RayTracingStage::Miss { .. } => {
                miss = count + 1;
            },
            RayTracingStage::Callable { .. } => {
                callable = count + 1;
            },
            RayTracingStage::HitGroup { .. } => {
                hitgroup = count + 1;
            },
        }
        i += 1;
    }
    assert(c.stages@.take(i as int) =~= c.stages@);
    assert forall|kind: GroupKind| (#[trigger] of_kind(c.stages@, kind)).len() <= u8::MAX by {
        match kind {
            GroupKind::RayGen => {},
            GroupKind::Miss => {},
            GroupKind::Callable => {},
            GroupKind::HitGroup => {},
        }
    }
    true
}

/// Works out a ray tracing pipeline: its shaders and groups, ray generation
/// first, miss shaders, callable shaders and hit groups behind it, and the
/// layout of its binding table. `layout` is that of an empty table.
pub fn ray_tracing_plan(
    c: &RayTracingPipelineConfig,
    use_pipeline_library: bool,
    layout: SbtLayout,
) -> (r: RayTracingPlan)
    requires
        plannable(*c),
        layout.raygen == empty_stage(),
        layout.miss == empty_stage(),
        layout.callable == empty_stage(),
        layout.hitgroup == empty_stage(),
    ensures
        r.flags == create_flags(use_pipeline_library, c.disable_optimization, c.dispatch_base),
        plan_view(r.shaders, r.groups, r.sbt_layout) == plan_of(
            canonical(c.stages@),
            c.shaders@,
        ),
        r.limits == c.limits,
        r.sbt_layout.handle_size == layout.handle_size,
        r.sbt_layout.base_aligment == layout.base_aligment,
        r.sbt_layout.entry_alignment == layout.entry_alignment,
{
    let mut shaders: Vec<ShaderUse> = Vec::new();
    let mut groups: Vec<ShaderGroup> = Vec::new();
    let mut sbt_layout = layout;
    let ghost a = of_kind(c.stages@, GroupKind::RayGen);
    let ghost b = of_kind(c.stages@, GroupKind::Miss);
    let ghost d = of_kind(c.stages@, GroupKind::Callable);
    let ghost e = of_kind(c.stages@, GroupKind::HitGroup);
    let ghost none = Seq::<RayTracingStage>::empty();
    proof {
        assert(plan_view(shaders, groups, sbt_layout) =~= plan_of(none, c.shaders@));
        assert(none + a + (b + d + e) =~= canonical(c.stages@));
        assert(none + a =~= a);
        assert(a + b + (d + e) =~= canonical(c.stages@));
        assert(a + b + d + e =~= canonical(c.stages@));
        assert(a + b + d + e + none =~= canonical(c.stages@));
    }
    add_kind(
        c,
        GroupKind::RayGen,
        Ghost(none),
        Ghost(b + d + e),
        &mut shaders,
        &mut groups,
        &mut sbt_layout,
    );
    add_kind(
        c,
        GroupKind::Miss,
        Ghost(a),
        Ghost(d + e),
        &mut shaders,
        &mut groups,
        &mut sbt_layout,
    );
    add_kind(
        c,
        GroupKind::Callable,
        Ghost(a + b),
        Ghost(e),
        &mut shaders,
        &mut groups,
        &mut sbt_layout,
    );
    add_kind(
        c,
        GroupKind::HitGroup,
        Ghost(a + b + d),
        Ghost(none),
        &mut shaders,
        &mut groups,
        &mut sbt_layout,
    );
    RayTracingPlan {
        flags: compute_create_flags(
            use_pipeline_library,
            c.disable_optimization,
            c.dispatch_base,
        ),
        shaders,
        groups,
        limits: c.limits,
        sbt_layout,
    }
}

/// The handles of a pipeline stand in the order that binding tables assume:
/// its groups are those of the canonical order, and each stage of the table
/// counts the groups of its kind.
pub proof fn law_groups_follow_the_table(
    stages: Seq<RayTracingStage>,
    named_shaders: Seq<(String, Shader)>,
)
    requires
        countable(stages),
    ensures
        ({
            let p = plan_of(canonical(stages), named_shaders);
            &&& p.groups.len() == p.raygen.count + p.miss.count + p.callable.count
                + p.hitgroup.count
            &&& p.raygen.count == of_kind(stages, GroupKind::RayGen).len()
            &&& p.miss.count == of_kind(stages, GroupKind::Miss).len()
            &&& p.callable.count == of_kind(stages, GroupKind::Callable).len()
            &&& p.hitgroup.count == of_kind(stages, GroupKind::HitGroup).len()
        }),
{
    let all = canonical(stages);
    assert(all + Seq::<RayTracingStage>::empty() =~= canonical(stages));
    lemma_prefix_countable(stages, all, Seq::empty());
    lemma_counts(all, named_shaders);
    lemma_canonical_kinds(stages, GroupKind::RayGen);
    lemma_canonical_kinds(stages, GroupKind::Miss);
    lemma_canonical_kinds(stages, GroupKind::Callable);
    lemma_canonical_kinds(stages, GroupKind::HitGroup);
    lemma_group_count(all, named_shaders);
    let p = plan_of(all, named_shaders);
    assert(kind_count(p, GroupKind::RayGen) == of_kind(all, GroupKind::RayGen).len());
    assert(kind_count(p, GroupKind::Miss) == of_kind(all, GroupKind::Miss).len());
    assert(kind_count(p, GroupKind::Callable) == of_kind(all, GroupKind::Callable).len());
    assert(kind_count(p, GroupKind::HitGroup) == of_kind(all, GroupKind::HitGroup).len());
}

proof fn lemma_group_count(stages: Seq<RayTracingStage>, named_shaders: Seq<(String, Shader)>)
    ensures
        plan_of(stages, named_shaders).groups.len() == stages.len(),
    decreases stages.len(),
{
    if stages.len() > 0 {
        lemma_group_count(stages.drop_last(), named_shaders);
    }
}

/// The size of the inline data that a stage asks for.
spec fn asked_size(stage: RayTracingStage) -> u32 {
    match stage {
        RayTracingStage::RayGen { param_size, .. } => param_size,
        RayTracingStage::Miss { param_size, .. } => param_size,
        RayTracingStage::Callable { param_size, .. } => param_size,
        RayTracingStage::HitGroup { param_size, .. } => param_size,
    }
}

spec fn kind_size(p: PlanState, kind: GroupKind) -> u32 {
    match kind {
        GroupKind::RayGen => p.raygen.param_size,
        GroupKind::Miss => p.miss.param_size,
        GroupKind::Callable => p.callable.param_size,
        GroupKind::HitGroup => p.hitgroup.param_size,
    }
}

proof fn lemma_kind_size(
    stages: Seq<RayTracingStage>,
    named_shaders: Seq<(String, Shader)>,
    kind: GroupKind,
)
    ensures
        forall|i: int|
            0 <= i < stages.len() && kind_of(#[trigger] stages[i]) == kind ==> asked_size(stages[i])
                <= kind_size(plan_of(stages, named_shaders), kind),
        kind_size(plan_of(stages, named_shaders), kind) == 0 || exists|i: int|
            0 <= i < stages.len() && kind_of(#[trigger] stages[i]) == kind && asked_size(stages[i])
                == kind_size(plan_of(stages, named_shaders), kind),
    decreases stages.len(),
{
    if stages.len() > 0 {
        let init = stages.drop_last();
        let last = stages.len() - 1;
        lemma_kind_size(init, named_shaders, kind);
        let before = kind_size(plan_of(init, named_shaders), kind);
        let now = kind_size(plan_of(stages, named_shaders), kind);
        assert forall|i: int|
            0 <= i < stages.len() && kind_of(#[trigger] stages[i]) == kind implies asked_size(
            stages[i],
        ) <= now by {
            if i < last {
                assert(init[i] == stages[i]);
            }
        }
        if now != 0 {
            if kind_of(stages[last]) == kind && asked_size(stages[last]) == now {
            } else {
                assert(now == before);
                let i = choose|i: int|
                    0 <= i < init.len() && kind_of(#[trigger] init[i]) == kind && asked_size(
                        init[i],
                    ) == before;
                assert(stages[i] == init[i]);
            }
        }
    }
}

proof fn lemma_of_kind_contains(
    stages: Seq<RayTracingStage>,
    kind: GroupKind,
    stage: RayTracingStage,
)
    ensures
        of_kind(stages, kind).contains(stage) <==> stages.contains(stage) && kind_of(stage) == kind,
    decreases stages.len(),
{
    if stages.len() > 0 {
        let init = stages.drop_last();
        let last = stages[stages.len() - 1];
        lemma_of_kind_contains(init, kind, stage);
        assert(stages =~= init.push(last));
        if stages.contains(stage) && stage != last {
            let i = choose|i: int| 0 <= i < stages.len() && stages[i] == stage;
            assert(init[i] == stage);
        }
        if init.contains(stage) {
            let i = choose|i: int| 0 <= i < init.len() && init[i] == stage;
            assert(stages[i] == stage);
        }
        let before = of_kind(init, kind);
        let now = of_kind(stages, kind);
        if kind_of(last) == kind {
            assert(now[before.len() as int] == last);
            if before.contains(stage) {
                let i = choose|i: int| 0 <= i < before.len() && before[i] == stage;
                assert(now[i] == stage);
            }
            if now.contains(stage) && stage != last {
                let i = choose|i: int| 0 <= i < now.len() && now[i] == stage;
                assert(before[i] == stage);
            }
        }
    }
}

proof fn lemma_canonical_contains(stages: Seq<RayTracingStage>, stage: RayTracingStage)
    ensures
        canonical(stages).contains(stage) <==> stages.contains(stage),
{
    let a = of_kind(stages, GroupKind::RayGen);
    let b = of_kind(stages, GroupKind::Miss);
    let c = of_kind(stages, GroupKind::Callable);
    let d = of_kind(stages, GroupKind::HitGroup);
    lemma_of_kind_contains(stages, GroupKind::RayGen, stage);
    lemma_of_kind_contains(stages, GroupKind::Miss, stage);
    lemma_of_kind_contains(stages, GroupKind::Callable, stage);
    lemma_of_kind_contains(stages, GroupKind::HitGroup, stage);
    vstd::seq_lib::lemma_seq_concat_contains_all_elements(a + b + c, d, stage);
    vstd::seq_lib::lemma_seq_concat_contains_all_elements(a + b, c, stage);
    vstd::seq_lib::lemma_seq_concat_contains_all_elements(a, b, stage);
}

proof fn lemma_planned_size(
    stages: Seq<RayTracingStage>,
    named_shaders: Seq<(String, Shader)>,
    kind: GroupKind,
)
    ensures
        forall|i: int|
            0 <= i < stages.len() && kind_of(#[trigger] stages[i]) == kind ==> asked_size(stages[i])
                <= kind_size(plan_of(canonical(stages), named_shaders), kind),
        kind_size(plan_of(canonical(stages), named_shaders), kind) == 0 || exists|i: int|
            0 <= i < stages.len() && kind_of(#[trigger] stages[i]) == kind && asked_size(stages[i])
                == kind_size(plan_of(canonical(stages), named_shaders), kind),
{
    let all = canonical(stages);
    lemma_kind_size(all, named_shaders, kind);
    let size = kind_size(plan_of(all, named_shaders), kind);
    assert forall|i: int|
        0 <= i < stages.len() && kind_of(#[trigger] stages[i]) == kind implies asked_size(stages[i])
        <= size by {
        lemma_canonical_contains(stages, stages[i]);
        let k = choose|k: int| 0 <= k < all.len() && all[k] == stages[i];
        assert(kind_of(all[k]) == kind);
    }
    if size != 0 {
        let k = choose|k: int|
            0 <= k < all.len() && kind_of(#[trigger] all[k]) == kind && asked_size(all[k]) == size;
        lemma_canonical_contains(stages, all[k]);
        let i = choose|i: int| 0 <= i < stages.len() && stages[i] == all[k];
        assert(kind_of(stages[i]) == kind);
    }
}

/// The entries of a binding table hold the inline data of every stage of their
/// kind, and are no larger than the largest asks: what the layout gives for a
/// kind is at least what each stage of the kind asks for, and it is what one of
/// them asks for, or zero.
pub proof fn law_entries_hold_the_largest_parameters(
    c: RayTracingPipelineConfig,
    r: RayTracingPlan,
)
    requires
        plannable(c),
        plan_view(r.shaders, r.groups, r.sbt_layout) == plan_of(canonical(c.stages@), c.shaders@),
    ensures
        forall|i: int|
            0 <= i < c.stages@.len() ==> match #[trigger] c.stages@[i] {
                RayTracingStage::RayGen { param_size, .. } => param_size
                    <= r.sbt_layout.raygen.param_size,
                RayTracingStage::Miss { param_size, .. } => param_size
                    <= r.sbt_layout.miss.param_size,
                RayTracingStage::Callable { param_size, .. } => param_size
                    <= r.sbt_layout.callable.param_size,
                RayTracingStage::HitGroup { param_size, .. } => param_size
                    <= r.sbt_layout.hitgroup.param_size,
            },
        r.sbt_layout.raygen.param_size == 0 || exists|i: int|
            0 <= i < c.stages@.len() && (
            #[trigger] c.stages@[i] matches RayTracingStage::RayGen { param_size, .. } && param_size
                == r.sbt_layout.raygen.param_size),
        r.sbt_layout.miss.param_size == 0 || exists|i: int|
            0 <= i < c.stages@.len() && (
            #[trigger] c.stages@[i] matches RayTracingStage::Miss { param_size, .. } && param_size
                == r.sbt_layout.miss.param_size),
        r.sbt_layout.callable.param_size == 0 || exists|i: int|
            0 <= i < c.stages@.len() && (
            #[trigger] c.stages@[i] matches RayTracingStage::Callable { param_size, .. } && param_size
                == r.sbt_layout.callable.param_size),
        r.sbt_layout.hitgroup.param_size == 0 || exists|i: int|
            0 <= i < c.stages@.len() && (
            #[trigger] c.stages@[i] matches RayTracingStage::HitGroup { param_size, .. } && param_size
                == r.sbt_layout.hitgroup.param_size),
{
    lemma_planned_size(c.stages@, c.shaders@, GroupKind::RayGen);
    lemma_planned_size(c.stages@, c.shaders@, GroupKind::Miss);
    lemma_planned_size(c.stages@, c.shaders@, GroupKind::Callable);
    lemma_planned_size(c.stages@, c.shaders@, GroupKind::HitGroup);
    assert forall|i: int| 0 <= i < c.stages@.len() implies match #[trigger] c.stages@[i] {
        RayTracingStage::RayGen { param_size, .. } => param_size <= r.sbt_layout.raygen.param_size,
        RayTracingStage::Miss { param_size, .. } => param_size <= r.sbt_layout.miss.param_size,
        RayTracingStage::Callable { param_size, .. } => param_size <= r.sbt_layout.callable.param_size,
        RayTracingStage::HitGroup { param_size, .. } => param_size <= r.sbt_layout.hitgroup.param_size,
    } by {
        assert(asked_size(c.stages@[i]) <= kind_size(
            plan_of(canonical(c.stages@), c.shaders@),
            kind_of(c.stages@[i]),
        ));
    }
    if r.sbt_layout.raygen.param_size != 0 {
        let i = choose|i: int|
            0 <= i < c.stages@.len() && kind_of(#[trigger] c.stages@[i]) == GroupKind::RayGen
                && asked_size(c.stages@[i]) == r.sbt_layout.raygen.param_size;
        assert(c.stages@[i] is RayGen);
    }
    if r.sbt_layout.miss.param_size != 0 {
        let i = choose|i: int|
            0 <= i < c.stages@.len() && kind_of(#[trigger] c.stages@[i]) == GroupKind::Miss
                && asked_size(c.stages@[i]) == r.sbt_layout.miss.param_size;
        assert(c.stages@[i] is Miss);
    }
    if r.sbt_layout.callable.param_size != 0 {
        let i = choose|i: int|
            0 <= i < c.stages@.len() && kind_of(#[trigger] c.stages@[i]) == GroupKind::Callable
                && asked_size(c.stages@[i]) == r.sbt_layout.callable.param_size;
        assert(c.stages@[i] is Callable);
    }
    if r.sbt_layout.hitgroup.param_size != 0 {
        let i = choose|i: int|
            0 <= i < c.stages@.len() && kind_of(#[trigger] c.stages@[i]) == GroupKind::HitGroup
                && asked_size(c.stages@[i]) == r.sbt_layout.hitgroup.param_size;
        assert(c.stages@[i] is HitGroup);
    }
}

/// A place in the shader list of a plan holds a shader, for a stage.
pub open spec fn runs(shaders: Seq<ShaderUse>, place: u32, shader: Shader, stage: u32) -> bool {
    &&& place < shaders.len()
    &&& shaders[place as int].path@ == shader.path@
    &&& shaders[place as int].entry_point@ == shader.entry_point@
    &&& shaders[place as int].flags == shader.flags
    &&& shaders[place as int].stage == stage
}

/// A place that a hit group gives for one of its shaders holds that shader, by
/// its own description or by its name, or none where it uses none.
pub open spec fn runs_if_used(
    shaders: Seq<ShaderUse>,
    place: u32,
    h: HitgroupShader,
    named_shaders: Seq<(String, Shader)>,
    stage: u32,
) -> bool {
    match h {
        HitgroupShader::Unused => place == vk::SHADER_UNUSED,
        HitgroupShader::Singleton(shader) => runs(shaders, place, shader, stage),
        HitgroupShader::Reused(name) => exists|i: int| #[trigger]
            is_named(named_shaders, name@, i) && runs(shaders, place, named_shaders[i].1, stage),
    }
}

/// A group consists of the shaders that a stage asks for.
pub open spec fn group_runs(
    shaders: Seq<ShaderUse>,
    group: ShaderGroup,
    stage: RayTracingStage,
    named_shaders: Seq<(String, Shader)>,
) -> bool {
    match stage {
        RayTracingStage::RayGen { shader, .. } => {
            &&& group.ty == vk::RAY_TRACING_SHADER_GROUP_TYPE_GENERAL
            &&& runs(shaders, group.general_shader, shader, vk::SHADER_STAGE_RAYGEN_KHR)
            &&& group.closest_hit_shader == vk::SHADER_UNUSED
            &&& group.any_hit_shader == vk::SHADER_UNUSED
            &&& group.intersection_shader == vk::SHADER_UNUSED
        },
        RayTracingStage::Miss { shader, .. } => {
            &&& group.ty == vk::RAY_TRACING_SHADER_GROUP_TYPE_GENERAL
            &&& runs(shaders, group.general_shader, shader, vk::SHADER_STAGE_MISS_KHR)
            &&& group.closest_hit_shader == vk::SHADER_UNUSED
            &&& group.any_hit_shader == vk::SHADER_UNUSED
            &&& group.intersection_shader == vk::SHADER_UNUSED
        },
        RayTracingStage::Callable { shader, .. } => {
            &&& group.ty == vk::RAY_TRACING_SHADER_GROUP_TYPE_GENERAL
            &&& runs(shaders, group.general_shader, shader, vk::SHADER_STAGE_CALLABLE_KHR)
            &&& group.closest_hit_shader == vk::SHADER_UNUSED
            &&& group.any_hit_shader == vk::SHADER_UNUSED
            &&& group.intersection_shader == vk::SHADER_UNUSED
        },
        RayTracingStage::HitGroup { ty, intersection, any_hit, closest_hit, .. } => {
            &&& ty is Triangles ==> group.ty
                == vk::RAY_TRACING_SHADER_GROUP_TYPE_TRIANGLES_HIT_GROUP
            &&& ty is Aabbs ==> group.ty
                == vk::RAY_TRACING_SHADER_GROUP_TYPE_PROCEDURAL_HIT_GROUP
            &&& group.general_shader == vk::SHADER_UNUSED
            &&& runs_if_used(
                shaders,
                group.any_hit_shader,
                any_hit,
                named_shaders,
                vk::SHADER_STAGE_ANY_HIT_KHR,
            )
            &&& runs_if_used(
                shaders,
                group.closest_hit_shader,
                closest_hit,
                named_shaders,
                vk::SHADER_STAGE_CLOSEST_HIT_KHR,
            )
            &&& runs_if_used(
                shaders,
                group.intersection_shader,
                intersection,
                named_shaders,
                vk::SHADER_STAGE_INTERSECTION_KHR,
            )
        },
    }
}

/// The place of the group of stage `i`: behind all groups of earlier kinds, and
/// behind those of its own kind that are configured before it.
pub open spec fn group_place(stages: Seq<RayTracingStage>, i: int) -> int {
    let before = of_kind(stages.take(i), kind_of(stages[i])).len() as int;
    let raygen = of_kind(stages, GroupKind::RayGen).len() as int;
    let miss = of_kind(stages, GroupKind::Miss).len() as int;
    let callable = of_kind(stages, GroupKind::Callable).len() as int;
    match stages[i] {
        RayTracingStage::RayGen { .. } => before,
        RayTracingStage::Miss { .. } => raygen + before,
        RayTracingStage::Callable { .. } => raygen + miss + before,
        RayTracingStage::HitGroup { .. } => raygen + miss + callable + before,
    }
}

proof fn lemma_of_kind_place(stages: Seq<RayTracingStage>, i: int)
    requires
        0 <= i < stages.len(),
    ensures
        of_kind(stages.take(i), kind_of(stages[i])).len() < of_kind(
            stages,
            kind_of(stages[i]),
        ).len(),
        of_kind(stages, kind_of(stages[i]))[of_kind(
            stages.take(i),
            kind_of(stages[i]),
        ).len() as int] == stages[i],
{
    let kind = kind_of(stages[i]);
    let head = stages.take(i + 1);
    assert(head.drop_last() =~= stages.take(i));
    assert(stages =~= head + stages.skip(i + 1));
    lemma_of_kind_append(head, stages.skip(i + 1), kind);
}

proof fn lemma_canonical_place(stages: Seq<RayTracingStage>, i: int)
    requires
        0 <= i < stages.len(),
    ensures
        0 <= group_place(stages, i) < canonical(stages).len(),
        canonical(stages)[group_place(stages, i)] == stages[i],
{
    lemma_of_kind_place(stages, i);
}

/// What is at a place of the list of shaders of a plan.
spec fn runs_view(shaders: Seq<ShaderUseView>, place: u32, shader: Shader, stage: u32) -> bool {
    place < shaders.len() && shaders[place as int] == used_at(shader, stage)
}

spec fn runs_if_used_view(
    shaders: Seq<ShaderUseView>,
    place: u32,
    h: HitgroupShader,
    named_shaders: Seq<(String, Shader)>,
    stage: u32,
) -> bool {
    match hitgroup_shader(h, named_shaders) {
        None => place == vk::SHADER_UNUSED,
        Some(shader) => runs_view(shaders, place, shader, stage),
    }
}

spec fn group_runs_view(
    shaders: Seq<ShaderUseView>,
    group: ShaderGroup,
    stage: RayTracingStage,
    named_shaders: Seq<(String, Shader)>,
) -> bool {
    match stage {
        RayTracingStage::RayGen { shader, .. } => {
            &&& group == general_group(group.general_shader as nat)
            &&& runs_view(shaders, group.general_shader, shader, vk::SHADER_STAGE_RAYGEN_KHR)
        },
        RayTracingStage::Miss { shader, .. } => {
            &&& group == general_group(group.general_shader as nat)
            &&& runs_view(shaders, group.general_shader, shader, vk::SHADER_STAGE_MISS_KHR)
        },
        RayTracingStage::Callable { shader, .. } => {
            &&& group == general_group(group.general_shader as nat)
            &&& runs_view(shaders, group.general_shader, shader, vk::SHADER_STAGE_CALLABLE_KHR)
        },
        RayTracingStage::HitGroup { ty, intersection, any_hit, closest_hit, .. } => {
            &&& group.ty == (match ty {
                HitGroupType::Triangles => vk::RAY_TRACING_SHADER_GROUP_TYPE_TRIANGLES_HIT_GROUP,
                HitGroupType::Aabbs => vk::RAY_TRACING_SHADER_GROUP_TYPE_PROCEDURAL_HIT_GROUP,
            })
            &&& group.general_shader == vk::SHADER_UNUSED
            &&& runs_if_used_view(
                shaders,
                group.any_hit_shader,
                any_hit,
                named_shaders,
                vk::SHADER_STAGE_ANY_HIT_KHR,
            )
            &&& runs_if_used_view(
                shaders,
                group.closest_hit_shader,
                closest_hit,
                named_shaders,
                vk::SHADER_STAGE_CLOSEST_HIT_KHR,
            )
            &&& runs_if_used_view(
                shaders,
                group.intersection_shader,
                intersection,
                named_shaders,
                vk::SHADER_STAGE_INTERSECTION_KHR,
            )
        },
    }
}

proof fn lemma_group_runs(
    stages: Seq<RayTracingStage>,
    named_shaders: Seq<(String, Shader)>,
    j: int,
)
    requires
        stages.len() <= 1020,
        0 <= j < stages.len(),
    ensures
        plan_of(stages, named_shaders).shaders.len() <= 3 * stages.len(),
        group_runs_view(
            plan_of(stages, named_shaders).shaders,
            plan_of(stages, named_shaders).groups[j],
            stages[j],
            named_shaders,
        ),
    decreases stages.len(),
{
    let init = stages.drop_last();
    let last = stages.len() - 1;
    lemma_group_count(stages, named_shaders);
    lemma_group_count(init, named_shaders);
    lemma_shader_count(init, named_shaders);
    lemma_shader_count(stages, named_shaders);
    let before = plan_of(init, named_shaders);
    let now = plan_of(stages, named_shaders);
    assert(stages[last] == stages.last());
    assert(forall|k: int|
        0 <= k < before.shaders.len() ==> #[trigger] now.shaders[k] == before.shaders[k]);
    if j < last {
        lemma_group_runs(init, named_shaders, j);
        assert(now.groups[j] == before.groups[j]);
        assert(init[j] == stages[j]);
    }
}

proof fn lemma_shader_count(stages: Seq<RayTracingStage>, named_shaders: Seq<(String, Shader)>)
    ensures
        plan_of(stages, named_shaders).shaders.len() <= 3 * stages.len(),
    decreases stages.len(),
{
    if stages.len() > 0 {
        lemma_shader_count(stages.drop_last(), named_shaders);
    }
}

/// Every stage of the configuration has its group, at the place where binding
/// tables look for it, and the group runs the shaders of the stage, each in the
/// role that it is configured for.
pub proof fn law_groups_run_their_shaders(
    c: RayTracingPipelineConfig,
    r: RayTracingPlan,
    i: int,
)
    requires
        plannable(c),
        plan_view(r.shaders, r.groups, r.sbt_layout) == plan_of(canonical(c.stages@), c.shaders@),
        0 <= i < c.stages@.len(),
    ensures
        r.groups@.len() == c.stages@.len(),
        0 <= group_place(c.stages@, i) < r.groups@.len(),
        group_runs(
            r.shaders@,
            r.groups@[group_place(c.stages@, i)],
            c.stages@[i],
            c.shaders@,
        ),
{
    let all = canonical(c.stages@);
    let place = group_place(c.stages@, i);
    let views = r.shaders@.map_values(|s: ShaderUse| s@);
    assert(of_kind(c.stages@, GroupKind::RayGen).len() <= u8::MAX);
    assert(of_kind(c.stages@, GroupKind::Miss).len() <= u8::MAX);
    assert(of_kind(c.stages@, GroupKind::Callable).len() <= u8::MAX);
    assert(of_kind(c.stages@, GroupKind::HitGroup).len() <= u8::MAX);
    lemma_canonical_place(c.stages@, i);
    lemma_canonical_len(c.stages@);
    lemma_group_count(all, c.shaders@);
    lemma_group_runs(all, c.shaders@, place);
    assert(views.len() == r.shaders@.len());
    assert forall|k: int| 0 <= k < views.len() implies #[trigger] views[k] == r.shaders@[k]@ by {}
    assert(stage_resolvable(c.stages@[i], c.shaders@));
    match c.stages@[i] {
        RayTracingStage::HitGroup { ty, intersection, any_hit, closest_hit, .. } => {
            let g = r.groups@[place];
            lemma_runs_if_used(
                r.shaders@,
                g.any_hit_shader,
                any_hit,
                c.shaders@,
                vk::SHADER_STAGE_ANY_HIT_KHR,
            );
            lemma_runs_if_used(
                r.shaders@,
                g.closest_hit_shader,
                closest_hit,
                c.shaders@,
                vk::SHADER_STAGE_CLOSEST_HIT_KHR,
            );
            lemma_runs_if_used(
                r.shaders@,
                g.intersection_shader,
                intersection,
                c.shaders@,
                vk::SHADER_STAGE_INTERSECTION_KHR,
            );
        },
        _ => {},
    }
}

proof fn lemma_runs_if_used(
    shaders: Seq<ShaderUse>,
    place: u32,
    h: HitgroupShader,
    named_shaders: Seq<(String, Shader)>,
    stage: u32,
)
    requires
        resolvable(h, named_shaders),
        runs_if_used_view(
            shaders.map_values(|s: ShaderUse| s@),
            place,
            h,
            named_shaders,
            stage,
        ),
    ensures
        runs_if_used(shaders, place, h, named_shaders, stage),
{
    let views = shaders.map_values(|s: ShaderUse| s@);
    if place < views.len() {
        assert(views[place as int] == shaders[place as int]@);
    }
    if let HitgroupShader::Reused(name) = h {
        assert(name_resolvable(named_shaders, name@));
        let i = choose|i: int| #[trigger]
            is_named(named_shaders, name@, i) && entry_valid(named_shaders[i].1);
        assert(is_named(named_shaders, name@, named(named_shaders, name@)));
    }
}

proof fn lemma_canonical_len(stages: Seq<RayTracingStage>)
    ensures
        canonical(stages).len() == stages.len(),
    decreases stages.len(),
{
    if stages.len() > 0 {
        lemma_canonical_len(stages.drop_last());
    }
}

/// The creation flags of a pipeline have one bit for each of its properties, and
/// no others.
pub proof fn law_creation_flags_tell_the_properties(
    library: bool,
    disable_optimization: bool,
    dispatch_base: bool,
)
    ensures
        ({
            let flags = create_flags(library, disable_optimization, dispatch_base);
            &&& flags & vk::PIPELINE_CREATE_LIBRARY_KHR != 0 <==> library
            &&& flags & vk::PIPELINE_CREATE_DISABLE_OPTIMIZATION != 0 <==> disable_optimization
            &&& flags & vk::PIPELINE_CREATE_DISPATCH_BASE != 0 <==> dispatch_base
            &&& flags & !(vk::PIPELINE_CREATE_LIBRARY_KHR
                | vk::PIPELINE_CREATE_DISABLE_OPTIMIZATION | vk::PIPELINE_CREATE_DISPATCH_BASE) == 0
        }),
{
    let a = flag(library, vk::PIPELINE_CREATE_LIBRARY_KHR);
    let b = flag(disable_optimization, vk::PIPELINE_CREATE_DISABLE_OPTIMIZATION);
    let c = flag(dispatch_base, vk::PIPELINE_CREATE_DISPATCH_BASE);
    let flags = a | b | c;
    assert(flags & 0x800 == a && flags & 1 == b && flags & 0x10 == c && flags & !(0x800u32 | 1u32
        | 0x10u32) == 0) by (bit_vector)
        requires
            flags == a | b | c,
            a == 0 || a == 0x800,
            b == 0 || b == 1,
            c == 0 || c == 0x10,
    ;
}

// ---------------------------------------------------------------------------
// Caches
// ---------------------------------------------------------------------------

/// Objects that have been loaded, by the path they were loaded from.
pub struct AssetCache {
    pub entries: Vec<(String, u64)>,
}

/// What the entries hold under a path.
pub open spec fn cached(entries: Seq<(String, u64)>, path: Seq<char>) -> Option<u64> {
    if exists|i: int| 0 <= i < entries.len() && (#[trigger] entries[i]).0@ == path {
        Some(
            entries[choose|i: int| 0 <= i < entries.len() && (#[trigger] entries[i]).0@ == path].1,
        )
    } else {
        None
    }
}

impl AssetCache {
    /// No path occurs twice.
    pub open spec fn wf(&self) -> bool {
        forall|i: int, j: int|
            0 <= i < j < self.entries@.len() ==> (#[trigger] self.entries@[i]).0@ != (
            #[trigger] self.entries@[j]).0@
    }

    /// What is loaded from a path.
    pub open spec fn get_spec(&self, path: Seq<char>) -> Option<u64> {
        cached(self.entries@, path)
    }

    /// An empty cache.
    pub fn new() -> (r: Self)
        ensures
            r.wf(),
            forall|path: Seq<char>| #[trigger] r.get_spec(path) is None,
    {
        AssetCache { entries: Vec::new() }
    }

    /// The object that was loaded from a path.
    pub fn get(&self, path: &str) -> (r: Option<u64>)
        requires
            self.wf(),
        ensures
            r == self.get_spec(path@),
    {
        let mut i: usize = 0;
        while i < self.entries.len()
            invariant
                self.wf(),
                i <= self.entries@.len(),
                forall|j: int| 0 <= j < i ==> (#[trigger] self.entries@[j]).0@ != path@,
            decreases self.entries@.len() - i,
        {
            if str_eq(self.entries[i].0.as_str(), path) {
                assert(self.entries@[i as int].0@ == path@);
                return Some(self.entries[i].1);
            }
            i += 1;
        }
        None
    }

    /// What is loaded from a path and still in use.
    pub open spec fn live_spec(&self, path: Seq<char>, in_use: Seq<bool>) -> Option<u64> {
        match self.get_spec(path) {
            Some(object) => if object < in_use.len() && in_use[object as int] {
                Some(object)
            } else {
                None
            },
            None => None,
        }
    }

    /// The object that was loaded from a path, if it is still in use; otherwise
    /// it is loaded. `in_use` says so of each object.
    pub fn get_live(&self, path: &str, in_use: &[bool]) -> (r: Option<u64>)
        requires
            self.wf(),
        ensures
            r == self.live_spec(path@, in_use@),
    {
        match self.get(path) {
            Some(object) => {
                if object < in_use.len() as u64 && in_use[object as usize] {
                    Some(object)
                } else {
                    None
                }
            },
            None => None,
        }
    }

    /// `object` is noted under a path, and nothing else is changed.
    pub open spec fn noted(&self, before: AssetCache, path: Seq<char>, object: u64) -> bool {
        &&& self.get_spec(path) == Some(object)
        &&& forall|other: Seq<char>|
            other != path ==> #[trigger] self.get_spec(other) == before.get_spec(other)
    }

    /// Notes the object that was loaded from a path, in place of an older one.
    pub fn insert(&mut self, path: String, object: u64)
        requires
            old(self).wf(),
        ensures
            final(self).wf(),
            final(self).noted(*old(self), path@, object),
    {
        let ghost before = self.entries@;
        let mut i: usize = 0;
        while i < self.entries.len()
            invariant
                self.wf(),
                self.entries@ == before,
                before == old(self).entries@,
                old(self).wf(),
                i <= self.entries@.len(),
                forall|j: int| 0 <= j < i ==> (#[trigger] self.entries@[j]).0@ != path@,
            decreases self.entries@.len() - i,
        {
            if str_eq(self.entries[i].0.as_str(), path.as_str()) {
                let ghost place = i as int;
                self.entries.set(i, (path, object));
                proof {
                    let after = self.entries@;
                    assert(after[place].0@ == path@);
                    assert forall|other: Seq<char>| other != path@ implies #[trigger] cached(
                        after,
                        other,
                    ) == cached(before, other) by {
                        lemma_cached_same(before, after, other, place);
                    }
                }
                return ;
            }
            i += 1;
        }
        self.entries.push((path, object));
        proof {
            let after = self.entries@;
            let place = before.len() as int;
            assert(after[place].0@ == path@);
            assert forall|other: Seq<char>| other != path@ implies #[trigger] cached(after, other)
                == cached(before, other) by {
                lemma_cached_same(before, after, other, place);
            }
        }
    }
}

/// As long as an object that was loaded from a path is in use, it is what the
/// path gives, also after objects were loaded from other paths.
pub proof fn law_loaded_objects_are_shared(
    before: AssetCache,
    loaded: AssetCache,
    after: AssetCache,
    path: Seq<char>,
    object: u64,
    other: Seq<char>,
    other_object: u64,
    in_use: Seq<bool>,
)
    requires
        loaded.noted(before, path, object),
        after.noted(loaded, other, other_object),
        other != path,
        object < in_use.len(),
        in_use[object as int],
    ensures
        loaded.live_spec(path, in_use) == Some(object),
        after.live_spec(path, in_use) == Some(object),
{
}

/// Entries under other paths are not touched.
proof fn lemma_cached_same(
    before: Seq<(String, u64)>,
    after: Seq<(String, u64)>,
    path: Seq<char>,
    place: int,
)
    requires
        forall|i: int, j: int|
            0 <= i < j < before.len() ==> (#[trigger] before[i]).0@ != (#[trigger] before[j]).0@,
        before.len() <= after.len() <= before.len() + 1,
        0 <= place < after.len(),
        place < before.len() ==> after.len() == before.len() && before[place].0@
            == after[place].0@,
        after.len() > before.len() ==> place == before.len(),
        forall|i: int| 0 <= i < before.len() && i != place ==> #[trigger] after[i] == before[i],
        after[place].0@ != path,
    ensures
        cached(after, path) == cached(before, path),
{
    if exists|i: int| 0 <= i < before.len() && (#[trigger] before[i]).0@ == path {
        let i = choose|i: int| 0 <= i < before.len() && (#[trigger] before[i]).0@ == path;
        assert(after[i] == before[i]);
        let k = choose|k: int| 0 <= k < after.len() && (#[trigger] after[k]).0@ == path;
        assert(after[k] == before[k]);
        assert(k == i);
    } else {
        if exists|k: int| 0 <= k < after.len() && (#[trigger] after[k]).0@ == path {
            let k = choose|k: int| 0 <= k < after.len() && (#[trigger] after[k]).0@ == path;
            assert(after[k] == before[k]);
        }
    }
}

// ---------------------------------------------------------------------------
// Ray tracing pipeline libraries
// ---------------------------------------------------------------------------

/// How a ray tracing pipeline library is kept: as a pipeline library of the
/// device, or, where the device has none that work, as the shaders and groups
/// to put into the final pipeline.
pub enum RayTracingPipelineLibraryImpl<P, L> {
    Library(P),
    Monolithic { flags: u32, layout: L, shaders: Vec<ShaderUse>, groups: Vec<ShaderGroup> },
}

/// A loaded ray tracing pipeline library. `P` is the handle of a pipeline, `L`
/// that of a pipeline layout.
pub struct RayTracingPipelineLibrary<P, L> {
    pub inner: RayTracingPipelineLibraryImpl<P, L>,
    pub max_ray_recursion_depth: u32,
    pub max_ray_payload_size: u32,
    pub max_hit_attribute_size: u32,
    pub dynamic_stack_size: bool,
    pub sbt_layout: SbtLayout,
}

/// What the device makes a pipeline library from, where pipeline libraries are
/// used. `shaders` are the modules of the shaders of the plan, in order.
pub fn library_create_info(
    plan: &RayTracingPlan,
    use_pipeline_library: bool,
    layout: u64,
    shaders: Vec<ShaderEntry>,
) -> (r: Option<RayTracingPipelineLibraryCreateInfo>)
    requires
        shaders@.len() == plan.shaders@.len(),
    ensures
        r is Some <==> use_pipeline_library,
        r matches Some(info) ==> {
            &&& info.flags == plan.flags
            &&& info.layout == layout
            &&& info.max_ray_recursion_depth == plan.limits.max_ray_recursion_depth
            &&& info.max_ray_payload_size == plan.limits.max_ray_payload_size
            &&& info.max_hit_attribute_size == plan.limits.max_hit_attribute_size
            &&& info.dynamic_stack_size == plan.limits.dynamic_stack_size
            &&& info.shaders == shaders
            &&& info.groups@ == plan.groups@
        },
{
    if !use_pipeline_library {
        return None;
    }
    Some(
        RayTracingPipelineLibraryCreateInfo {
            flags: plan.flags,
            layout,
            max_ray_recursion_depth: plan.limits.max_ray_recursion_depth,
            max_ray_payload_size: plan.limits.max_ray_payload_size,
            max_hit_attribute_size: plan.limits.max_hit_attribute_size,
            dynamic_stack_size: plan.limits.dynamic_stack_size,
            shaders,
            groups: rtx::copy_groups(&plan.groups),
        },
    )
}

/// The library of a plan. Where pipeline libraries are used, `pipeline` is the
/// one that the device has made.
pub fn ray_tracing_library<P, L>(
    plan: RayTracingPlan,
    use_pipeline_library: bool,
    layout: L,
    pipeline: Option<P>,
) -> (r: RayTracingPipelineLibrary<P, L>)
    requires
        use_pipeline_library ==> pipeline is Some,
    ensures
        use_pipeline_library ==> r.inner == RayTracingPipelineLibraryImpl::<P, L>::Library(
            pipeline->0,
        ),
        !use_pipeline_library ==> r.inner == (RayTracingPipelineLibraryImpl::<P, L>::Monolithic {
            flags: plan.flags,
            layout,
            shaders: plan.shaders,
            groups: plan.groups,
        }),
        r.max_ray_recursion_depth == plan.limits.max_ray_recursion_depth,
        r.max_ray_payload_size == plan.limits.max_ray_payload_size,
        r.max_hit_attribute_size == plan.limits.max_hit_attribute_size,
        r.dynamic_stack_size == plan.limits.dynamic_stack_size,
        r.sbt_layout == plan.sbt_layout,
{
    let limits = plan.limits;
    let sbt_layout = plan.sbt_layout;
    let inner = match pipeline {
        Some(p) if use_pipeline_library => RayTracingPipelineLibraryImpl::Library(p),
        _ => RayTracingPipelineLibraryImpl::Monolithic {
            flags: plan.flags,
            layout,
            shaders: plan.shaders,
            groups: plan.groups,
        },
    };
    RayTracingPipelineLibrary {
        inner,
        max_ray_recursion_depth: limits.max_ray_recursion_depth,
        max_ray_payload_size: limits.max_ray_payload_size,
        max_hit_attribute_size: limits.max_hit_attribute_size,
        dynamic_stack_size: limits.dynamic_stack_size,
        sbt_layout,
    }
}

impl<P, L> RayTracingPipelineLibrary<P, L> {
    /// Whether the library has no pipeline of its own.
    pub fn is_monolithic(&self) -> (r: bool)
        ensures
            r == (self.inner is Monolithic),
    {
        match self.inner {
            RayTracingPipelineLibraryImpl::Monolithic { .. } => true,
            RayTracingPipelineLibraryImpl::Library(_) => false,
        }
    }

    /// The pipeline of a library that has one.
    pub fn pipeline(&self) -> (r: &P)
        requires
            self.inner is Library,
        ensures
            *r == self.inner->Library_0,
    {
        match &self.inner {
            RayTracingPipelineLibraryImpl::Library(p) => p,
            RayTracingPipelineLibraryImpl::Monolithic { .. } => vstd::pervasive::unreached(),
        }
    }

    /// What a library without a pipeline adds to the final one.
    pub fn inline_data(&self) -> (r: (u32, &L, &Vec<ShaderUse>, &Vec<ShaderGroup>))
        requires
            self.inner is Monolithic,
        ensures
            r.0 == self.inner->flags,
            *r.1 == self.inner->layout,
            *r.2 == self.inner->shaders,
            *r.3 == self.inner->groups,
    {
        match &self.inner {
            RayTracingPipelineLibraryImpl::Monolithic { flags, layout, shaders, groups } => (
                *flags,
                layout,
                shaders,
                groups,
            ),
            RayTracingPipelineLibraryImpl::Library(_) => vstd::pervasive::unreached(),
        }
    }
}

} // verus!
