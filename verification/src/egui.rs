//! Drawing of a user interface that is given as meshes and textures.

use std::collections::BTreeMap;
use std::collections::HashMap;

use crate::command;
use crate::command::{
    Access, BufferRegion, Command, DescriptorWrite, ImageTransition, IndexRange, RenderPass,
};
use crate::device;
use crate::device::DeviceBuilder;
use crate::device::Extension;
use crate::graphics::{Rect2D, Viewport};
use crate::loader;
use crate::loader::ImageInfo;
use crate::physical_device;
use crate::physical_device::MissingFeatureError;
use crate::version;
use crate::version::Version;
use crate::vk;
use vstd::prelude::*;

verus! {

broadcast use {
    vstd::std_specs::hash::group_hash_axioms,
    vstd::std_specs::btree::group_btree_axioms,
};

// ---------------------------------------------------------------------------
// Plugin
// ---------------------------------------------------------------------------

/// Settings of the user interface.
#[derive(Debug, Clone, Copy, PartialEq, Eq, Structural)]
pub struct EguiPlugin {
    /// Whether colors are converted to linear values in the shader.
    pub linear_colorspace: bool,
    pub framebuffer_format: i32,
}

impl Default for EguiPlugin {
    fn default() -> (r: Self)
        ensures
            r == (EguiPlugin {
                linear_colorspace: true,
                framebuffer_format: vk::FORMAT_B8G8R8A8_SRGB,
            }),
    {
        EguiPlugin { linear_colorspace: true, framebuffer_format: vk::FORMAT_B8G8R8A8_SRGB }
    }
}

/// Structure type of the feature behind rendering without render pass objects.
pub const DYNAMIC_RENDERING_FEATURES: i32 = 1000044003;

/// The extension is there, or part of Vulkan.
pub open spec fn supports(b: DeviceBuilder, e: Extension) -> bool {
    device::is_core(e, b.api_version) || b.available_extensions@.contains_key(e.name@)
}

/// `m` with an extension, where that is not part of Vulkan.
pub open spec fn with_extension(b: DeviceBuilder, m: Map<Seq<u8>, bool>, e: Extension) -> Map<
    Seq<u8>,
    bool,
> {
    if device::is_core(e, b.api_version) {
        m
    } else {
        m.insert(e.name@, true)
    }
}

/// What drawing needs is there by the version of Vulkan or by an extension; the
/// extension is enabled where the version does not have it, and nothing else is.
pub proof fn law_needs_are_met_by_version_or_extension(
    b: DeviceBuilder,
    m: Map<Seq<u8>, bool>,
    e: Extension,
    other: Seq<u8>,
)
    ensures
        e.promoted_to matches Some(v) ==> (b.api_version.0 >= v.0 ==> supports(b, e)
            && with_extension(b, m, e) == m),
        e.promoted_to matches Some(v) ==> (b.api_version.0 < v.0 ==> (supports(b, e)
            <==> b.available_extensions@.contains_key(e.name@)) && with_extension(
            b,
            m,
            e,
        ).contains_key(e.name@) && with_extension(b, m, e)[e.name@]),
        e.promoted_to is None ==> (supports(b, e) <==> b.available_extensions@.contains_key(
            e.name@,
        )) && with_extension(b, m, e).contains_key(e.name@) && with_extension(b, m, e)[e.name@],
        other != e.name@ ==> (with_extension(b, m, e).contains_key(other) <==> m.contains_key(
            other,
        )),
        other != e.name@ && m.contains_key(other) ==> with_extension(b, m, e)[other] == m[other],
{
}

/// Enables what drawing needs: rendering without render pass objects, by its
/// extension and its feature (`reported`), and descriptors that are passed
/// along with the commands.
pub fn enable_egui(
    builder: &mut DeviceBuilder,
    dynamic_rendering: &Extension,
    push_descriptor: &Extension,
    reported: u32,
) -> (r: Result<(), MissingFeatureError>)
    requires
        old(builder).wf(),
        old(builder).features.fits(DYNAMIC_RENDERING_FEATURES, 1),
    ensures
        final(builder).wf(),
        r is Ok <==> supports(*old(builder), *dynamic_rendering) && physical_device::flags_or(
            old(builder).features.available_features@,
            DYNAMIC_RENDERING_FEATURES,
            seq![reported],
        )[0] != vk::FALSE && supports(*old(builder), *push_descriptor),
        r matches Err(e) ==> (e is Feature <==> supports(*old(builder), *dynamic_rendering)
            && physical_device::flags_or(
            old(builder).features.available_features@,
            DYNAMIC_RENDERING_FEATURES,
            seq![reported],
        )[0] == vk::FALSE),
        r matches Err(MissingFeatureError::Extension(name)) ==> name@ == (if supports(
            *old(builder),
            *dynamic_rendering,
        ) {
            push_descriptor.name@
        } else {
            dynamic_rendering.name@
        }),
        r is Ok ==> final(builder).enabled_extensions@ == with_extension(
            *old(builder),
            with_extension(
                *old(builder),
                old(builder).enabled_extensions@,
                *dynamic_rendering,
            ),
            *push_descriptor,
        ),
        r is Ok ==> physical_device::flags_or(
            final(builder).features.enabled_features@,
            DYNAMIC_RENDERING_FEATURES,
            Seq::empty(),
        ) == physical_device::flags_or(
            old(builder).features.enabled_features@,
            DYNAMIC_RENDERING_FEATURES,
            physical_device::no_flags(1),
        ).update(0, vk::TRUE),
{
    match builder.enable_extension(dynamic_rendering) {
        Ok(()) => {},
        Err(e) => {
            return Err(e);
        },
    }
    let mut flags: Vec<u32> = Vec::new();
    flags.push(reported);
    assert(flags@ =~= seq![reported]);
    match builder.enable_feature(dynamic_rendering, DYNAMIC_RENDERING_FEATURES, 0, flags) {
        Ok(()) => {},
        Err(e) => {
            return Err(e);
        },
    }
    builder.enable_extension(push_descriptor)
}

// ---------------------------------------------------------------------------
// Meshes
// ---------------------------------------------------------------------------

/// A corner of a triangle: position and texture coordinates, by the bit
/// patterns of floats, and color.
#[derive(Debug, Clone, Copy, PartialEq, Eq)]
pub struct Vertex {
    pub pos: [u32; 2],
    pub uv: [u32; 2],
    pub color: [u8; 4],
}

/// Triangles with one texture, cut off at a rectangle.
pub struct Mesh {
    pub clip: Rect2D,
    pub texture: u64,
    pub indices: Vec<u32>,
    pub vertices: Vec<Vertex>,
}

/// Something to be drawn.
pub enum PaintJob {
    Mesh(Mesh),
    /// Drawn by the application itself.
    Callback,
}

pub open spec fn job_indices(job: PaintJob) -> Seq<u32> {
    match job {
        PaintJob::Mesh(mesh) => mesh.indices@,
        PaintJob::Callback => Seq::empty(),
    }
}

pub open spec fn job_vertices(job: PaintJob) -> Seq<Vertex> {
    match job {
        PaintJob::Mesh(mesh) => mesh.vertices@,
        PaintJob::Callback => Seq::empty(),
    }
}

/// The indices of the meshes, one mesh after the other.
pub open spec fn all_indices(jobs: Seq<PaintJob>) -> Seq<u32>
    decreases jobs.len(),
{
    if jobs.len() == 0 {
        Seq::empty()
    } else {
        all_indices(jobs.drop_last()) + job_indices(jobs.last())
    }
}

/// The vertices of the meshes, one mesh after the other.
pub open spec fn all_vertices(jobs: Seq<PaintJob>) -> Seq<Vertex>
    decreases jobs.len(),
{
    if jobs.len() == 0 {
        Seq::empty()
    } else {
        all_vertices(jobs.drop_last()) + job_vertices(jobs.last())
    }
}

/// The contents of the index buffer and the vertex buffer; none where there is
/// nothing to draw.
pub fn collect_outputs(jobs: &Vec<PaintJob>) -> (r: Option<(Vec<u32>, Vec<Vertex>)>)
    ensures
        r is None <==> all_indices(jobs@).len() == 0 || all_vertices(jobs@).len() == 0,
        r matches Some((indices, vertices)) ==> indices@ == all_indices(jobs@) && vertices@
            == all_vertices(jobs@),
{
    let mut indices: Vec<u32> = Vec::new();
    let mut vertices: Vec<Vertex> = Vec::new();
    let mut i: usize = 0;
    while i < jobs.len()
        invariant
            i <= jobs@.len(),
            indices@ == all_indices(jobs@.take(i as int)),
            vertices@ == all_vertices(jobs@.take(i as int)),
        decreases jobs@.len() - i,
    {
        assert(jobs@.take(i + 1).drop_last() =~= jobs@.take(i as int));
        match &jobs[i] {
            PaintJob::Mesh(mesh) => {
                let ghost listed = indices@;
                let ghost placed = vertices@;
                indices.extend_from_slice(mesh.indices.as_slice());
                vertices.extend_from_slice(mesh.vertices.as_slice());
                assert(indices@ =~= listed + mesh.indices@);
                assert(vertices@ =~= placed + mesh.vertices@);
            },
            PaintJob::Callback => {
                assert(indices@ =~= indices@ + Seq::<u32>::empty());
                assert(vertices@ =~= vertices@ + Seq::<Vertex>::empty());
            },
        }
        i += 1;
    }
    assert(jobs@.take(i as int) =~= jobs@);
    if indices.len() == 0 || vertices.len() == 0 {
        None
    } else {
        Some((indices, vertices))
    }
}

// ---------------------------------------------------------------------------
// Textures
// ---------------------------------------------------------------------------

#[derive(Debug, Clone, Copy, PartialEq, Eq, Structural)]
pub enum TextureFilter {
    Nearest,
    Linear,
}

#[derive(Debug, Clone, Copy, PartialEq, Eq, Structural)]
pub enum TextureWrapMode {
    ClampToEdge,
    Repeat,
    MirroredRepeat,
}

/// How a texture is sampled.
#[derive(Debug, Clone, Copy, PartialEq, Eq)]
pub struct TextureOptions {
    pub magnification: TextureFilter,
    pub minification: TextureFilter,
    pub wrap_mode: TextureWrapMode,
    pub mipmap_mode: Option<TextureFilter>,
}

/// How a sampler is created.
#[derive(Debug, Clone, Copy, PartialEq, Eq, Structural)]
pub struct SamplerInfo {
    pub min_filter: i32,
    pub mag_filter: i32,
    pub address_mode: i32,
}

pub open spec fn filter_of(filter: TextureFilter) -> i32 {
    match filter {
        TextureFilter::Nearest => vk::FILTER_NEAREST,
        TextureFilter::Linear => vk::FILTER_LINEAR,
    }
}

pub open spec fn sampler_of(options: TextureOptions) -> SamplerInfo {
    SamplerInfo {
        min_filter: filter_of(options.minification),
        mag_filter: filter_of(options.magnification),
        address_mode: match options.wrap_mode {
            TextureWrapMode::ClampToEdge => vk::SAMPLER_ADDRESS_MODE_CLAMP_TO_EDGE,
            TextureWrapMode::Repeat => vk::SAMPLER_ADDRESS_MODE_REPEAT,
            TextureWrapMode::MirroredRepeat => vk::SAMPLER_ADDRESS_MODE_MIRRORED_REPEAT,
        },
    }
}

/// A texture is sampled as its options say, magnified and minified each by its
/// own filter.
pub proof fn law_samplers_follow_the_options(options: TextureOptions)
    ensures
        ({
            let s = sampler_of(options);
            &&& options.minification is Nearest ==> s.min_filter == vk::FILTER_NEAREST
            &&& options.minification is Linear ==> s.min_filter == vk::FILTER_LINEAR
            &&& options.magnification is Nearest ==> s.mag_filter == vk::FILTER_NEAREST
            &&& options.magnification is Linear ==> s.mag_filter == vk::FILTER_LINEAR
            &&& options.wrap_mode is ClampToEdge ==> s.address_mode
                == vk::SAMPLER_ADDRESS_MODE_CLAMP_TO_EDGE
            &&& options.wrap_mode is Repeat ==> s.address_mode == vk::SAMPLER_ADDRESS_MODE_REPEAT
            &&& options.wrap_mode is MirroredRepeat ==> s.address_mode
                == vk::SAMPLER_ADDRESS_MODE_MIRRORED_REPEAT
        }),
{
}

fn convert_filter(filter: TextureFilter) -> (r: i32)
    ensures
        r == filter_of(filter),
{
    match filter {
        TextureFilter::Nearest => vk::FILTER_NEAREST,
        TextureFilter::Linear => vk::FILTER_LINEAR,
    }
}

fn sampler_info(options: &TextureOptions) -> (r: SamplerInfo)
    ensures
        r == sampler_of(*options),
{
    SamplerInfo {
        min_filter: convert_filter(options.minification),
        mag_filter: convert_filter(options.magnification),
        address_mode: match options.wrap_mode {
            TextureWrapMode::ClampToEdge => vk::SAMPLER_ADDRESS_MODE_CLAMP_TO_EDGE,
            TextureWrapMode::Repeat => vk::SAMPLER_ADDRESS_MODE_REPEAT,
            TextureWrapMode::MirroredRepeat => vk::SAMPLER_ADDRESS_MODE_MIRRORED_REPEAT,
        },
    }
}

/// A number for options; different options have different numbers.
pub open spec fn options_number(o: TextureOptions) -> u64 {
    let mag = if o.magnification is Nearest {
        0u64
    } else {
        1u64
    };
    let min = if o.minification is Nearest {
        0u64
    } else {
        2u64
    };
    let wrap = match o.wrap_mode {
        TextureWrapMode::ClampToEdge => 0u64,
        TextureWrapMode::Repeat => 4u64,
        TextureWrapMode::MirroredRepeat => 8u64,
    };
    let mipmap = match o.mipmap_mode {
        None => 0u64,
        Some(TextureFilter::Nearest) => 16u64,
        Some(TextureFilter::Linear) => 32u64,
    };
    (mag + min + wrap + mipmap) as u64
}

fn number_of(o: &TextureOptions) -> (r: u64)
    ensures
        r == options_number(*o),
{
    let mag: u64 = match o.magnification {
        TextureFilter::Nearest => 0,
        TextureFilter::Linear => 1,
    };
    let min: u64 = match o.minification {
        TextureFilter::Nearest => 0,
        TextureFilter::Linear => 2,
    };
    let wrap: u64 = match o.wrap_mode {
        TextureWrapMode::ClampToEdge => 0,
        TextureWrapMode::Repeat => 4,
        TextureWrapMode::MirroredRepeat => 8,
    };
    let mipmap: u64 = match o.mipmap_mode {
        None => 0,
        Some(TextureFilter::Nearest) => 16,
        Some(TextureFilter::Linear) => 32,
    };
    mag + min + wrap + mipmap
}

/// Textures share a sampler only where they are sampled alike.
pub proof fn law_samplers_are_told_apart(a: TextureOptions, b: TextureOptions)
    requires
        options_number(a) == options_number(b),
    ensures
        a == b,
{
}

/// A texture: its image, its size and how it is sampled.
#[derive(Debug, Clone, Copy, PartialEq, Eq)]
pub struct TextureEntry {
    pub image: u64,
    pub width: u32,
    pub height: u32,
    pub options: TextureOptions,
}

/// New pixels for a texture or a part of it.
#[derive(Debug, Clone, Copy, PartialEq, Eq)]
pub struct ImageDelta {
    pub texture: u64,
    pub width: u32,
    pub height: u32,
    /// Where in the texture the pixels go.
    pub pos: Option<(u32, u32)>,
    pub options: TextureOptions,
}

/// What is done for new pixels.
#[derive(Debug, Clone, Copy, PartialEq, Eq)]
pub struct ImagePlan {
    /// The image that is made, where there is none of that size.
    pub create: Option<ImageInfo>,
    /// The sampler that is made, with the image, where there is none alike.
    pub sampler: Option<SamplerInfo>,
    /// The size of the pixels in bytes.
    pub size: u32,
    /// Where in the image the pixels are copied to.
    pub x: i32,
    pub y: i32,
}

/// Textures and samplers of the user interface.
pub struct EguiResources {
    pub textures: BTreeMap<u64, TextureEntry>,
    /// By the numbers of the options.
    pub samplers: HashMap<u64, u64>,
}

impl EguiResources {
    /// Every texture has a sampler.
    pub open spec fn wf(&self) -> bool {
        forall|id: u64| #[trigger]
            self.textures@.contains_key(id) ==> self.samplers@.contains_key(
                options_number(self.textures@[id].options),
            )
    }

    /// There is a texture of that number and size.
    pub open spec fn has_image(&self, delta: ImageDelta) -> bool {
        self.textures@.contains_key(delta.texture) && self.textures@[delta.texture].width
            == delta.width && self.textures@[delta.texture].height == delta.height
    }

    /// No textures.
    pub fn new() -> (r: Self)
        ensures
            r.wf(),
            r.textures@ == Map::<u64, TextureEntry>::empty(),
            r.samplers@ == Map::<u64, u64>::empty(),
    {
        EguiResources { textures: BTreeMap::new(), samplers: HashMap::new() }
    }

    /// What is done for new pixels.
    pub fn prepare_image(&self, delta: &ImageDelta) -> (r: ImagePlan)
        requires
            4 * delta.width * delta.height <= u32::MAX,
            delta.pos matches Some((x, y)) ==> x <= i32::MAX && y <= i32::MAX,
        ensures
            r.create == (if self.has_image(*delta) {
                None
            } else {
                Some(
                    loader::flat_texture(
                        vk::FORMAT_R8G8B8A8_UNORM,
                        delta.width,
                        delta.height,
                        1,
                        vk::IMAGE_USAGE_SAMPLED | vk::IMAGE_USAGE_TRANSFER_DST,
                    ),
                )
            }),
            r.sampler == (if self.has_image(*delta) || self.samplers@.contains_key(
                options_number(delta.options),
            ) {
                None
            } else {
                Some(sampler_of(delta.options))
            }),
            r.size == 4 * delta.width * delta.height,
            delta.pos matches Some((x, y)) ==> r.x == x && r.y == y,
            delta.pos is None ==> r.x == 0 && r.y == 0,
    {
        let exists_already = match self.textures.get(&delta.texture) {
            Some(entry) => entry.width == delta.width && entry.height == delta.height,
            None => false,
        };
        let mut create: Option<ImageInfo> = None;
        let mut sampler: Option<SamplerInfo> = None;
        if !exists_already {
            create = Some(
                ImageInfo {
                    image_type: vk::IMAGE_TYPE_TYPE_2D,
                    format: vk::FORMAT_R8G8B8A8_UNORM,
                    width: delta.width,
                    height: delta.height,
                    depth: 1,
                    mip_levels: 1,
                    array_layers: 1,
                    tiling: vk::IMAGE_TILING_OPTIMAL,
                    usage: vk::IMAGE_USAGE_SAMPLED | vk::IMAGE_USAGE_TRANSFER_DST,
                },
            );
            if !self.samplers.contains_key(&number_of(&delta.options)) {
                sampler = Some(sampler_info(&delta.options));
            }
        }
        let (x, y): (i32, i32) = match delta.pos {
            Some((x, y)) => (x as i32, y as i32),
            None => (0, 0),
        };
        assert(4 * delta.width <= u32::MAX || delta.height == 0) by (nonlinear_arith)
            requires
                4 * delta.width * delta.height <= u32::MAX,
        ;
        assert(delta.height == 0 ==> 4 * delta.width * delta.height == 0) by (nonlinear_arith);
        let size: u32 = if delta.height == 0 {
            0
        } else {
            4 * delta.width * delta.height
        };
        ImagePlan { create, sampler, size, x, y }
    }

    /// Notes an image that was made for new pixels, and the sampler that was
    /// made with it.
    pub fn note_image(&mut self, delta: &ImageDelta, image: u64, sampler: Option<u64>)
        requires
            old(self).wf(),
            sampler is Some || old(self).samplers@.contains_key(options_number(delta.options)),
        ensures
            final(self).wf(),
            final(self).textures@ == old(self).textures@.insert(
                delta.texture,
                TextureEntry {
                    image,
                    width: delta.width,
                    height: delta.height,
                    options: delta.options,
                },
            ),
            final(self).samplers@ == (match sampler {
                Some(s) => old(self).samplers@.insert(options_number(delta.options), s),
                None => old(self).samplers@,
            }),
    {
        if let Some(s) = sampler {
            self.samplers.insert(number_of(&delta.options), s);
        }
        self.textures.insert(
            delta.texture,
            TextureEntry {
                image,
                width: delta.width,
                height: delta.height,
                options: delta.options,
            },
        );
    }
}

/// An image is used again only for pixels of its own texture and size.
pub proof fn law_images_are_used_again_for_their_size(r: EguiResources, delta: ImageDelta)
    ensures
        r.has_image(delta) <==> r.textures@.contains_key(delta.texture) && r.textures@[
            delta.texture
        ].width == delta.width && r.textures@[delta.texture].height == delta.height,
{
}

/// The layouts of an image that gets new pixels.
#[derive(Debug, Clone, Copy, PartialEq, Eq)]
pub struct ImageLayouts {
    /// Before the copy.
    pub before: ImageTransition,
    /// During the copy.
    pub copy: i32,
    /// After the copy.
    pub after: ImageTransition,
}

impl ImagePlan {
    /// The layouts of the image. One that is made has none; one that is there
    /// has been read by shaders, and is again after the copy.
    pub fn layouts(&self) -> (r: ImageLayouts)
        ensures
            r.before == (ImageTransition {
                from: if self.create is Some {
                    Access::Unused
                } else {
                    Access::FragmentSampledRead
                },
                old_layout: if self.create is Some {
                    vk::IMAGE_LAYOUT_UNDEFINED
                } else {
                    vk::IMAGE_LAYOUT_SHADER_READ_ONLY_OPTIMAL
                },
                to: Access::CopyWrite,
                new_layout: vk::IMAGE_LAYOUT_TRANSFER_DST_OPTIMAL,
                discard: true,
            }),
            r.copy == vk::IMAGE_LAYOUT_TRANSFER_DST_OPTIMAL,
            r.after == (ImageTransition {
                from: Access::CopyWrite,
                old_layout: vk::IMAGE_LAYOUT_TRANSFER_DST_OPTIMAL,
                to: Access::CopyWrite,
                new_layout: vk::IMAGE_LAYOUT_SHADER_READ_ONLY_OPTIMAL,
                discard: false,
            }),
    {
        let (from, old_layout): (Access, i32) = if self.create.is_some() {
            (Access::Unused, vk::IMAGE_LAYOUT_UNDEFINED)
        } else {
            (Access::FragmentSampledRead, vk::IMAGE_LAYOUT_SHADER_READ_ONLY_OPTIMAL)
        };
        ImageLayouts {
            before: ImageTransition {
                from,
                old_layout,
                to: Access::CopyWrite,
                new_layout: vk::IMAGE_LAYOUT_TRANSFER_DST_OPTIMAL,
                discard: true,
            },
            copy: vk::IMAGE_LAYOUT_TRANSFER_DST_OPTIMAL,
            after: ImageTransition {
                from: Access::CopyWrite,
                old_layout: vk::IMAGE_LAYOUT_TRANSFER_DST_OPTIMAL,
                to: Access::CopyWrite,
                new_layout: vk::IMAGE_LAYOUT_SHADER_READ_ONLY_OPTIMAL,
                discard: false,
            },
        }
    }
}

// ---------------------------------------------------------------------------
// Draws
// ---------------------------------------------------------------------------

/// A draw: where it is cut off, what it samples, and which indices it takes.
#[derive(Debug, Clone, Copy, PartialEq, Eq)]
pub struct DrawCall {
    pub scissor: Rect2D,
    pub descriptor: DescriptorWrite,
    pub indices: IndexRange,
    pub vertex_offset: i32,
}

/// Every job is a mesh whose texture is there.
pub open spec fn drawable(resources: EguiResources, jobs: Seq<PaintJob>) -> bool {
    forall|i: int|
        0 <= i < jobs.len() ==> (#[trigger] jobs[i]) is Mesh && resources.textures@.contains_key(
            jobs[i]->Mesh_0.texture,
        )
}

/// The draw of a job: its indices and vertices are behind those of the jobs
/// before it.
pub open spec fn is_draw(
    resources: EguiResources,
    jobs: Seq<PaintJob>,
    i: int,
    draw: DrawCall,
) -> bool {
    let mesh = jobs[i]->Mesh_0;
    let entry = resources.textures@[mesh.texture];
    &&& draw.scissor == mesh.clip
    &&& draw.descriptor == DescriptorWrite {
        binding: 0,
        descriptor_type: vk::DESCRIPTOR_TYPE_COMBINED_IMAGE_SAMPLER,
        image_view: entry.image,
        image_layout: vk::IMAGE_LAYOUT_SHADER_READ_ONLY_OPTIMAL,
        sampler: resources.samplers@[options_number(entry.options)],
    }
    &&& draw.indices.start == all_indices(jobs.take(i)).len()
    &&& draw.indices.end == all_indices(jobs.take(i)).len() + mesh.indices@.len()
    &&& draw.vertex_offset == all_vertices(jobs.take(i)).len() as u32 as i32
}

/// The draws of the user interface.
pub fn draw(resources: &EguiResources, jobs: &Vec<PaintJob>) -> (r: Vec<DrawCall>)
    requires
        resources.wf(),
        drawable(*resources, jobs@),
        all_indices(jobs@).len() <= u32::MAX,
        all_vertices(jobs@).len() <= u32::MAX,
    ensures
        r@.len() == jobs@.len(),
        forall|i: int|
            0 <= i < jobs@.len() ==> is_draw(*resources, jobs@, i, #[trigger] r@[i]),
{
    let mut draws: Vec<DrawCall> = Vec::new();
    let mut current_vertex: u32 = 0;
    let mut current_indice: u32 = 0;
    let mut i: usize = 0;
    while i < jobs.len()
        invariant
            i <= jobs@.len(),
            resources.wf(),
            drawable(*resources, jobs@),
            all_indices(jobs@).len() <= u32::MAX,
            all_vertices(jobs@).len() <= u32::MAX,
            current_indice == all_indices(jobs@.take(i as int)).len(),
            current_vertex == all_vertices(jobs@.take(i as int)).len(),
            draws@.len() == i,
            forall|j: int|
                0 <= j < i ==> is_draw(*resources, jobs@, j, #[trigger] draws@[j]),
        decreases jobs@.len() - i,
    {
        assert(jobs@.take(i + 1).drop_last() =~= jobs@.take(i as int));
        proof {
            lemma_growing(jobs@, i + 1);
            assert(jobs@[i as int] is Mesh);
        }
        let mesh = match &jobs[i] {
            PaintJob::Mesh(mesh) => mesh,
            PaintJob::Callback => vstd::pervasive::unreached(),
        };
        assert(resources.textures@.contains_key(mesh.texture));
        let entry = resources.textures.get(&mesh.texture).unwrap();
        let sampler: u64 = *resources.samplers.get(&number_of(&entry.options)).unwrap();
        let indices: u32 = mesh.indices.len() as u32;
        let vertices: u32 = mesh.vertices.len() as u32;
        draws.push(
            DrawCall {
                scissor: mesh.clip,
                descriptor: DescriptorWrite {
                    binding: 0,
                    descriptor_type: vk::DESCRIPTOR_TYPE_COMBINED_IMAGE_SAMPLER,
                    image_view: entry.image,
                    image_layout: vk::IMAGE_LAYOUT_SHADER_READ_ONLY_OPTIMAL,
                    sampler,
                },
                indices: IndexRange { start: current_indice, end: indices + current_indice },
                vertex_offset: current_vertex as i32,
            },
        );
        current_vertex = current_vertex + vertices;
        current_indice = current_indice + indices;
        i += 1;
    }
    draws
}

/// Fewer jobs have no more indices and vertices.
proof fn lemma_growing(jobs: Seq<PaintJob>, k: int)
    requires
        0 <= k <= jobs.len(),
    ensures
        all_indices(jobs.take(k)).len() <= all_indices(jobs).len(),
        all_vertices(jobs.take(k)).len() <= all_vertices(jobs).len(),
    decreases jobs.len(),
{
    if k < jobs.len() {
        lemma_growing(jobs.drop_last(), k);
        assert(jobs.drop_last().take(k) =~= jobs.take(k));
    } else {
        assert(jobs.take(k) =~= jobs);
    }
}

/// A draw takes exactly the indices of its mesh from the index buffer.
pub proof fn law_draws_take_their_indices(
    resources: EguiResources,
    jobs: Seq<PaintJob>,
    i: int,
    draw: DrawCall,
)
    requires
        drawable(resources, jobs),
        0 <= i < jobs.len(),
        is_draw(resources, jobs, i, draw),
    ensures
        draw.indices.start <= draw.indices.end <= all_indices(jobs).len(),
        all_indices(jobs).subrange(draw.indices.start as int, draw.indices.end as int)
            == job_indices(jobs[i]),
    decreases jobs.len(),
{
    let last = jobs.len() - 1;
    assert(jobs[i] is Mesh);
    if i == last {
        assert(jobs.take(i) =~= jobs.drop_last());
        assert(all_indices(jobs).subrange(draw.indices.start as int, draw.indices.end as int)
            =~= job_indices(jobs[i]));
    } else {
        let shorter = jobs.drop_last();
        assert(shorter.take(i) =~= jobs.take(i));
        assert(shorter[i] == jobs[i]);
        assert forall|j: int| 0 <= j < shorter.len() implies (#[trigger] shorter[j]) is Mesh
            && resources.textures@.contains_key(shorter[j]->Mesh_0.texture) by {
            assert(shorter[j] == jobs[j]);
        }
        law_draws_take_their_indices(resources, shorter, i, draw);
        assert(all_indices(jobs).subrange(draw.indices.start as int, draw.indices.end as int)
            =~= all_indices(shorter).subrange(
            draw.indices.start as int,
            draw.indices.end as int,
        ));
    }
}

/// A draw reads exactly the vertices of its mesh: index `v` of the mesh finds,
/// from the draw's vertex offset on, vertex `v` of the mesh.
pub proof fn law_draws_find_their_vertices(
    resources: EguiResources,
    jobs: Seq<PaintJob>,
    i: int,
    draw: DrawCall,
    v: int,
)
    requires
        drawable(resources, jobs),
        0 <= i < jobs.len(),
        is_draw(resources, jobs, i, draw),
        all_vertices(jobs).len() <= i32::MAX,
        0 <= v < jobs[i]->Mesh_0.vertices@.len(),
    ensures
        0 <= draw.vertex_offset,
        draw.vertex_offset + v < all_vertices(jobs).len(),
        all_vertices(jobs)[draw.vertex_offset + v] == jobs[i]->Mesh_0.vertices@[v],
{
    assert(jobs[i] is Mesh);
    lemma_growing(jobs, i);
    lemma_vertex_place(jobs, i, v);
    let n = all_vertices(jobs.take(i)).len();
    assert(n as u32 as i32 == n);
}

proof fn lemma_vertex_place(jobs: Seq<PaintJob>, i: int, v: int)
    requires
        0 <= i < jobs.len(),
        0 <= v < job_vertices(jobs[i]).len(),
    ensures
        all_vertices(jobs.take(i)).len() + v < all_vertices(jobs).len(),
        all_vertices(jobs)[all_vertices(jobs.take(i)).len() + v] == job_vertices(jobs[i])[v],
    decreases jobs.len(),
{
    let init = jobs.drop_last();
    if i == jobs.len() - 1 {
        assert(init =~= jobs.take(i));
    } else {
        lemma_vertex_place(init, i, v);
        assert(init.take(i) =~= jobs.take(i));
    }
}

/// A draw is cut off where its mesh is, and samples the image of the mesh's
/// texture with a sampler for the texture's options.
pub proof fn law_draws_show_their_textures(
    resources: EguiResources,
    jobs: Seq<PaintJob>,
    i: int,
    draw: DrawCall,
)
    requires
        drawable(resources, jobs),
        0 <= i < jobs.len(),
        is_draw(resources, jobs, i, draw),
    ensures
        jobs[i] is Mesh,
        resources.textures@.contains_key(jobs[i]->Mesh_0.texture),
        draw.scissor == jobs[i]->Mesh_0.clip,
        draw.descriptor.image_view == resources.textures@[jobs[i]->Mesh_0.texture].image,
        draw.descriptor.sampler == resources.samplers@[options_number(
            resources.textures@[jobs[i]->Mesh_0.texture].options,
        )],
        draw.descriptor.binding == 0,
        draw.descriptor.descriptor_type == vk::DESCRIPTOR_TYPE_COMBINED_IMAGE_SAMPLER,
        draw.descriptor.image_layout == vk::IMAGE_LAYOUT_SHADER_READ_ONLY_OPTIMAL,
        draw.indices.end - draw.indices.start == jobs[i]->Mesh_0.indices@.len(),
{
}

/// The first draw takes the first indices and vertices. Meshes add their own, and
/// what the application draws itself adds none.
pub proof fn law_buffers_hold_the_meshes(jobs: Seq<PaintJob>, mesh: Mesh)
    ensures
        all_indices(Seq::empty()) == Seq::<u32>::empty(),
        all_vertices(Seq::empty()) == Seq::<Vertex>::empty(),
        all_indices(jobs.push(PaintJob::Mesh(mesh))) == all_indices(jobs) + mesh.indices@,
        all_vertices(jobs.push(PaintJob::Mesh(mesh))) == all_vertices(jobs) + mesh.vertices@,
        all_indices(jobs.push(PaintJob::Callback)) == all_indices(jobs),
        all_vertices(jobs.push(PaintJob::Callback)) == all_vertices(jobs),
{
    assert(jobs.push(PaintJob::Mesh(mesh)).drop_last() =~= jobs);
    assert(jobs.push(PaintJob::Callback).drop_last() =~= jobs);
    assert(all_indices(jobs.push(PaintJob::Callback)) =~= all_indices(jobs));
    assert(all_vertices(jobs.push(PaintJob::Callback)) =~= all_vertices(jobs));
}

// ---------------------------------------------------------------------------
// Recording
// ---------------------------------------------------------------------------

/// What the draws of the user interface share. The size of the screen, in
/// points, is given by the bit patterns of floats.
#[derive(Debug, Clone, Copy)]
pub struct DrawSetup {
    pub pipeline: u64,
    pub layout: u64,
    pub vertex_buffer: BufferRegion,
    pub index_buffer: BufferRegion,
    pub viewport: Viewport,
    pub width: u32,
    pub height: u32,
}

/// How many commands come before the draws.
pub const SETUP_COMMANDS: usize = 5;

/// How many commands a draw takes.
pub const DRAW_COMMANDS: usize = 3;

/// The commands from `at` on bind what the draws share. Sizes of buffers are
/// passed along on devices from version 1.3 on.
pub open spec fn is_setup(
    commands: Seq<Command>,
    at: int,
    setup: DrawSetup,
    api_version: Version,
) -> bool {
    &&& commands[at] == Command::BindPipeline(setup.pipeline)
    &&& commands[at + 1] matches Command::BindVertexBuffers {
        first_binding,
        handles,
        offsets,
        sizes,
    } && {
        &&& first_binding == 0
        &&& handles@ == seq![setup.vertex_buffer.buffer]
        &&& offsets@ == seq![setup.vertex_buffer.offset]
        &&& sizes is Some <==> api_version.0 >= version::packed(0, 1, 3, 0)
        &&& sizes matches Some(s) ==> s@ == seq![setup.vertex_buffer.size]
    }
    &&& commands[at + 2] == Command::BindIndexBuffer {
        buffer: setup.index_buffer.buffer,
        offset: setup.index_buffer.offset,
        index_type: vk::INDEX_TYPE_UINT32,
    }
    &&& commands[at + 3] matches Command::SetViewport { first, viewports } && first == 0
        && viewports@ == seq![setup.viewport]
    &&& commands[at + 4] matches Command::PushConstants { layout, stages, offset, words } && {
        &&& layout == setup.layout
        &&& stages == vk::SHADER_STAGE_VERTEX
        &&& offset == 0
        &&& words@ == seq![setup.width, setup.height]
    }
}

/// The commands from `at` on make a draw.
pub open spec fn is_recorded_draw(
    commands: Seq<Command>,
    at: int,
    layout: u64,
    call: DrawCall,
) -> bool {
    &&& commands[at] matches Command::SetScissor { first, scissors } && first == 0 && scissors@
        == seq![call.scissor]
    &&& commands[at + 1] matches Command::PushDescriptorSet { layout: l, set, writes } && l
        == layout && set == 0 && writes@ == seq![call.descriptor]
    &&& commands[at + 2] == command::draw_indexed_command(
        call.indices,
        IndexRange { start: 0, end: 1 },
        call.vertex_offset,
    )
}

/// The place of the commands of a draw behind `start` commands.
pub open spec fn draw_place(start: int, i: int) -> int {
    start + SETUP_COMMANDS + DRAW_COMMANDS * i
}

/// Before anything is drawn, the pipeline, the buffers of vertices and indices and
/// the viewport are bound as they are set up, and the size of the screen is passed
/// to the vertex shader.
pub proof fn law_draws_share_their_setup(
    commands: Seq<Command>,
    at: int,
    setup: DrawSetup,
    api_version: Version,
)
    requires
        is_setup(commands, at, setup, api_version),
    ensures
        commands[at] == Command::BindPipeline(setup.pipeline),
        commands[at + 1] matches Command::BindVertexBuffers { handles, offsets, .. } && handles@[0]
            == setup.vertex_buffer.buffer && offsets@[0] == setup.vertex_buffer.offset,
        commands[at + 1]->first_binding == 0,
        commands[at + 1]->sizes is Some <==> api_version.0 >= 0x40_3000,
        commands[at + 1]->sizes is Some ==> commands[at + 1]->sizes->0@[0]
            == setup.vertex_buffer.size,
        commands[at + 2] matches Command::BindIndexBuffer { buffer, offset, index_type } && buffer
            == setup.index_buffer.buffer && offset == setup.index_buffer.offset && index_type
            == vk::INDEX_TYPE_UINT32,
        commands[at + 3] matches Command::SetViewport { first, viewports } && first == 0
            && viewports@.len() == 1 && viewports@[0] == setup.viewport,
        commands[at + 4] matches Command::PushConstants { layout, stages, offset, words } && layout
            == setup.layout && stages == vk::SHADER_STAGE_VERTEX && offset == 0 && words@.len() == 2
            && words@[0] == setup.width && words@[1] == setup.height,
{
    version::law_variants_are_kept_apart(0, 1, 3, 0);
}

/// Each draw first sets where it is cut off and what it samples, and then draws
/// its indices, once.
pub proof fn law_draws_are_recorded_in_order(
    commands: Seq<Command>,
    at: int,
    layout: u64,
    call: DrawCall,
)
    requires
        is_recorded_draw(commands, at, layout, call),
        call.indices.start <= call.indices.end,
    ensures
        commands[at] matches Command::SetScissor { first, scissors } && first == 0
            && scissors@.len() == 1 && scissors@[0] == call.scissor,
        commands[at + 1] matches Command::PushDescriptorSet { layout: l, set, writes } && l
            == layout && set == 0 && writes@.len() == 1 && writes@[0] == call.descriptor,
        commands[at + 2] matches Command::DrawIndexed {
            index_count,
            instance_count,
            first_index,
            vertex_offset,
            first_instance,
        } && index_count == call.indices.end - call.indices.start && first_index
            == call.indices.start && instance_count == 1 && first_instance == 0 && vertex_offset
            == call.vertex_offset,
{
}

/// The commands of a draw follow those of the draw before it, and those of the
/// first the setup.
pub proof fn law_draws_follow_each_other(start: int, i: int)
    ensures
        draw_place(start, 0) == start + 5,
        draw_place(start, i + 1) == draw_place(start, i) + 3,
{
}

/// Records the draws of the user interface into a render pass.
pub fn record_draws(pass: &mut RenderPass<'_>, setup: &DrawSetup, calls: &Vec<DrawCall>)
    requires
        forall|i: int|
            0 <= i < calls@.len() ==> (#[trigger] calls@[i]).indices.start <= calls@[i].indices.end,
    ensures
        ({
            let before = old(pass).encoder.commands@;
            let after = final(pass).encoder.commands@;
            &&& after.len() == draw_place(before.len() as int, calls@.len() as int)
            &&& before.is_prefix_of(after)
            &&& is_setup(
                after,
                before.len() as int,
                *setup,
                old(pass).encoder.features.api_version,
            )
            &&& forall|i: int|
                0 <= i < calls@.len() ==> is_recorded_draw(
                    after,
                    draw_place(before.len() as int, i),
                    setup.layout,
                    #[trigger] calls@[i],
                )
        }),
        final(pass).encoder.state == old(pass).encoder.state,
        final(pass).encoder.features == old(pass).encoder.features,
        *final(final(pass).encoder) == *final(old(pass).encoder),
{
    let ghost before = pass.encoder.commands@;
    let ghost n = before.len() as int;
    pass.bind_pipeline(setup.pipeline);
    let mut buffers: Vec<BufferRegion> = Vec::new();
    buffers.push(setup.vertex_buffer);
    let ghost bound = pass.encoder.commands@;
    pass.bind_vertex_buffers(0, buffers.as_slice());
    proof {
        let handles = Seq::new(1, |i: int| buffers@[i].buffer);
        let offsets = Seq::new(1, |i: int| buffers@[i].offset);
        let sizes = Seq::new(1, |i: int| buffers@[i].size);
        assert(handles =~= seq![setup.vertex_buffer.buffer]);
        assert(offsets =~= seq![setup.vertex_buffer.offset]);
        assert(sizes =~= seq![setup.vertex_buffer.size]);
        assert(pass.encoder.commands@ =~= bound.push(pass.encoder.commands@.last()));
    }
    pass.bind_index_buffer(setup.index_buffer, 0, vk::INDEX_TYPE_UINT32);
    let mut viewports: Vec<Viewport> = Vec::new();
    viewports.push(setup.viewport);
    assert(viewports@ =~= seq![setup.viewport]);
    pass.set_viewport(0, viewports);
    let mut words: Vec<u32> = Vec::new();
    words.push(setup.width);
    words.push(setup.height);
    assert(words@ =~= seq![setup.width, setup.height]);
    pass.push_constants(setup.layout, vk::SHADER_STAGE_VERTEX, 0, words);
    let mut i: usize = 0;
    while i < calls.len()
        invariant
            i <= calls@.len(),
            n == before.len(),
            pass.encoder.commands@.len() == draw_place(n, i as int),
            before.is_prefix_of(pass.encoder.commands@),
            is_setup(
                pass.encoder.commands@,
                n,
                *setup,
                old(pass).encoder.features.api_version,
            ),
            forall|j: int|
                0 <= j < i ==> is_recorded_draw(
                    pass.encoder.commands@,
                    draw_place(n, j),
                    setup.layout,
                    #[trigger] calls@[j],
                ),
            forall|j: int|
                0 <= j < calls@.len() ==> (#[trigger] calls@[j]).indices.start
                    <= calls@[j].indices.end,
            pass.encoder.state == old(pass).encoder.state,
            pass.encoder.features == old(pass).encoder.features,
            *final(pass.encoder) == *final(old(pass).encoder),
        decreases calls@.len() - i,
    {
        let ghost earlier = pass.encoder.commands@;
        let call: DrawCall = calls[i];
        assert(call == calls@[i as int]);
        let mut scissors: Vec<Rect2D> = Vec::new();
        scissors.push(call.scissor);
        assert(scissors@ =~= seq![call.scissor]);
        pass.set_scissor(0, scissors);
        let mut writes: Vec<DescriptorWrite> = Vec::new();
        writes.push(call.descriptor);
        assert(writes@ =~= seq![call.descriptor]);
        pass.push_descriptor_set(setup.layout, 0, writes);
        pass.draw_indexed(call.indices, IndexRange { start: 0, end: 1 }, call.vertex_offset);
        proof {
            let now = pass.encoder.commands@;
            assert(forall|k: int| 0 <= k < earlier.len() ==> #[trigger] now[k] == earlier[k]);
            assert forall|j: int| 0 <= j < i implies is_recorded_draw(
                now,
                draw_place(n, j),
                setup.layout,
                #[trigger] calls@[j],
            ) by {
                assert(is_recorded_draw(earlier, draw_place(n, j), setup.layout, calls@[j]));
            }
            assert(is_recorded_draw(now, draw_place(n, i as int), setup.layout, call));
        }
        i += 1;
    }
}

} // verus!
