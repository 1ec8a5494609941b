//! The steps of loading a glTF scene, once its document has been read.

use vstd::prelude::*;

use crate::gltf_document::{
    AccessorInfo, ImageInfo, MaterialInfo, NodeInfo, NodeTransform, PrimitiveInfo, SamplerInfo,
    Semantic, TextureInfo, ViewInfo,
};
use crate::gltf_scene::{BufferGpuView, GltfError, GpuUsage, SceneData};
use crate::loader;
use crate::loader::{load_image, DecodedImage, ImageFormat, ImageLoadingError};
use crate::scene::{Attribute, Model, Primitive, PrimitiveKey, Scene};
use crate::text;
use crate::vk;

verus! {

// ---------------------------------------------------------------------------
// Images
// ---------------------------------------------------------------------------

/// Every image says where its data is: a buffer view of a known type, or a
/// URI.
pub open spec fn images_sourced(images: Seq<ImageInfo>) -> bool {
    forall|i: int|
        0 <= i < images.len() ==> image_sourced(#[trigger] images[i])
}

pub open spec fn image_sourced(image: ImageInfo) -> bool {
    if image.view is Some {
        image.mime_type is Some
    } else {
        image.uri is Some
    }
}

/// Some image lies in the buffer view.
pub open spec fn holds_image(images: Seq<ImageInfo>, view: int) -> bool {
    exists|i: int| 0 <= i < images.len() && (#[trigger] images[i]).view == Some(view as usize)
}

/// Which of `count` buffer views the CPU must read: those that hold an image.
pub fn cpu_views(images: &Vec<ImageInfo>, count: usize) -> (r: Vec<bool>)
    requires
        images_sourced(images@),
        forall|i: int|
            0 <= i < images@.len() && (#[trigger] images@[i]).view is Some
                ==> images@[i].view->0 < count,
    ensures
        r@.len() == count,
        forall|v: int| 0 <= v < count ==> #[trigger] r@[v] == holds_image(images@, v),
{
    let mut active: Vec<bool> = Vec::new();
    let mut n: usize = 0;
    while n < count
        invariant
            n <= count,
            active@ == Seq::new(n as nat, |i: int| false),
        decreases count - n,
    {
        active.push(false);
        n += 1;
        assert(active@ =~= Seq::new(n as nat, |i: int| false));
    }
    let mut i: usize = 0;
    assert(images@.take(0).len() == 0);
    while i < images.len()
        invariant
            i <= images@.len(),
            active@.len() == count,
            forall|i: int|
                0 <= i < images@.len() && (#[trigger] images@[i]).view is Some
                    ==> images@[i].view->0 < count,
            forall|v: int|
                0 <= v < count ==> #[trigger] active@[v] == (exists|k: int|
                    0 <= k < i && (#[trigger] images@[k]).view == Some(v as usize)),
        decreases images@.len() - i,
    {
        match images[i].view {
            Some(view) => {
                active.set(view, true);
                assert(images@[i as int].view == Some(view));
            },
            None => {},
        }
        i += 1;
    }
    active
}

/// How an image is used.
#[derive(Debug, Clone, Copy, PartialEq, Eq, Structural)]
pub struct TextureUse {
    pub is_srgb: bool,
    pub active: bool,
}

/// The image of a texture: the one that the DDS extension names, where it
/// exists.
pub open spec fn texture_image(t: TextureInfo, images: nat) -> int {
    match t.dds_source {
        Some(source) => if (source as usize) < images {
            source as usize as int
        } else {
            t.source as int
        },
        None => t.source as int,
    }
}

/// The image of a texture among `images` images.
pub fn dds_source(t: &TextureInfo, images: usize) -> (r: usize)
    ensures
        r == texture_image(*t, images as nat),
{
    match t.dds_source {
        Some(source) => {
            if (source as usize) < images {
                source as usize
            } else {
                t.source
            }
        },
        None => t.source,
    }
}

/// Some material takes its base color from the image.
pub open spec fn is_base_color(s: SceneData, image: int) -> bool {
    exists|m: int|
        0 <= m < s.materials@.len() && material_image(s, #[trigger] s.materials@[m]) == Some(image)
}

/// The image of a material's base color.
pub open spec fn material_image(s: SceneData, m: MaterialInfo) -> Option<int> {
    match m.base_color_texture {
        Some(t) => Some(texture_image(s.textures@[t as int], s.images@.len())),
        None => None,
    }
}

/// The image of a base color is that of the material's texture: the one that the
/// DDS extension names, where there is such an image, otherwise its own.
pub proof fn law_base_colors_have_their_images(s: SceneData, m: int)
    requires
        0 <= m < s.materials@.len(),
        s.materials@[m].base_color_texture is Some,
    ensures
        ({
            let t = s.textures@[s.materials@[m].base_color_texture->0 as int];
            &&& t.dds_source is None ==> is_base_color(s, t.source as int)
            &&& t.dds_source is Some && t.dds_source->0 < s.images@.len() && t.dds_source->0
                <= usize::MAX ==> is_base_color(s, t.dds_source->0 as int)
            &&& t.dds_source is Some && t.dds_source->0 <= usize::MAX && t.dds_source->0
                >= s.images@.len() ==> is_base_color(s, t.source as int)
        }),
{
    assert(material_image(s, s.materials@[m]) is Some);
}

/// An image that is in use is the image, or the DDS image, of the base color of
/// some material.
pub proof fn law_images_in_use_are_base_colors(s: SceneData, image: int)
    requires
        is_base_color(s, image),
    ensures
        exists|m: int|
            0 <= m < s.materials@.len() && (
            #[trigger] s.materials@[m]).base_color_texture is Some && {
                let t = s.textures@[s.materials@[m].base_color_texture->0 as int];
                t.source == image || (t.dds_source is Some && t.dds_source->0 as usize == image)
            },
{
    let m = choose|m: int|
        0 <= m < s.materials@.len() && material_image(s, #[trigger] s.materials@[m]) == Some(
            image,
        );
    assert(s.materials@[m].base_color_texture is Some);
}

/// An image lies in a view or at a place that its URI names; one that lies in a
/// view says of what type it is.
pub proof fn law_images_say_where_they_are(images: Seq<ImageInfo>, i: int)
    requires
        images_sourced(images),
        0 <= i < images.len(),
    ensures
        images[i].view is Some ==> images[i].mime_type is Some,
        images[i].view is None ==> images[i].uri is Some,
{
    assert(image_sourced(images[i]));
}

/// Which images are needed: those of base colors, which are in sRGB.
pub fn texture_uses(s: &SceneData) -> (r: Vec<TextureUse>)
    requires
        s.wf(),
    ensures
        r@.len() == s.images@.len(),
        forall|i: int|
            0 <= i < r@.len() ==> {
                &&& (#[trigger] r@[i]).active == is_base_color(*s, i)
                &&& r@[i].is_srgb == is_base_color(*s, i)
            },
{
    let mut uses: Vec<TextureUse> = Vec::new();
    let mut n: usize = 0;
    while n < s.images.len()
        invariant
            n <= s.images@.len(),
            uses@.len() == n,
            forall|i: int| 0 <= i < n ==> !(#[trigger] uses@[i]).active && !uses@[i].is_srgb,
        decreases s.images@.len() - n,
    {
        uses.push(TextureUse { is_srgb: false, active: false });
        n += 1;
    }
    let mut m: usize = 0;
    while m < s.materials.len()
        invariant
            m <= s.materials@.len(),
            s.wf(),
            uses@.len() == s.images@.len(),
            forall|i: int|
                0 <= i < uses@.len() ==> {
                    &&& (#[trigger] uses@[i]).active == (exists|k: int|
                        0 <= k < m && material_image(*s, #[trigger] s.materials@[k]) == Some(i))
                    &&& uses@[i].is_srgb == uses@[i].active
                },
        decreases s.materials@.len() - m,
    {
        match s.materials[m].base_color_texture {
            Some(t) => {
                assert(s.materials@[m as int].base_color_texture is Some);
                assert(crate::gltf_scene::texture_wf(
                    s.textures@[t as int],
                    s.images@.len(),
                    s.samplers@.len(),
                ));
                let image: usize = dds_source(&s.textures[t], s.images.len());
                uses.set(image, TextureUse { is_srgb: true, active: true });
                assert(material_image(*s, s.materials@[m as int]) == Some(image as int));
            },
            None => {
                assert(material_image(*s, s.materials@[m as int]) is None);
            },
        }
        m += 1;
    }
    uses
}

// ---------------------------------------------------------------------------
// Reading the buffers
// ---------------------------------------------------------------------------

/// View `k` is the last one of buffer `b` at its offset.
pub open spec fn is_last_at(views: Seq<ViewInfo>, b: int, k: int) -> bool {
    &&& 0 <= k < views.len()
    &&& views[k].buffer == b
    &&& forall|j: int|
        k < j < views.len() ==> !((#[trigger] views[j]).buffer == b && views[j].offset
            == views[k].offset)
}

/// The order in which the views of buffer `b` are read: by their offsets, and
/// of several at one offset only the last.
pub open spec fn is_read_order(order: Seq<usize>, views: Seq<ViewInfo>, b: int) -> bool {
    &&& forall|i: int| 0 <= i < order.len() ==> is_last_at(views, b, #[trigger] order[i] as int)
    &&& forall|i: int, j: int|
        0 <= i < j < order.len() ==> views[#[trigger] order[i] as int].offset
            < views[#[trigger] order[j] as int].offset
    &&& forall|k: int|
        0 <= k < views.len() && (#[trigger] views[k]).buffer == b ==> read_at(
            order,
            views,
            views[k].offset,
        )
}

pub open spec fn read_at(order: Seq<usize>, views: Seq<ViewInfo>, offset: u64) -> bool {
    exists|i: int| 0 <= i < order.len() && views[#[trigger] order[i] as int].offset == offset
}

pub open spec fn above(floor: Option<u64>, offset: u64) -> bool {
    match floor {
        Some(f) => offset > f,
        None => true,
    }
}

/// The last view of buffer `b` at the lowest offset above `floor`.
fn next_view(views: &Vec<ViewInfo>, b: usize, floor: Option<u64>) -> (r: Option<usize>)
    ensures
        r is None ==> forall|k: int|
            0 <= k < views@.len() && (#[trigger] views@[k]).buffer == b ==> !above(
                floor,
                views@[k].offset,
            ),
        r matches Some(n) ==> {
            &&& is_last_at(views@, b as int, n as int)
            &&& above(floor, views@[n as int].offset)
            &&& forall|k: int|
                0 <= k < views@.len() && (#[trigger] views@[k]).buffer == b && above(
                    floor,
                    views@[k].offset,
                ) ==> views@[n as int].offset <= views@[k].offset
        },
{
    let mut best: Option<usize> = None;
    let mut j: usize = 0;
    while j < views.len()
        invariant
            j <= views@.len(),
            best is None ==> forall|k: int|
                0 <= k < j && (#[trigger] views@[k]).buffer == b ==> !above(floor, views@[k].offset),
            best matches Some(n) ==> {
                &&& n < j
                &&& views@[n as int].buffer == b
                &&& above(floor, views@[n as int].offset)
                &&& forall|k: int|
                    n < k < j ==> !((#[trigger] views@[k]).buffer == b && views@[k].offset
                        == views@[n as int].offset)
                &&& forall|k: int|
                    0 <= k < j && (#[trigger] views@[k]).buffer == b && above(
                        floor,
                        views@[k].offset,
                    ) ==> views@[n as int].offset <= views@[k].offset
            },
        decreases views@.len() - j,
    {
        let v = views[j];
        let is_above = match floor {
            Some(f) => v.offset > f,
            None => true,
        };
        if v.buffer == b && is_above {
            match best {
                None => {
                    best = Some(j);
                },
                Some(n) => {
                    if v.offset <= views[n].offset {
                        best = Some(j);
                    }
                },
            }
        }
        j += 1;
    }
    best
}

/// The order in which the views of buffer `b` are read.
pub fn read_order(views: &Vec<ViewInfo>, b: usize) -> (order: Vec<usize>)
    ensures
        is_read_order(order@, views@, b as int),
{
    let mut order: Vec<usize> = Vec::new();
    let mut floor: Option<u64> = None;
    let ghost limit: int = u64::MAX as int;
    loop
        invariant
            limit == u64::MAX,
            forall|i: int|
                0 <= i < order@.len() ==> is_last_at(views@, b as int, #[trigger] order@[i] as int),
            forall|i: int, j: int|
                0 <= i < j < order@.len() ==> views@[#[trigger] order@[i] as int].offset
                    < views@[#[trigger] order@[j] as int].offset,
            forall|i: int|
                0 <= i < order@.len() ==> !above(floor, views@[#[trigger] order@[i] as int].offset),
            forall|k: int|
                0 <= k < views@.len() && (#[trigger] views@[k]).buffer == b ==> above(
                    floor,
                    views@[k].offset,
                ) || read_at(order@, views@, views@[k].offset),
        ensures
            is_read_order(order@, views@, b as int),
        decreases (match floor {
            Some(f) => limit - f,
            None => limit + 1,
        }),
    {
        match next_view(views, b, floor) {
            None => {
                break ;
            },
            Some(n) => {
                let ghost before = order@;
                order.push(n);
                proof {
                    assert(order@[before.len() as int] == n);
                    assert forall|k: int|
                        0 <= k < views@.len() && (
                        #[trigger] views@[k]).buffer == b implies views@[k].offset
                        > views@[n as int].offset || read_at(
                        order@,
                        views@,
                        views@[k].offset,
                    ) by {
                        if read_at(before, views@, views@[k].offset) {
                            let i = choose|i: int|
                                0 <= i < before.len() && views@[#[trigger] before[i] as int].offset
                                    == views@[k].offset;
                            assert(order@[i] == before[i]);
                        }
                    }
                }
                floor = Some(views[n].offset);
            },
        }
    }
    order
}

/// What is done with the bytes of a view.
#[derive(Debug, Clone, Copy, PartialEq, Eq, Structural)]
pub enum ReadAction {
    /// They are left where they are.
    Ignore,
    /// They are read into memory.
    ToCpu { length: u64 },
    /// They are read into an index buffer of `size` bytes; with `spread`, each
    /// byte becomes two.
    ToIndexBuffer { size: u128, alignment: u32, spread: bool },
    /// They are read into a vertex buffer.
    ToVertexBuffer { length: u64, alignment: u32 },
}

/// One step of reading a buffer.
#[derive(Debug, Clone, Copy, PartialEq, Eq, Structural)]
pub struct ReadStep {
    pub view: usize,
    /// How many bytes are skipped first.
    pub skip: u64,
    pub action: ReadAction,
}

/// The action for a view; `None` where CPU and GPU both need it.
pub open spec fn action_of(
    view: ViewInfo,
    gpu: BufferGpuView,
    active: bool,
    spread_u8: bool,
) -> Option<ReadAction> {
    match gpu.usage {
        GpuUsage::Unused => if active {
            Some(ReadAction::ToCpu { length: view.length })
        } else {
            Some(ReadAction::Ignore)
        },
        GpuUsage::IndexBuffer { ty } => if active {
            None
        } else {
            let spread = spread_u8 && ty == vk::INDEX_TYPE_UINT8_KHR;
            Some(
                ReadAction::ToIndexBuffer {
                    size: if spread {
                        (2 * view.length) as u128
                    } else {
                        view.length as u128
                    },
                    alignment: gpu.alignment,
                    spread,
                },
            )
        },
        GpuUsage::VertexBuffer => if active {
            None
        } else {
            Some(ReadAction::ToVertexBuffer { length: view.length, alignment: gpu.alignment })
        },
    }
}

/// Progress of reading a buffer: the steps, where the next view may begin, and
/// whether a view could not be read.
pub struct ReadState {
    pub steps: Seq<ReadStep>,
    pub head: int,
    pub failed: bool,
}

/// The progress after the first `n` views of `order`.
pub open spec fn read_state(
    views: Seq<ViewInfo>,
    gpu: Seq<BufferGpuView>,
    cpu: Seq<bool>,
    order: Seq<usize>,
    spread_u8: bool,
    n: nat,
) -> ReadState
    decreases n,
{
    if n == 0 {
        ReadState { steps: Seq::empty(), head: 0, failed: false }
    } else {
        let s = read_state(views, gpu, cpu, order, spread_u8, (n - 1) as nat);
        let k = order[n - 1] as int;
        let v = views[k];
        let action = action_of(v, gpu[k], cpu[k], spread_u8);
        if s.failed || v.offset < s.head || action is None {
            ReadState { failed: true, ..s }
        } else {
            ReadState {
                steps: s.steps.push(
                    ReadStep {
                        view: order[n - 1],
                        skip: (v.offset - s.head) as u64,
                        action: action->0,
                    },
                ),
                head: v.offset + v.length,
                failed: false,
            }
        }
    }
}

/// How to read a buffer: the steps up to the end or to the first view that
/// cannot be read, and whether there is such a view.
pub struct ReadPlan {
    pub steps: Vec<ReadStep>,
    pub overlapping: bool,
}

fn read_action(view: &ViewInfo, gpu: &BufferGpuView, active: bool, spread_u8: bool) -> (r: Option<
    ReadAction,
>)
    ensures
        r == action_of(*view, *gpu, active, spread_u8),
{
    match gpu.usage {
        GpuUsage::Unused => {
            if active {
                Some(ReadAction::ToCpu { length: view.length })
            } else {
                Some(ReadAction::Ignore)
            }
        },
        GpuUsage::IndexBuffer { ty } => {
            if active {
                None
            } else {
                let spread = spread_u8 && ty == vk::INDEX_TYPE_UINT8_KHR;
                let size: u128 = if spread {
                    2 * (view.length as u128)
                } else {
                    view.length as u128
                };
                Some(ReadAction::ToIndexBuffer { size, alignment: gpu.alignment, spread })
            }
        },
        GpuUsage::VertexBuffer => {
            if active {
                None
            } else {
                Some(ReadAction::ToVertexBuffer { length: view.length, alignment: gpu.alignment })
            }
        },
    }
}

/// Plans the reading of the views in `order`. Views may not overlap, and none
/// may be needed by CPU and GPU at once.
pub fn read_plan(
    views: &Vec<ViewInfo>,
    gpu: &Vec<BufferGpuView>,
    cpu: &Vec<bool>,
    order: &Vec<usize>,
    spread_u8: bool,
) -> (r: ReadPlan)
    requires
        gpu@.len() == views@.len(),
        cpu@.len() == views@.len(),
        forall|i: int| 0 <= i < order@.len() ==> #[trigger] order@[i] < views@.len(),
    ensures
        r.steps@ == read_state(views@, gpu@, cpu@, order@, spread_u8, order@.len()).steps,
        r.overlapping == read_state(views@, gpu@, cpu@, order@, spread_u8, order@.len()).failed,
{
    let mut steps: Vec<ReadStep> = Vec::new();
    let mut head: u128 = 0;
    let mut i: usize = 0;
    while i < order.len()
        invariant
            i <= order@.len(),
            gpu@.len() == views@.len(),
            cpu@.len() == views@.len(),
            forall|i: int| 0 <= i < order@.len() ==> #[trigger] order@[i] < views@.len(),
            steps@ == read_state(views@, gpu@, cpu@, order@, spread_u8, i as nat).steps,
            head == read_state(views@, gpu@, cpu@, order@, spread_u8, i as nat).head,
            !read_state(views@, gpu@, cpu@, order@, spread_u8, i as nat).failed,
        decreases order@.len() - i,
    {
        let k: usize = order[i];
        let v = views[k];
        let action = read_action(&v, &gpu[k], cpu[k], spread_u8);
        if (v.offset as u128) < head {
            proof {
                lemma_failed_reads_stay(views@, gpu@, cpu@, order@, spread_u8, (i + 1) as nat);
            }
            return ReadPlan { steps, overlapping: true };
        }
        match action {
            None => {
                proof {
                    lemma_failed_reads_stay(views@, gpu@, cpu@, order@, spread_u8, (i + 1) as nat);
                }
                return ReadPlan { steps, overlapping: true };
            },
            Some(action) => {
                steps.push(ReadStep { view: k, skip: v.offset - head as u64, action });
                head = v.offset as u128 + v.length as u128;
            },
        }
        i += 1;
    }
    ReadPlan { steps, overlapping: false }
}

proof fn lemma_failed_reads_stay(
    views: Seq<ViewInfo>,
    gpu: Seq<BufferGpuView>,
    cpu: Seq<bool>,
    order: Seq<usize>,
    spread_u8: bool,
    n: nat,
)
    requires
        n <= order.len(),
        read_state(views, gpu, cpu, order, spread_u8, n).failed,
    ensures
        read_state(views, gpu, cpu, order, spread_u8, order.len()).failed,
        read_state(views, gpu, cpu, order, spread_u8, order.len()).steps == read_state(
            views,
            gpu,
            cpu,
            order,
            spread_u8,
            n,
        ).steps,
    decreases order.len() - n,
{
    if n < order.len() {
        lemma_failed_reads_stay(views, gpu, cpu, order, spread_u8, n + 1);
    }
}

/// The bytes of a view go where they are needed: into memory where an image lies
/// in them, into a buffer of the device where indices or vertices do, and
/// nowhere where nothing needs them. A view that both need cannot be read. Only
/// indices of one byte are spread, to twice their size.
pub proof fn law_views_go_where_they_are_needed(
    view: ViewInfo,
    gpu: BufferGpuView,
    active: bool,
    spread_u8: bool,
)
    ensures
        ({
            let action = action_of(view, gpu, active, spread_u8);
            &&& action is None <==> active && !(gpu.usage is Unused)
            &&& gpu.usage is Unused && active ==> action == Some(
                ReadAction::ToCpu { length: view.length },
            )
            &&& gpu.usage is Unused && !active ==> action == Some(ReadAction::Ignore)
            &&& gpu.usage is VertexBuffer && !active ==> action == Some(
                ReadAction::ToVertexBuffer { length: view.length, alignment: gpu.alignment },
            )
            &&& gpu.usage is IndexBuffer && !active ==> {
                &&& action is Some && action->0 is ToIndexBuffer
                &&& action->0->ToIndexBuffer_alignment == gpu.alignment
                &&& action->0->spread <==> spread_u8 && gpu.usage->ty == vk::INDEX_TYPE_UINT8_KHR
                &&& action->0->spread ==> action->0->size == 2 * view.length
                &&& !action->0->spread ==> action->0->size == view.length
            }
        }),
{
}

/// A buffer is read to its end exactly where its views do not overlap and none
/// is needed on both sides; otherwise reading stops at the first view of which
/// that cannot be said.
pub proof fn law_overlapping_views_are_found(
    views: Seq<ViewInfo>,
    gpu: Seq<BufferGpuView>,
    cpu: Seq<bool>,
    order: Seq<usize>,
    spread_u8: bool,
)
    ensures
        !read_state(views, gpu, cpu, order, spread_u8, order.len()).failed <==> {
            &&& forall|i: int|
                0 <= i < order.len() ==> #[trigger] gpu[order[i] as int].usage is Unused
                    || !cpu[order[i] as int]
            &&& forall|i: int, j: int|
                0 <= i && j == i + 1 && j < order.len() ==> views[#[trigger] order[i] as int].offset
                    + views[order[i] as int].length <= views[#[trigger] order[j] as int].offset
        },
{
    lemma_read_to(views, gpu, cpu, order, spread_u8, order.len());
}

proof fn lemma_read_to(
    views: Seq<ViewInfo>,
    gpu: Seq<BufferGpuView>,
    cpu: Seq<bool>,
    order: Seq<usize>,
    spread_u8: bool,
    n: nat,
)
    requires
        n <= order.len(),
    ensures
        !read_state(views, gpu, cpu, order, spread_u8, n).failed ==> read_state(
            views,
            gpu,
            cpu,
            order,
            spread_u8,
            n,
        ).head == (if n == 0 {
            0
        } else {
            views[order[n - 1] as int].offset + views[order[n - 1] as int].length
        }),
        !read_state(views, gpu, cpu, order, spread_u8, n).failed <==> {
            &&& forall|i: int|
                0 <= i < n ==> #[trigger] gpu[order[i] as int].usage is Unused
                    || !cpu[order[i] as int]
            &&& forall|i: int, j: int|
                0 <= i && j == i + 1 && j < n ==> views[#[trigger] order[i] as int].offset
                    + views[order[i] as int].length <= views[#[trigger] order[j] as int].offset
        },
    decreases n,
{
    if n > 0 {
        let m = (n - 1) as nat;
        lemma_read_to(views, gpu, cpu, order, spread_u8, m);
        let k = order[n - 1] as int;
        assert(gpu[order[n - 1] as int] == gpu[k]);
        if m > 0 {
            let before = order[n - 2] as int;
            assert(views[before] == views[order[n - 2] as int]);
        }
        let now = read_state(views, gpu, cpu, order, spread_u8, n);
        let earlier = read_state(views, gpu, cpu, order, spread_u8, m);
        if !now.failed {
            assert(!earlier.failed);
        }
        if earlier.failed {
            assert(now.failed);
            if forall|i: int|
                0 <= i < m ==> #[trigger] gpu[order[i] as int].usage is Unused
                    || !cpu[order[i] as int] {
                let (i, j) = choose|i: int, j: int|
                    0 <= i && j == i + 1 && j < m && !(views[#[trigger] order[i] as int].offset
                        + views[order[i] as int].length <= views[#[trigger] order[j] as int].offset);
                assert(!(views[order[i] as int].offset + views[order[i] as int].length
                    <= views[order[j] as int].offset));
            } else {
                let i = choose|i: int|
                    0 <= i < m && !(#[trigger] gpu[order[i] as int].usage is Unused
                        || !cpu[order[i] as int]);
                assert(!(gpu[order[i] as int].usage is Unused || !cpu[order[i] as int]));
            }
        }
    }
}

/// How many bytes a step takes from the file.
pub open spec fn bytes_taken(step: ReadStep, views: Seq<ViewInfo>) -> int {
    step.skip + (if step.action is Ignore {
        0
    } else {
        views[step.view as int].length as int
    })
}

/// Position in the buffer after the first `n` steps.
pub open spec fn position(steps: Seq<ReadStep>, views: Seq<ViewInfo>, n: nat) -> int
    decreases n,
{
    if n == 0 {
        0
    } else {
        position(steps, views, (n - 1) as nat) + bytes_taken(steps[n - 1], views)
    }
}

/// The bytes of a view are read, if it has any.
pub open spec fn is_consumed(step: ReadStep, views: Seq<ViewInfo>) -> bool {
    step.action is Ignore ==> views[step.view as int].length == 0
}

/// A view is read from its own offset, where the views before it in the buffer
/// are needed.
pub proof fn law_views_are_read_at_their_offsets(
    views: Seq<ViewInfo>,
    gpu: Seq<BufferGpuView>,
    cpu: Seq<bool>,
    order: Seq<usize>,
    spread_u8: bool,
    i: int,
)
    requires
        !read_state(views, gpu, cpu, order, spread_u8, order.len()).failed,
        0 <= i < order.len(),
        forall|j: int|
            0 <= j < i ==> is_consumed(
                #[trigger] read_state(views, gpu, cpu, order, spread_u8, order.len()).steps[j],
                views,
            ),
    ensures
        ({
            let steps = read_state(views, gpu, cpu, order, spread_u8, order.len()).steps;
            &&& steps.len() == order.len()
            &&& steps[i].view == order[i]
            &&& position(steps, views, i as nat) + steps[i].skip == views[order[i] as int].offset
        }),
{
    let steps = read_state(views, gpu, cpu, order, spread_u8, order.len()).steps;
    lemma_read_positions(views, gpu, cpu, order, spread_u8, order.len());
    lemma_positions_are_heads(views, gpu, cpu, order, spread_u8, i as nat);
    lemma_read_positions(views, gpu, cpu, order, spread_u8, (i + 1) as nat);
    lemma_steps_prefix(views, gpu, cpu, order, spread_u8, (i + 1) as nat);
    assert(read_state(views, gpu, cpu, order, spread_u8, (i + 1) as nat).steps[i] == steps[i]);
}

proof fn lemma_read_positions(
    views: Seq<ViewInfo>,
    gpu: Seq<BufferGpuView>,
    cpu: Seq<bool>,
    order: Seq<usize>,
    spread_u8: bool,
    n: nat,
)
    requires
        n <= order.len(),
        !read_state(views, gpu, cpu, order, spread_u8, order.len()).failed,
    ensures
        !read_state(views, gpu, cpu, order, spread_u8, n).failed,
        read_state(views, gpu, cpu, order, spread_u8, n).steps.len() == n,
    decreases n,
{
    if read_state(views, gpu, cpu, order, spread_u8, n).failed {
        lemma_failed_reads_stay(views, gpu, cpu, order, spread_u8, n);
    }
    if n > 0 {
        lemma_read_positions(views, gpu, cpu, order, spread_u8, (n - 1) as nat);
    }
}

proof fn lemma_steps_prefix(
    views: Seq<ViewInfo>,
    gpu: Seq<BufferGpuView>,
    cpu: Seq<bool>,
    order: Seq<usize>,
    spread_u8: bool,
    n: nat,
)
    requires
        n <= order.len(),
        !read_state(views, gpu, cpu, order, spread_u8, order.len()).failed,
    ensures
        forall|j: int|
            0 <= j < n ==> #[trigger] read_state(
                views,
                gpu,
                cpu,
                order,
                spread_u8,
                order.len(),
            ).steps[j] == read_state(views, gpu, cpu, order, spread_u8, n).steps[j],
    decreases order.len() - n,
{
    if n < order.len() {
        lemma_steps_prefix(views, gpu, cpu, order, spread_u8, n + 1);
        lemma_read_positions(views, gpu, cpu, order, spread_u8, n);
        lemma_read_positions(views, gpu, cpu, order, spread_u8, n + 1);
    }
}

proof fn lemma_positions_are_heads(
    views: Seq<ViewInfo>,
    gpu: Seq<BufferGpuView>,
    cpu: Seq<bool>,
    order: Seq<usize>,
    spread_u8: bool,
    n: nat,
)
    requires
        n <= order.len(),
        !read_state(views, gpu, cpu, order, spread_u8, order.len()).failed,
        forall|j: int|
            0 <= j < n ==> is_consumed(
                #[trigger] read_state(views, gpu, cpu, order, spread_u8, order.len()).steps[j],
                views,
            ),
    ensures
        position(
            read_state(views, gpu, cpu, order, spread_u8, order.len()).steps,
            views,
            n,
        ) == read_state(views, gpu, cpu, order, spread_u8, n).head,
    decreases n,
{
    if n > 0 {
        let m = (n - 1) as nat;
        lemma_positions_are_heads(views, gpu, cpu, order, spread_u8, m);
        lemma_read_positions(views, gpu, cpu, order, spread_u8, m);
        lemma_read_positions(views, gpu, cpu, order, spread_u8, n);
        lemma_steps_prefix(views, gpu, cpu, order, spread_u8, n);
        let steps = read_state(views, gpu, cpu, order, spread_u8, order.len()).steps;
        assert(steps[m as int] == read_state(views, gpu, cpu, order, spread_u8, n).steps[m as int]);
        assert(is_consumed(steps[m as int], views));
    }
}

/// Widens one-byte indices to two bytes.
pub fn spread_indices(bytes: &[u8]) -> (r: Vec<u16>)
    ensures
        r@ == bytes@.map_values(|b: u8| b as u16),
{
    let mut out: Vec<u16> = Vec::new();
    let mut i: usize = 0;
    while i < bytes.len()
        invariant
            i <= bytes@.len(),
            out@ == bytes@.take(i as int).map_values(|b: u8| b as u16),
        decreases bytes@.len() - i,
    {
        out.push(bytes[i] as u16);
        i += 1;
        assert(out@ =~= bytes@.take(i as int).map_values(|b: u8| b as u16));
    }
    assert(bytes@.take(i as int) =~= bytes@);
    out
}

// ---------------------------------------------------------------------------
// The whole plan
// ---------------------------------------------------------------------------

/// What is loaded of a scene, and how its buffers are read.
pub struct LoadPlan {
    pub gpu: Vec<BufferGpuView>,
    pub cpu: Vec<bool>,
    pub textures: Vec<TextureUse>,
    /// One plan for each buffer.
    pub buffers: Vec<ReadPlan>,
}

/// The plan of buffer `b`, whose views are read in some order that
/// [`is_read_order`] describes. One-byte indices are spread.
pub open spec fn is_buffer_plan(
    plan: ReadPlan,
    s: SceneData,
    gpu: Seq<BufferGpuView>,
    cpu: Seq<bool>,
    b: int,
) -> bool {
    exists|order: Seq<usize>| #[trigger]
        is_read_order(order, s.views@, b) && plan.steps@ == read_state(
            s.views@,
            gpu,
            cpu,
            order,
            true,
            order.len(),
        ).steps && plan.overlapping == read_state(
            s.views@,
            gpu,
            cpu,
            order,
            true,
            order.len(),
        ).failed
}

pub open spec fn is_load_plan(plan: LoadPlan, s: SceneData) -> bool {
    &&& crate::gltf_scene::apply_uses(
        s.views@.len(),
        crate::gltf_scene::scene_uses(s, s.primitives@.len()),
    ) == Some(plan.gpu@)
    &&& plan.cpu@.len() == s.views@.len()
    &&& forall|v: int|
        0 <= v < plan.cpu@.len() ==> #[trigger] plan.cpu@[v] == holds_image(s.images@, v)
    &&& plan.textures@.len() == s.images@.len()
    &&& forall|i: int|
        0 <= i < plan.textures@.len() ==> (#[trigger] plan.textures@[i]).active == is_base_color(
            s,
            i,
        ) && plan.textures@[i].is_srgb == is_base_color(s, i)
    &&& plan.buffers@.len() == s.buffers@.len()
    &&& forall|b: int|
        0 <= b < plan.buffers@.len() ==> is_buffer_plan(
            #[trigger] plan.buffers@[b],
            s,
            plan.gpu@,
            plan.cpu@,
            b,
        )
}

/// At most one order of the views of a buffer is the read order.
pub proof fn law_views_have_one_read_order(
    a: Seq<usize>,
    b: Seq<usize>,
    views: Seq<ViewInfo>,
    buffer: int,
)
    requires
        is_read_order(a, views, buffer),
        is_read_order(b, views, buffer),
    ensures
        a == b,
{
    lemma_read_order_agrees(a, b, views, buffer, a.len());
    lemma_read_order_agrees(b, a, views, buffer, b.len());
    assert(a =~= b);
}

proof fn lemma_read_order_agrees(
    a: Seq<usize>,
    b: Seq<usize>,
    views: Seq<ViewInfo>,
    buffer: int,
    n: nat,
)
    requires
        is_read_order(a, views, buffer),
        is_read_order(b, views, buffer),
        n <= a.len(),
    ensures
        n <= b.len(),
        forall|i: int| 0 <= i < n ==> #[trigger] a[i] == b[i],
    decreases n,
{
    if n > 0 {
        lemma_read_order_agrees(a, b, views, buffer, (n - 1) as nat);
        let last = n - 1;
        let k = a[last] as int;
        assert(is_last_at(views, buffer, k));
        assert(views[k].buffer == buffer);
        assert(read_at(b, views, views[k].offset));
        let i = choose|i: int|
            0 <= i < b.len() && views[#[trigger] b[i] as int].offset == views[k].offset;
        assert(is_last_at(views, buffer, b[i] as int));
        assert(b[i] as int == k);
        if i < last {
            assert(a[i] == b[i]);
            assert(views[a[i] as int].offset < views[a[last] as int].offset);
        }
        if i > last {
            let m = b[last] as int;
            assert(is_last_at(views, buffer, m));
            assert(views[m].buffer == buffer);
            assert(read_at(a, views, views[m].offset));
            let j = choose|j: int|
                0 <= j < a.len() && views[#[trigger] a[j] as int].offset == views[m].offset;
            assert(views[b[last] as int].offset < views[b[i] as int].offset);
            if j < last {
                assert(a[j] == b[j]);
                assert(views[b[j] as int].offset < views[b[last] as int].offset);
            } else if j > last {
                assert(views[a[last] as int].offset < views[a[j] as int].offset);
            }
        }
    }
}

/// Plans the loading of a scene. Fails where buffer views are used in ways
/// that exclude each other; a view that cannot be read is left to the plan of
/// its buffer.
pub fn load_plan(s: &SceneData) -> (r: Result<LoadPlan, GltfError>)
    requires
        s.wf(),
        crate::gltf_scene::accessors_dense(*s),
        images_sourced(s.images@),
    ensures
        r is Ok <==> crate::gltf_scene::apply_uses(
            s.views@.len(),
            crate::gltf_scene::scene_uses(*s, s.primitives@.len()),
        ) is Some,
        r matches Err(e) ==> e is OverlappingBufferView,
        r matches Ok(plan) ==> is_load_plan(plan, *s),
{
    let cpu = cpu_views(&s.images, s.views.len());
    let uses = crate::gltf_scene::view_uses(s);
    let gpu = match crate::gltf_scene::gpu_views(s.views.len(), &uses) {
        Ok(v) => v,
        Err(e) => {
            return Err(e);
        },
    };
    proof {
        crate::gltf_scene::lemma_apply_uses_len(s.views@.len(), uses@);
    }
    let textures = texture_uses(s);
    let mut buffers: Vec<ReadPlan> = Vec::new();
    let mut b: usize = 0;
    while b < s.buffers.len()
        invariant
            b <= s.buffers@.len(),
            gpu@.len() == s.views@.len(),
            cpu@.len() == s.views@.len(),
            buffers@.len() == b,
            forall|i: int|
                0 <= i < b ==> is_buffer_plan(#[trigger] buffers@[i], *s, gpu@, cpu@, i),
        decreases s.buffers@.len() - b,
    {
        let order = read_order(&s.views, b);
        proof {
            assert forall|i: int| 0 <= i < order@.len() implies #[trigger] order@[i]
                < s.views@.len() by {
                assert(is_last_at(s.views@, b as int, order@[i] as int));
            }
        }
        let plan = read_plan(&s.views, &gpu, &cpu, &order, true);
        assert(is_buffer_plan(plan, *s, gpu@, cpu@, b as int));
        buffers.push(plan);
        b += 1;
    }
    Ok(LoadPlan { gpu, cpu, textures, buffers })
}

/// Whether every accessor that a primitive names has a buffer view.
pub fn has_dense_accessors(s: &SceneData) -> (r: bool)
    requires
        s.wf(),
    ensures
        r == crate::gltf_scene::accessors_dense(*s),
{
    let mut i: usize = 0;
    while i < s.primitives.len()
        invariant
            s.wf(),
            i <= s.primitives@.len(),
            forall|a: int, j: int|
                0 <= a < i && 0 <= j < s.primitives@[a]@.len() && (
                #[trigger] s.primitives@[a]@[j]).indices is Some
                    ==> s.accessors@[s.primitives@[a]@[j].indices->0 as int].view is Some,
            forall|a: int, j: int, k: int|
                0 <= a < i && 0 <= j < s.attributes@[a]@.len() && 0 <= k
                    < s.attributes@[a]@[j]@.len() ==> s.accessors@[(
                #[trigger] s.attributes@[a]@[j]@[k]).1 as int].view is Some,
        decreases s.primitives@.len() - i,
    {
        assert(s.attributes@[i as int]@.len() == s.primitives@[i as int]@.len());
        let mut j: usize = 0;
        while j < s.primitives[i].len()
            invariant
                s.wf(),
                i < s.primitives@.len(),
                j <= s.primitives@[i as int]@.len(),
                s.attributes@[i as int]@.len() == s.primitives@[i as int]@.len(),
                forall|b: int|
                    0 <= b < j && (#[trigger] s.primitives@[i as int]@[b]).indices is Some
                        ==> s.accessors@[s.primitives@[i as int]@[b].indices->0 as int].view is Some,
                forall|b: int, k: int|
                    0 <= b < j && 0 <= k < s.attributes@[i as int]@[b]@.len() ==> s.accessors@[(
                    #[trigger] s.attributes@[i as int]@[b]@[k]).1 as int].view is Some,
            decreases s.primitives@[i as int]@.len() - j,
        {
            let p = s.primitives[i][j];
            assert(p == s.primitives@[i as int]@[j as int]);
            assert(crate::gltf_scene::primitive_wf(p, s.accessors@.len(), s.materials@.len()));
            match p.indices {
                Some(a) => {
                    if s.accessors[a].view.is_none() {
                        return false;
                    }
                },
                None => {},
            }
            let attributes = &s.attributes[i][j];
            let mut k: usize = 0;
            while k < attributes.len()
                invariant
                    s.wf(),
                    i < s.primitives@.len(),
                    j < s.primitives@[i as int]@.len(),
                    s.attributes@[i as int]@.len() == s.primitives@[i as int]@.len(),
                    *attributes == s.attributes@[i as int]@[j as int],
                    k <= attributes@.len(),
                    forall|c: int|
                        0 <= c < k ==> s.accessors@[(
                        #[trigger] s.attributes@[i as int]@[j as int]@[c]).1 as int].view is Some,
                decreases attributes@.len() - k,
            {
                let index: usize = attributes[k].1;
                assert(s.attributes@[i as int]@[j as int]@[k as int].1 == index);
                if s.accessors[index].view.is_none() {
                    return false;
                }
                k += 1;
            }
            j += 1;
        }
        i += 1;
    }
    true
}

/// Whether every image says where its data is.
pub fn has_sourced_images(images: &Vec<ImageInfo>) -> (r: bool)
    ensures
        r == images_sourced(images@),
{
    let mut i: usize = 0;
    while i < images.len()
        invariant
            i <= images@.len(),
            forall|j: int| 0 <= j < i ==> image_sourced(#[trigger] images@[j]),
        decreases images@.len() - i,
    {
        let image = &images[i];
        let ok = if image.view.is_some() {
            image.mime_type.is_some()
        } else {
            image.uri.is_some()
        };
        if !ok {
            assert(!image_sourced(images@[i as int]));
            return false;
        }
        i += 1;
    }
    true
}

/// The format of an image in a buffer, by its MIME type.
pub open spec fn format_of_mime_type(mime_type: Seq<char>) -> Option<ImageFormat> {
    if mime_type == "image/jpeg"@ {
        Some(ImageFormat::Jpeg)
    } else if mime_type == "image/png"@ {
        Some(ImageFormat::Png)
    } else {
        None
    }
}

/// Images in buffers are JPEG or PNG files, by their MIME types.
pub proof fn law_mime_types_name_formats(mime_type: Seq<char>)
    ensures
        format_of_mime_type(mime_type) == Some(ImageFormat::Jpeg) <==> mime_type
            == "image/jpeg"@,
        format_of_mime_type(mime_type) == Some(ImageFormat::Png) <==> mime_type == "image/png"@,
        format_of_mime_type(mime_type) is Some ==> mime_type == "image/jpeg"@ || mime_type
            == "image/png"@,
{
    reveal_strlit("image/jpeg");
    reveal_strlit("image/png");
    assert("image/jpeg"@.len() == 10);
    assert("image/png"@.len() == 9);
}

/// What is done for an image.
pub enum ImageLoad {
    /// No texture uses it.
    Unused,
    /// It was read from a buffer.
    Inline(loader::ImageInfo, DecodedImage),
    /// It is loaded from the place that its URI names.
    Uri,
}

/// Loads an image that textures use. An image in a buffer is decoded; `views`
/// are the contents of the buffer views.
pub fn load_images(image: &ImageInfo, used: &TextureUse, views: &Vec<Vec<u8>>) -> (r: Result<
    ImageLoad,
    GltfError,
>)
    requires
        image_sourced(*image),
        image.view matches Some(v) ==> v < views@.len(),
    ensures
        !used.active ==> r matches Ok(ImageLoad::Unused),
        used.active && image.view is None ==> r matches Ok(ImageLoad::Uri),
        used.active && image.view is Some ==> match format_of_mime_type((image.mime_type->0)@) {
            None => r matches Err(GltfError::InvalidImageMimeType(m)) && m@ == (
            image.mime_type->0)@,
            Some(format) => match loader::image_header(
                format,
                views@[image.view->0 as int]@,
                usize::BITS,
            ) {
                None => r matches Err(GltfError::Image(_)),
                Some((color, width, height)) => match loader::format_of_color(
                    color,
                    used.is_srgb,
                ) {
                    None => r matches Err(GltfError::Vulkan(code)) && code
                        == vk::RESULT_ERROR_IMAGE_USAGE_NOT_SUPPORTED_KHR,
                    Some(f) => r matches Ok(ImageLoad::Inline(info, decoded)) && {
                        &&& info == loader::flat_texture(
                            f,
                            width,
                            height,
                            1,
                            vk::IMAGE_USAGE_SAMPLED,
                        )
                        &&& decoded.color == color
                        &&& decoded.width == width
                        &&& decoded.height == height
                        &&& loader::pixels_come_from(
                            decoded,
                            Some(format),
                            views@[image.view->0 as int]@,
                        )
                    },
                },
            },
        },
{
    if !used.active {
        return Ok(ImageLoad::Unused);
    }
    let view: usize = match image.view {
        Some(view) => view,
        None => {
            return Ok(ImageLoad::Uri);
        },
    };
    let mime_type: &str = match &image.mime_type {
        Some(m) => m.as_str(),
        None => vstd::pervasive::unreached(),
    };
    let format: ImageFormat = if text::str_eq(mime_type, "image/jpeg") {
        ImageFormat::Jpeg
    } else if text::str_eq(mime_type, "image/png") {
        ImageFormat::Png
    } else {
        return Err(GltfError::InvalidImageMimeType(mime_type.to_owned()));
    };
    match load_image(
        Some(format),
        views[view].as_slice(),
        used.is_srgb,
        vk::IMAGE_USAGE_SAMPLED,
    ) {
        Ok((info, decoded)) => Ok(ImageLoad::Inline(info, decoded)),
        Err(ImageLoadingError::ImageError(e)) => Err(GltfError::Image(e)),
        Err(_) => Err(GltfError::Vulkan(vk::RESULT_ERROR_IMAGE_USAGE_NOT_SUPPORTED_KHR)),
    }
}

// ---------------------------------------------------------------------------
// Samplers and materials
// ---------------------------------------------------------------------------

pub const GL_NEAREST: u32 = 9728;

pub const GL_LINEAR: u32 = 9729;

pub const GL_NEAREST_MIPMAP_NEAREST: u32 = 9984;

pub const GL_LINEAR_MIPMAP_NEAREST: u32 = 9985;

pub const GL_NEAREST_MIPMAP_LINEAR: u32 = 9986;

pub const GL_LINEAR_MIPMAP_LINEAR: u32 = 9987;

pub const GL_CLAMP_TO_EDGE: u32 = 33071;

pub const GL_MIRRORED_REPEAT: u32 = 33648;

pub const GL_REPEAT: u32 = 10497;

/// How a texture is sampled.
#[derive(Debug, Clone, Copy, PartialEq, Eq, Structural)]
pub struct SamplerConfig {
    pub mag_filter: i32,
    pub min_filter: i32,
    pub mipmap_mode: i32,
    pub address_mode_u: i32,
    pub address_mode_v: i32,
}

pub open spec fn address_mode(wrap: u32) -> i32 {
    if wrap == GL_CLAMP_TO_EDGE {
        vk::SAMPLER_ADDRESS_MODE_CLAMP_TO_EDGE
    } else if wrap == GL_MIRRORED_REPEAT {
        vk::SAMPLER_ADDRESS_MODE_MIRRORED_REPEAT
    } else {
        vk::SAMPLER_ADDRESS_MODE_REPEAT
    }
}

pub open spec fn sampler_of(s: SamplerInfo) -> SamplerConfig {
    SamplerConfig {
        mag_filter: if s.mag_filter == Some(GL_LINEAR) {
            vk::FILTER_LINEAR
        } else {
            vk::FILTER_NEAREST
        },
        min_filter: if s.min_filter == Some(GL_LINEAR) || s.min_filter == Some(
            GL_LINEAR_MIPMAP_LINEAR,
        ) || s.min_filter == Some(GL_LINEAR_MIPMAP_NEAREST) {
            vk::FILTER_LINEAR
        } else {
            vk::FILTER_NEAREST
        },
        mipmap_mode: if s.min_filter == Some(GL_LINEAR_MIPMAP_LINEAR) || s.min_filter == Some(
            GL_NEAREST_MIPMAP_LINEAR,
        ) {
            vk::SAMPLER_MIPMAP_MODE_LINEAR
        } else {
            vk::SAMPLER_MIPMAP_MODE_NEAREST
        },
        address_mode_u: address_mode(s.wrap_s),
        address_mode_v: address_mode(s.wrap_t),
    }
}

/// A texture is sampled as its sampler says. What it says of magnifying, of
/// minifying and of levels is taken each for itself; both axes wrap by their own
/// mode.
pub proof fn law_samplers_are_as_described(s: SamplerInfo)
    ensures
        ({
            let r = sampler_of(s);
            &&& r.mag_filter == vk::FILTER_LINEAR <==> s.mag_filter == Some(9729u32)
            &&& r.mag_filter == vk::FILTER_LINEAR || r.mag_filter == vk::FILTER_NEAREST
            &&& r.min_filter == vk::FILTER_LINEAR <==> s.min_filter is Some && (s.min_filter->0
                == 9729 || s.min_filter->0 == 9985 || s.min_filter->0 == 9987)
            &&& r.min_filter == vk::FILTER_LINEAR || r.min_filter == vk::FILTER_NEAREST
            &&& r.mipmap_mode == vk::SAMPLER_MIPMAP_MODE_LINEAR <==> s.min_filter is Some && (
            s.min_filter->0 == 9986 || s.min_filter->0 == 9987)
            &&& r.mipmap_mode == vk::SAMPLER_MIPMAP_MODE_LINEAR || r.mipmap_mode
                == vk::SAMPLER_MIPMAP_MODE_NEAREST
            &&& s.wrap_s == 33071 ==> r.address_mode_u == vk::SAMPLER_ADDRESS_MODE_CLAMP_TO_EDGE
            &&& s.wrap_s == 33648 ==> r.address_mode_u
                == vk::SAMPLER_ADDRESS_MODE_MIRRORED_REPEAT
            &&& s.wrap_s == 10497 ==> r.address_mode_u == vk::SAMPLER_ADDRESS_MODE_REPEAT
            &&& s.wrap_t == 33071 ==> r.address_mode_v == vk::SAMPLER_ADDRESS_MODE_CLAMP_TO_EDGE
            &&& s.wrap_t == 33648 ==> r.address_mode_v
                == vk::SAMPLER_ADDRESS_MODE_MIRRORED_REPEAT
            &&& s.wrap_t == 10497 ==> r.address_mode_v == vk::SAMPLER_ADDRESS_MODE_REPEAT
        }),
{
}

fn compute_address_mode(wrap: u32) -> (r: i32)
    ensures
        r == address_mode(wrap),
{
    if wrap == GL_CLAMP_TO_EDGE {
        vk::SAMPLER_ADDRESS_MODE_CLAMP_TO_EDGE
    } else if wrap == GL_MIRRORED_REPEAT {
        vk::SAMPLER_ADDRESS_MODE_MIRRORED_REPEAT
    } else {
        vk::SAMPLER_ADDRESS_MODE_REPEAT
    }
}

/// The sampler that a document describes. What it leaves open is nearest.
pub fn load_sampler(s: &SamplerInfo) -> (r: SamplerConfig)
    ensures
        r == sampler_of(*s),
{
    let mag_filter: i32 = match s.mag_filter {
        Some(f) => if f == GL_LINEAR { vk::FILTER_LINEAR } else { vk::FILTER_NEAREST },
        None => vk::FILTER_NEAREST,
    };
    let (min_filter, mipmap_mode): (i32, i32) = match s.min_filter {
        None => (vk::FILTER_NEAREST, vk::SAMPLER_MIPMAP_MODE_NEAREST),
        Some(f) => (
            if f == GL_LINEAR || f == GL_LINEAR_MIPMAP_LINEAR || f == GL_LINEAR_MIPMAP_NEAREST {
                vk::FILTER_LINEAR
            } else {
                vk::FILTER_NEAREST
            },
            if f == GL_LINEAR_MIPMAP_LINEAR || f == GL_NEAREST_MIPMAP_LINEAR {
                vk::SAMPLER_MIPMAP_MODE_LINEAR
            } else {
                vk::SAMPLER_MIPMAP_MODE_NEAREST
            },
        ),
    };
    SamplerConfig {
        mag_filter,
        min_filter,
        mipmap_mode,
        address_mode_u: compute_address_mode(s.wrap_s),
        address_mode_v: compute_address_mode(s.wrap_t),
    }
}

/// The samplers of a document, in order.
pub fn load_samplers(samplers: &Vec<SamplerInfo>) -> (r: Vec<SamplerConfig>)
    ensures
        r@ == samplers@.map_values(|s: SamplerInfo| sampler_of(s)),
{
    let mut out: Vec<SamplerConfig> = Vec::new();
    let mut i: usize = 0;
    while i < samplers.len()
        invariant
            i <= samplers@.len(),
            out@ == samplers@.take(i as int).map_values(|s: SamplerInfo| sampler_of(s)),
        decreases samplers@.len() - i,
    {
        out.push(load_sampler(&samplers[i]));
        i += 1;
        assert(out@ =~= samplers@.take(i as int).map_values(|s: SamplerInfo| sampler_of(s)));
    }
    assert(samplers@.take(i as int) =~= samplers@);
    out
}

/// The sampler of textures that name none.
pub fn default_sampler() -> (r: SamplerConfig)
    ensures
        r == (SamplerConfig {
            mag_filter: vk::FILTER_LINEAR,
            min_filter: vk::FILTER_LINEAR,
            mipmap_mode: vk::SAMPLER_MIPMAP_MODE_LINEAR,
            address_mode_u: vk::SAMPLER_ADDRESS_MODE_REPEAT,
            address_mode_v: vk::SAMPLER_ADDRESS_MODE_REPEAT,
        }),
{
    SamplerConfig {
        mag_filter: vk::FILTER_LINEAR,
        min_filter: vk::FILTER_LINEAR,
        mipmap_mode: vk::SAMPLER_MIPMAP_MODE_LINEAR,
        address_mode_u: vk::SAMPLER_ADDRESS_MODE_REPEAT,
        address_mode_v: vk::SAMPLER_ADDRESS_MODE_REPEAT,
    }
}

/// The base color texture of a material: an image, and a sampler or the
/// default one.
#[derive(Debug, Clone, Copy, PartialEq, Eq)]
pub struct Texture {
    pub image: usize,
    pub sampler: Option<usize>,
}

/// A material; the factor is given by the bit patterns of its floats.
#[derive(Debug, Clone, Copy, PartialEq, Eq)]
pub struct GltfMaterial {
    pub base_color: Option<Texture>,
    pub base_color_factor: [u32; 4],
}

/// Bit pattern of the float 1.
pub const ONE_BITS: u32 = 0x3F80_0000;

impl Default for GltfMaterial {
    fn default() -> (r: Self)
        ensures
            r.base_color is None,
            r.base_color_factor@ == seq![ONE_BITS, ONE_BITS, ONE_BITS, ONE_BITS],
    {
        GltfMaterial {
            base_color: None,
            base_color_factor: [ONE_BITS, ONE_BITS, ONE_BITS, ONE_BITS],
        }
    }
}

/// A material as shaders read it.
#[derive(Debug, Clone, Copy, PartialEq, Eq)]
pub struct GltfMaterialData {
    pub base_color_factor: [u32; 4],
    pub base_color: u32,
    pub base_color_sampler: u32,
}

impl GltfMaterial {
    /// The material as shaders read it. `image` is the handle of the base
    /// color's image, where that is loaded, and `sampler` that of its sampler.
    pub fn data(&self, image: Option<u32>, sampler: u32) -> (r: GltfMaterialData)
        ensures
            r.base_color_factor == self.base_color_factor,
            r.base_color == (match (self.base_color, image) {
                (Some(_), Some(handle)) => handle,
                _ => u32::MAX,
            }),
            r.base_color_sampler == (if self.base_color is Some {
                sampler
            } else {
                0
            }),
    {
        let base_color: u32 = match (self.base_color, image) {
            (Some(_), Some(handle)) => handle,
            _ => u32::MAX,
        };
        let base_color_sampler: u32 = if self.base_color.is_some() { sampler } else { 0 };
        GltfMaterialData {
            base_color_factor: self.base_color_factor,
            base_color,
            base_color_sampler,
        }
    }
}

pub open spec fn material_of(s: SceneData, m: MaterialInfo) -> GltfMaterial {
    GltfMaterial {
        base_color: match m.base_color_texture {
            Some(t) => Some(
                Texture {
                    image: texture_image(s.textures@[t as int], s.images@.len()) as usize,
                    sampler: s.textures@[t as int].sampler,
                },
            ),
            None => None,
        },
        base_color_factor: m.base_color_factor,
    }
}

/// A material has a base color texture where its description names one: of the
/// image that the DDS extension names, where there is such an image, otherwise
/// of the texture's own, and with the texture's sampler.
pub proof fn law_materials_are_as_described(s: SceneData, m: MaterialInfo)
    ensures
        ({
            let r = material_of(s, m);
            &&& r.base_color_factor == m.base_color_factor
            &&& r.base_color is Some <==> m.base_color_texture is Some
            &&& m.base_color_texture is Some ==> {
                let t = s.textures@[m.base_color_texture->0 as int];
                &&& r.base_color->0.sampler == t.sampler
                &&& t.dds_source is None ==> r.base_color->0.image == t.source
                &&& t.dds_source is Some && t.dds_source->0 < s.images@.len() && t.dds_source->0
                    <= usize::MAX ==> r.base_color->0.image == t.dds_source->0
                &&& t.dds_source is Some && t.dds_source->0 <= usize::MAX && t.dds_source->0
                    >= s.images@.len() ==> r.base_color->0.image == t.source
            }
        }),
{
}

/// The materials of a document, in order.
pub fn load_materials(s: &SceneData) -> (r: Vec<GltfMaterial>)
    requires
        s.wf(),
    ensures
        r@ == s.materials@.map_values(|m: MaterialInfo| material_of(*s, m)),
{
    let mut out: Vec<GltfMaterial> = Vec::new();
    let mut i: usize = 0;
    while i < s.materials.len()
        invariant
            i <= s.materials@.len(),
            s.wf(),
            out@ == s.materials@.take(i as int).map_values(|m: MaterialInfo| material_of(*s, m)),
        decreases s.materials@.len() - i,
    {
        let m = s.materials[i];
        let base_color = match m.base_color_texture {
            Some(t) => {
                assert(s.materials@[i as int].base_color_texture is Some);
                let texture = s.textures[t];
                Some(
                    Texture {
                        image: dds_source(&texture, s.images.len()),
                        sampler: texture.sampler,
                    },
                )
            },
            None => None,
        };
        out.push(GltfMaterial { base_color, base_color_factor: m.base_color_factor });
        i += 1;
        assert(out@ =~= s.materials@.take(i as int).map_values(
            |m: MaterialInfo| material_of(*s, m),
        ));
    }
    assert(s.materials@.take(i as int) =~= s.materials@);
    out
}

// ---------------------------------------------------------------------------
// Meshes
// ---------------------------------------------------------------------------

pub const GL_POINTS: u32 = 0;

pub const GL_LINES: u32 = 1;

pub const GL_LINE_LOOP: u32 = 2;

pub const GL_LINE_STRIP: u32 = 3;

pub const GL_TRIANGLES: u32 = 4;

pub const GL_TRIANGLE_STRIP: u32 = 5;

pub const GL_TRIANGLE_FAN: u32 = 6;

pub const GL_BYTE: u32 = 5120;

pub const GL_UNSIGNED_BYTE: u32 = 5121;

pub const GL_SHORT: u32 = 5122;

pub const GL_UNSIGNED_SHORT: u32 = 5123;

pub const GL_UNSIGNED_INT: u32 = 5125;

/// The topology of a primitive mode; loops have none.
pub open spec fn topology_of(mode: u32) -> Option<i32> {
    if mode == GL_POINTS {
        Some(vk::PRIMITIVE_TOPOLOGY_POINT_LIST)
    } else if mode == GL_LINES {
        Some(vk::PRIMITIVE_TOPOLOGY_LINE_LIST)
    } else if mode == GL_LINE_STRIP {
        Some(vk::PRIMITIVE_TOPOLOGY_LINE_STRIP)
    } else if mode == GL_TRIANGLES {
        Some(vk::PRIMITIVE_TOPOLOGY_TRIANGLE_LIST)
    } else if mode == GL_TRIANGLE_STRIP {
        Some(vk::PRIMITIVE_TOPOLOGY_TRIANGLE_STRIP)
    } else if mode == GL_TRIANGLE_FAN {
        Some(vk::PRIMITIVE_TOPOLOGY_TRIANGLE_FAN)
    } else {
        None
    }
}

/// The index type of a component type; floats are none.
pub open spec fn component_index_type(component: u32) -> Option<i32> {
    if component == GL_BYTE || component == GL_UNSIGNED_BYTE {
        Some(vk::INDEX_TYPE_UINT8_KHR)
    } else if component == GL_SHORT || component == GL_UNSIGNED_SHORT {
        Some(vk::INDEX_TYPE_UINT16)
    } else if component == GL_UNSIGNED_INT {
        Some(vk::INDEX_TYPE_UINT32)
    } else {
        None
    }
}

/// A primitive that can be loaded: its mode has a topology, its indices are
/// integers, it has a material, and its attributes lie in loaded views.
pub open spec fn loadable(
    p: PrimitiveInfo,
    attributes: Seq<(Semantic, usize)>,
    accessors: Seq<AccessorInfo>,
    loaded: Seq<bool>,
) -> bool {
    &&& topology_of(p.mode) is Some
    &&& p.material is Some
    &&& p.indices is Some && accessors[p.indices->0 as int].view is Some ==> component_index_type(
        accessors[p.indices->0 as int].component,
    ) is Some
    &&& forall|k: int|
        0 <= k < attributes.len() ==> attribute_loaded(#[trigger] attributes[k], accessors, loaded)
}

pub open spec fn attribute_loaded(
    a: (Semantic, usize),
    accessors: Seq<AccessorInfo>,
    loaded: Seq<bool>,
) -> bool {
    accessors[a.1 as int].view is Some && loaded[accessors[a.1 as int].view->0 as int]
}

/// The attributes of a primitive by their keys.
pub open spec fn attribute_map(
    attributes: Seq<(Semantic, usize)>,
    accessors: Seq<AccessorInfo>,
) -> Map<u64, Attribute>
    decreases attributes.len(),
{
    if attributes.len() == 0 {
        Map::empty()
    } else {
        let a = attributes.last();
        attribute_map(attributes.drop_last(), accessors).insert(
            a.0.key(),
            Attribute {
                buffer: accessors[a.1 as int].view->0,
                offset: accessors[a.1 as int].offset,
            },
        )
    }
}

pub open spec fn is_primitive(
    r: Primitive,
    p: PrimitiveInfo,
    attributes: Seq<(Semantic, usize)>,
    accessors: Seq<AccessorInfo>,
    loaded: Seq<bool>,
) -> bool {
    &&& Some(r.topology) == topology_of(p.mode)
    &&& r.material == p.material
    &&& r.attributes@ == attribute_map(attributes, accessors)
    &&& if p.indices is Some && accessors[p.indices->0 as int].view is Some {
        let a = accessors[p.indices->0 as int];
        &&& r.index_buffer == (if loaded[a.view->0 as int] {
            a.view
        } else {
            None
        })
        &&& r.index_buffer_offset == a.offset
        &&& r.index_count == a.count as u32
        &&& Some(r.index_type) == component_index_type(a.component)
    } else {
        &&& r.index_buffer is None
        &&& r.index_buffer_offset == 0
        &&& r.index_count == 0
        &&& r.index_type == vk::INDEX_TYPE_UINT16
    }
}

fn compute_topology(mode: u32) -> (r: i32)
    requires
        topology_of(mode) is Some,
    ensures
        Some(r) == topology_of(mode),
{
    if mode == GL_POINTS {
        vk::PRIMITIVE_TOPOLOGY_POINT_LIST
    } else if mode == GL_LINES {
        vk::PRIMITIVE_TOPOLOGY_LINE_LIST
    } else if mode == GL_LINE_STRIP {
        vk::PRIMITIVE_TOPOLOGY_LINE_STRIP
    } else if mode == GL_TRIANGLES {
        vk::PRIMITIVE_TOPOLOGY_TRIANGLE_LIST
    } else if mode == GL_TRIANGLE_STRIP {
        vk::PRIMITIVE_TOPOLOGY_TRIANGLE_STRIP
    } else {
        vk::PRIMITIVE_TOPOLOGY_TRIANGLE_FAN
    }
}

fn compute_index_type(component: u32) -> (r: i32)
    requires
        component_index_type(component) is Some,
    ensures
        Some(r) == component_index_type(component),
{
    if component == GL_BYTE || component == GL_UNSIGNED_BYTE {
        vk::INDEX_TYPE_UINT8_KHR
    } else if component == GL_SHORT || component == GL_UNSIGNED_SHORT {
        vk::INDEX_TYPE_UINT16
    } else {
        vk::INDEX_TYPE_UINT32
    }
}

/// Builds a primitive. Buffers are named by their views, `loaded` says which
/// of those are on the GPU.
pub fn load_primitive(
    p: &PrimitiveInfo,
    attributes: &Vec<(Semantic, usize)>,
    accessors: &Vec<AccessorInfo>,
    loaded: &Vec<bool>,
) -> (r: Primitive)
    requires
        p.indices is Some ==> p.indices->0 < accessors@.len(),
        forall|k: int| 0 <= k < attributes@.len() ==> (#[trigger] attributes@[k]).1 < accessors@.len(),
        forall|i: int|
            0 <= i < accessors@.len() ==> crate::gltf_scene::accessor_wf(
                #[trigger] accessors@[i],
                loaded@.len(),
            ),
        loadable(*p, attributes@, accessors@, loaded@),
    ensures
        is_primitive(r, *p, attributes@, accessors@, loaded@),
{
    let mut r = Primitive::default();
    r.topology = compute_topology(p.mode);
    r.material = p.material;
    match p.indices {
        Some(i) => {
            let a = accessors[i];
            assert(crate::gltf_scene::accessor_wf(accessors@[i as int], loaded@.len()));
            match a.view {
                Some(view) => {
                    r.index_buffer = if loaded[view] { Some(view) } else { None };
                    r.index_buffer_offset = a.offset;
                    r.index_count = a.count as u32;
                    r.index_type = compute_index_type(a.component);
                },
                None => {},
            }
        },
        None => {},
    }
    let ghost start = r;
    let mut k: usize = 0;
    while k < attributes.len()
        invariant
            k <= attributes@.len(),
            forall|k: int|
                0 <= k < attributes@.len() ==> (#[trigger] attributes@[k]).1 < accessors@.len(),
            forall|i: int|
                0 <= i < accessors@.len() ==> crate::gltf_scene::accessor_wf(
                    #[trigger] accessors@[i],
                    loaded@.len(),
                ),
            loadable(*p, attributes@, accessors@, loaded@),
            r.attributes@ == attribute_map(attributes@.take(k as int), accessors@),
            r.topology == start.topology,
            r.material == start.material,
            r.index_buffer == start.index_buffer,
            r.index_buffer_offset == start.index_buffer_offset,
            r.index_count == start.index_count,
            r.index_type == start.index_type,
        decreases attributes@.len() - k,
    {
        let (semantic, index): (Semantic, usize) = attributes[k];
        assert(attributes@[k as int].1 == index);
        let a = accessors[index];
        assert(attribute_loaded(attributes@[k as int], accessors@, loaded@));
        r.set_attribute(semantic, Attribute { buffer: a.view.unwrap(), offset: a.offset });
        assert(attributes@.take(k + 1).drop_last() =~= attributes@.take(k as int));
        k += 1;
    }
    assert(attributes@.take(k as int) =~= attributes@);
    r
}

/// Whether a primitive can be loaded.
fn is_loadable(
    p: &PrimitiveInfo,
    attributes: &Vec<(Semantic, usize)>,
    accessors: &Vec<AccessorInfo>,
    loaded: &Vec<bool>,
) -> (r: bool)
    requires
        p.indices is Some ==> p.indices->0 < accessors@.len(),
        forall|k: int| 0 <= k < attributes@.len() ==> (#[trigger] attributes@[k]).1 < accessors@.len(),
        forall|i: int|
            0 <= i < accessors@.len() ==> crate::gltf_scene::accessor_wf(
                #[trigger] accessors@[i],
                loaded@.len(),
            ),
    ensures
        r == loadable(*p, attributes@, accessors@, loaded@),
{
    if p.mode == GL_LINE_LOOP || p.mode > GL_TRIANGLE_FAN || p.material.is_none() {
        return false;
    }
    if let Some(i) = p.indices {
        let a = accessors[i];
        if a.view.is_some() && a.component != GL_BYTE && a.component != GL_UNSIGNED_BYTE
            && a.component != GL_SHORT && a.component != GL_UNSIGNED_SHORT && a.component
            != GL_UNSIGNED_INT {
            return false;
        }
    }
    let mut k: usize = 0;
    while k < attributes.len()
        invariant
            k <= attributes@.len(),
            forall|k: int|
                0 <= k < attributes@.len() ==> (#[trigger] attributes@[k]).1 < accessors@.len(),
            forall|i: int|
                0 <= i < accessors@.len() ==> crate::gltf_scene::accessor_wf(
                    #[trigger] accessors@[i],
                    loaded@.len(),
                ),
            forall|j: int|
                0 <= j < k ==> attribute_loaded(#[trigger] attributes@[j], accessors@, loaded@),
        decreases attributes@.len() - k,
    {
        let index: usize = attributes[k].1;
        assert(attributes@[k as int].1 == index);
        let a = accessors[index];
        assert(crate::gltf_scene::accessor_wf(accessors@[index as int], loaded@.len()));
        let is_loaded: bool = match a.view {
            Some(view) => loaded[view],
            None => false,
        };
        if !is_loaded {
            assert(!attribute_loaded(attributes@[k as int], accessors@, loaded@));
            return false;
        }
        k += 1;
    }
    true
}

/// The values of a vertex attribute lie where its accessor says: in the buffer
/// of the accessor's view, at the accessor's offset. Of several attributes of
/// one kind the last one counts.
pub proof fn law_attributes_lie_where_their_accessors_say(
    r: Primitive,
    p: PrimitiveInfo,
    attributes: Seq<(Semantic, usize)>,
    accessors: Seq<AccessorInfo>,
    loaded: Seq<bool>,
    k: int,
)
    requires
        is_primitive(r, p, attributes, accessors, loaded),
        loadable(p, attributes, accessors, loaded),
        0 <= k < attributes.len(),
        forall|j: int| k < j < attributes.len() ==> (#[trigger] attributes[j]).0 != attributes[k].0,
    ensures
        r.attributes@.contains_key(attributes[k].0.key()),
        accessors[attributes[k].1 as int].view == Some(
            r.attributes@[attributes[k].0.key()].buffer,
        ),
        r.attributes@[attributes[k].0.key()].offset == accessors[attributes[k].1 as int].offset,
{
    assert(attribute_loaded(attributes[k], accessors, loaded));
    lemma_attribute_of(attributes, accessors, k);
}

/// A primitive has no attributes but those of its description.
pub proof fn law_attributes_come_from_the_description(
    r: Primitive,
    p: PrimitiveInfo,
    attributes: Seq<(Semantic, usize)>,
    accessors: Seq<AccessorInfo>,
    loaded: Seq<bool>,
    key: u64,
)
    requires
        is_primitive(r, p, attributes, accessors, loaded),
        r.attributes@.contains_key(key),
    ensures
        exists|k: int| 0 <= k < attributes.len() && (#[trigger] attributes[k]).0.key() == key,
{
    lemma_attribute_source(attributes, accessors, key);
}

proof fn lemma_attribute_of(
    attributes: Seq<(Semantic, usize)>,
    accessors: Seq<AccessorInfo>,
    k: int,
)
    requires
        0 <= k < attributes.len(),
        forall|j: int| k < j < attributes.len() ==> (#[trigger] attributes[j]).0 != attributes[k].0,
    ensures
        attribute_map(attributes, accessors).contains_key(attributes[k].0.key()),
        attribute_map(attributes, accessors)[attributes[k].0.key()].buffer
            == accessors[attributes[k].1 as int].view->0,
        attribute_map(attributes, accessors)[attributes[k].0.key()].offset
            == accessors[attributes[k].1 as int].offset,
    decreases attributes.len(),
{
    if k < attributes.len() - 1 {
        let init = attributes.drop_last();
        assert forall|j: int| k < j < init.len() implies (#[trigger] init[j]).0 != init[k].0 by {
            assert(attributes[j].0 != attributes[k].0);
        }
        lemma_attribute_of(init, accessors, k);
        let last = attributes[attributes.len() - 1];
        crate::scene::law_semantic_key_round_trip(last.0, attributes[k].0);
    }
}

proof fn lemma_attribute_source(
    attributes: Seq<(Semantic, usize)>,
    accessors: Seq<AccessorInfo>,
    key: u64,
)
    requires
        attribute_map(attributes, accessors).contains_key(key),
    ensures
        exists|k: int| 0 <= k < attributes.len() && (#[trigger] attributes[k]).0.key() == key,
    decreases attributes.len(),
{
    let last = attributes[attributes.len() - 1];
    if last.0.key() != key {
        let init = attributes.drop_last();
        lemma_attribute_source(init, accessors, key);
        let k = choose|k: int| 0 <= k < init.len() && (#[trigger] init[k]).0.key() == key;
        assert(attributes[k].0.key() == key);
    }
}

/// The indices of a primitive lie where their accessor says: in the buffer of
/// its view, if that is on the device, from its offset on, as many as it counts
/// and of the size of its components. Without indices that lie in a view there
/// is no index buffer.
pub proof fn law_indices_lie_where_their_accessor_says(
    r: Primitive,
    p: PrimitiveInfo,
    attributes: Seq<(Semantic, usize)>,
    accessors: Seq<AccessorInfo>,
    loaded: Seq<bool>,
)
    requires
        is_primitive(r, p, attributes, accessors, loaded),
    ensures
        p.indices is Some && accessors[p.indices->0 as int].view is Some ==> {
            let a = accessors[p.indices->0 as int];
            &&& loaded[a.view->0 as int] ==> r.index_buffer == a.view
            &&& !loaded[a.view->0 as int] ==> r.index_buffer is None
            &&& r.index_buffer_offset == a.offset
            &&& a.count <= u32::MAX ==> r.index_count == a.count
            &&& a.component == 5120 || a.component == 5121 ==> r.index_type
                == vk::INDEX_TYPE_UINT8_KHR
            &&& a.component == 5122 || a.component == 5123 ==> r.index_type
                == vk::INDEX_TYPE_UINT16
            &&& a.component == 5125 ==> r.index_type == vk::INDEX_TYPE_UINT32
        },
        p.indices is None ==> r.index_buffer is None && r.index_count == 0
            && r.index_buffer_offset == 0,
        p.indices is Some && accessors[p.indices->0 as int].view is None ==> r.index_buffer is None
            && r.index_count == 0 && r.index_buffer_offset == 0,
        r.material == p.material,
{
}

/// Primitives keep their shape. Modes and topologies are numbered alike, but
/// that a topology for line loops is missing.
pub proof fn law_topologies_follow_the_modes(mode: u32)
    ensures
        topology_of(mode) is Some <==> mode <= 6 && mode != 2,
        mode < 2 ==> topology_of(mode) == Some(mode as i32),
        2 < mode <= 6 ==> topology_of(mode) == Some((mode - 1) as i32),
{
}

/// Indices are bytes, pairs of bytes or groups of four, whether or not their
/// components have a sign; other components are no indices.
pub proof fn law_indices_have_the_size_of_their_components(component: u32)
    ensures
        component_index_type(component) == (if component == 5120 || component == 5121 {
            Some(vk::INDEX_TYPE_UINT8_KHR)
        } else if component == 5122 || component == 5123 {
            Some(vk::INDEX_TYPE_UINT16)
        } else if component == 5125 {
            Some(vk::INDEX_TYPE_UINT32)
        } else {
            None
        }),
{
}

/// What makes a primitive one that can be loaded.
pub proof fn law_loadable_primitives(
    p: PrimitiveInfo,
    attributes: Seq<(Semantic, usize)>,
    accessors: Seq<AccessorInfo>,
    loaded: Seq<bool>,
)
    ensures
        loadable(p, attributes, accessors, loaded) ==> {
            &&& p.mode <= 6 && p.mode != 2
            &&& p.material is Some
            &&& forall|k: int|
                0 <= k < attributes.len() ==> {
                    let a = accessors[(#[trigger] attributes[k]).1 as int];
                    a.view is Some && loaded[a.view->0 as int]
                }
        },
        p.mode <= 6 && p.mode != 2 && p.material is Some && p.indices is None && (forall|k: int|
            0 <= k < attributes.len() ==> {
                let a = accessors[(#[trigger] attributes[k]).1 as int];
                a.view is Some && loaded[a.view->0 as int]
            }) ==> loadable(p, attributes, accessors, loaded),
        p.indices is Some && accessors[p.indices->0 as int].view is Some && !(accessors[
            p.indices->0 as int
        ].component == 5120 || accessors[p.indices->0 as int].component == 5121 || accessors[
            p.indices->0 as int
        ].component == 5122 || accessors[p.indices->0 as int].component == 5123 || accessors[
            p.indices->0 as int
        ].component == 5125) ==> !loadable(p, attributes, accessors, loaded),
{
    if loadable(p, attributes, accessors, loaded) {
        assert forall|k: int| 0 <= k < attributes.len() implies {
            let a = accessors[(#[trigger] attributes[k]).1 as int];
            a.view is Some && loaded[a.view->0 as int]
        } by {
            assert(attribute_loaded(attributes[k], accessors, loaded));
        }
    }
}

/// The primitive `j` of mesh `i` can be loaded.
pub open spec fn primitive_loadable(s: SceneData, loaded: Seq<bool>, i: int, j: int) -> bool {
    loadable(s.primitives@[i]@[j], s.attributes@[i]@[j]@, s.accessors@, loaded)
}

/// Every primitive of a scene can be loaded.
pub open spec fn all_loadable(s: SceneData, loaded: Seq<bool>) -> bool {
    forall|i: int, j: int|
        0 <= i < s.primitives@.len() && 0 <= j < s.primitives@[i]@.len()
            ==> #[trigger] primitive_loadable(s, loaded, i, j)
}

/// Whether every primitive of a scene can be loaded.
pub fn has_loadable_meshes(s: &SceneData, loaded: &Vec<bool>) -> (r: bool)
    requires
        s.wf(),
        loaded@.len() == s.views@.len(),
    ensures
        r == all_loadable(*s, loaded@),
{
    let mut i: usize = 0;
    while i < s.primitives.len()
        invariant
            i <= s.primitives@.len(),
            s.wf(),
            loaded@.len() == s.views@.len(),
            forall|a: int, b: int|
                0 <= a < i && 0 <= b < s.primitives@[a]@.len() ==> #[trigger] primitive_loadable(
                    *s,
                    loaded@,
                    a,
                    b,
                ),
        decreases s.primitives@.len() - i,
    {
        let primitives = &s.primitives[i];
        let attributes = &s.attributes[i];
        assert(s.attributes@[i as int]@.len() == primitives@.len());
        let mut j: usize = 0;
        while j < primitives.len()
            invariant
                j <= primitives@.len(),
                i < s.primitives@.len(),
                s.wf(),
                loaded@.len() == s.views@.len(),
                primitives@ == s.primitives@[i as int]@,
                attributes@ == s.attributes@[i as int]@,
                attributes@.len() == primitives@.len(),
                forall|b: int|
                    0 <= b < j ==> #[trigger] primitive_loadable(*s, loaded@, i as int, b),
            decreases primitives@.len() - j,
        {
            assert(crate::gltf_scene::primitive_wf(
                s.primitives@[i as int]@[j as int],
                s.accessors@.len(),
                s.materials@.len(),
            ));
            let ghost attribute_list = attributes@[j as int]@;
            assert forall|k: int| 0 <= k < attribute_list.len() implies (
            #[trigger] attribute_list[k]).1 < s.accessors@.len() by {
                assert(s.attributes@[i as int]@[j as int]@[k].1 < s.accessors@.len());
            }
            if !is_loadable(&primitives[j], &attributes[j], &s.accessors, loaded) {
                assert(!primitive_loadable(*s, loaded@, i as int, j as int));
                return false;
            }
            j += 1;
        }
        i += 1;
    }
    true
}

/// `r` is the model of mesh `i`.
pub open spec fn is_model(r: Model, s: SceneData, loaded: Seq<bool>, i: int) -> bool {
    &&& r.primitives@.len() == s.primitives@[i]@.len()
    &&& forall|j: int|
        0 <= j < r.primitives@.len() ==> is_primitive(
            #[trigger] r.primitives@[j],
            s.primitives@[i]@[j],
            s.attributes@[i]@[j]@,
            s.accessors@,
            loaded,
        )
}

/// The primitives of a model are those of its mesh, in their order: what the
/// attributes of primitive `j` of mesh `i` say is found in primitive `j` of its
/// model.
pub proof fn law_models_have_the_primitives_of_their_meshes(
    r: Model,
    s: SceneData,
    loaded: Seq<bool>,
    i: int,
    j: int,
    k: int,
)
    requires
        is_model(r, s, loaded, i),
        all_loadable(s, loaded),
        0 <= i < s.primitives@.len(),
        0 <= j < s.primitives@[i]@.len(),
        0 <= k < s.attributes@[i]@[j]@.len(),
        forall|l: int|
            k < l < s.attributes@[i]@[j]@.len() ==> (#[trigger] s.attributes@[i]@[j]@[l]).0
                != s.attributes@[i]@[j]@[k].0,
    ensures
        r.primitives@.len() == s.primitives@[i]@.len(),
        ({
            let (semantic, accessor) = s.attributes@[i]@[j]@[k];
            let attributes = r.primitives@[j].attributes@;
            &&& attributes.contains_key(semantic.key())
            &&& s.accessors@[accessor as int].view == Some(attributes[semantic.key()].buffer)
            &&& attributes[semantic.key()].offset == s.accessors@[accessor as int].offset
        }),
{
    assert(primitive_loadable(s, loaded, i, j));
    law_attributes_lie_where_their_accessors_say(
        r.primitives@[j],
        s.primitives@[i]@[j],
        s.attributes@[i]@[j]@,
        s.accessors@,
        loaded,
        k,
    );
}

/// The models of a scene, mesh by mesh.
pub fn load_meshes(s: &SceneData, loaded: &Vec<bool>) -> (r: Vec<Model>)
    requires
        s.wf(),
        loaded@.len() == s.views@.len(),
        all_loadable(*s, loaded@),
    ensures
        r@.len() == s.primitives@.len(),
        forall|i: int| 0 <= i < r@.len() ==> is_model(#[trigger] r@[i], *s, loaded@, i),
{
    let mut models: Vec<Model> = Vec::new();
    while models.len() < s.primitives.len()
        invariant
            models@.len() <= s.primitives@.len(),
            s.wf(),
            loaded@.len() == s.views@.len(),
            all_loadable(*s, loaded@),
            forall|i: int|
                0 <= i < models@.len() ==> is_model(#[trigger] models@[i], *s, loaded@, i),
        decreases s.primitives@.len() - models@.len(),
    {
        let i: usize = models.len();
        let primitives = &s.primitives[i];
        let attributes = &s.attributes[i];
        assert(s.attributes@[i as int]@.len() == primitives@.len());
        let mut list: Vec<Primitive> = Vec::new();
        while list.len() < primitives.len()
            invariant
                list@.len() <= primitives@.len(),
                i < s.primitives@.len(),
                s.wf(),
                loaded@.len() == s.views@.len(),
                all_loadable(*s, loaded@),
                primitives@ == s.primitives@[i as int]@,
                attributes@ == s.attributes@[i as int]@,
                attributes@.len() == primitives@.len(),
                forall|j: int|
                    0 <= j < list@.len() ==> is_primitive(
                        #[trigger] list@[j],
                        primitives@[j],
                        attributes@[j]@,
                        s.accessors@,
                        loaded@,
                    ),
            decreases primitives@.len() - list@.len(),
        {
            let j: usize = list.len();
            assert(crate::gltf_scene::primitive_wf(
                s.primitives@[i as int]@[j as int],
                s.accessors@.len(),
                s.materials@.len(),
            ));
            let ghost attribute_list = attributes@[j as int]@;
            assert forall|k: int| 0 <= k < attribute_list.len() implies (
            #[trigger] attribute_list[k]).1 < s.accessors@.len() by {
                assert(s.attributes@[i as int]@[j as int]@[k].1 < s.accessors@.len());
            }
            assert(primitive_loadable(*s, loaded@, i as int, j as int));
            list.push(load_primitive(&primitives[j], &attributes[j], &s.accessors, loaded));
        }
        models.push(Model { primitives: list });
    }
    models
}

// ---------------------------------------------------------------------------
// The hierarchy
// ---------------------------------------------------------------------------

/// A node of a spawned scene, and the place in the list of the one it hangs
/// from.
#[derive(Debug, Clone, Copy, PartialEq, Eq)]
pub struct SpawnedNode {
    pub node: usize,
    pub parent: Option<usize>,
}

/// The nodes that hang from `parent`, each followed by those that hang from
/// it, from place `base` of the list on; at most `depth` levels. `None` where
/// there are more levels.
pub open spec fn spawned(
    nodes: Seq<NodeInfo>,
    list: Seq<usize>,
    parent: Option<usize>,
    base: int,
    depth: nat,
) -> Option<Seq<SpawnedNode>>
    decreases depth, list.len(),
{
    if list.len() == 0 {
        Some(Seq::empty())
    } else if depth == 0 {
        None
    } else {
        match spawned(nodes, list.drop_last(), parent, base, depth) {
            None => None,
            Some(before) => {
                let place = base + before.len();
                match spawned(
                    nodes,
                    nodes[list.last() as int].children@,
                    Some(place as usize),
                    place + 1,
                    (depth - 1) as nat,
                ) {
                    None => None,
                    Some(below) => Some(
                        before.push(SpawnedNode { node: list.last(), parent }) + below,
                    ),
                }
            },
        }
    }
}

fn spawn_list(
    nodes: &Vec<NodeInfo>,
    list: &Vec<usize>,
    parent: Option<usize>,
    depth: usize,
    out: &mut Vec<SpawnedNode>,
) -> (ok: bool)
    requires
        forall|i: int, j: int|
            0 <= i < nodes@.len() && 0 <= j < nodes@[i].children@.len()
                ==> #[trigger] nodes@[i].children@[j] < nodes@.len(),
        forall|i: int| 0 <= i < list@.len() ==> #[trigger] list@[i] < nodes@.len(),
    ensures
        ok <==> spawned(nodes@, list@, parent, old(out)@.len() as int, depth as nat) is Some,
        ok ==> final(out)@ == old(out)@ + spawned(
            nodes@,
            list@,
            parent,
            old(out)@.len() as int,
            depth as nat,
        )->0,
    decreases depth,
{
    let ghost start = out@;
    let ghost base = out@.len() as int;
    if list.len() == 0 {
        assert(start + Seq::<SpawnedNode>::empty() =~= start);
        return true;
    }
    if depth == 0 {
        return false;
    }
    let mut i: usize = 0;
    proof {
        assert(list@.take(0) =~= Seq::empty());
        assert(start + Seq::<SpawnedNode>::empty() =~= start);
    }
    while i < list.len()
        invariant
            i <= list@.len(),
            depth > 0,
            start == old(out)@,
            base == start.len(),
            forall|i: int, j: int|
                0 <= i < nodes@.len() && 0 <= j < nodes@[i].children@.len()
                    ==> #[trigger] nodes@[i].children@[j] < nodes@.len(),
            forall|i: int| 0 <= i < list@.len() ==> #[trigger] list@[i] < nodes@.len(),
            spawned(nodes@, list@.take(i as int), parent, base, depth as nat) is Some,
            out@ == start + spawned(nodes@, list@.take(i as int), parent, base, depth as nat)->0,
        decreases list@.len() - i,
    {
        let node: usize = list[i];
        let place: usize = out.len();
        let ghost before = spawned(nodes@, list@.take(i as int), parent, base, depth as nat)->0;
        let ghost next = list@.take(i + 1);
        proof {
            assert(next.drop_last() =~= list@.take(i as int));
            assert(next.last() == node);
        }
        out.push(SpawnedNode { node, parent });
        let ghost mid = out@;
        let ok = spawn_list(nodes, &nodes[node].children, Some(place), depth - 1, out);
        if !ok {
            proof {
                lemma_spawn_failure_stays(nodes@, list@, parent, base, depth as nat, i + 1);
            }
            return false;
        }
        proof {
            let below = spawned(
                nodes@,
                nodes@[node as int].children@,
                Some(place),
                place + 1,
                (depth - 1) as nat,
            )->0;
            assert(out@ =~= start + (before.push(SpawnedNode { node, parent }) + below));
        }
        i += 1;
    }
    assert(list@.take(i as int) =~= list@);
    true
}

proof fn lemma_spawn_failure_stays(
    nodes: Seq<NodeInfo>,
    list: Seq<usize>,
    parent: Option<usize>,
    base: int,
    depth: nat,
    n: int,
)
    requires
        0 <= n <= list.len(),
        spawned(nodes, list.take(n), parent, base, depth) is None,
    ensures
        spawned(nodes, list, parent, base, depth) is None,
    decreases list.len() - n,
{
    if n == list.len() {
        assert(list.take(n) =~= list);
    } else {
        assert(list.take(n + 1).drop_last() =~= list.take(n));
        lemma_spawn_failure_stays(nodes, list, parent, base, depth, n + 1);
    }
}

/// The nodes of a scene in the order in which they are spawned: each right
/// before those that hang from it. `None` where the nodes form a cycle.
pub fn load_node(nodes: &Vec<NodeInfo>, roots: &Vec<usize>) -> (r: Option<Vec<SpawnedNode>>)
    requires
        forall|i: int, j: int|
            0 <= i < nodes@.len() && 0 <= j < nodes@[i].children@.len()
                ==> #[trigger] nodes@[i].children@[j] < nodes@.len(),
        forall|i: int| 0 <= i < roots@.len() ==> #[trigger] roots@[i] < nodes@.len(),
    ensures
        r is Some <==> spawned(nodes@, roots@, None, 0, nodes@.len()) is Some,
        r matches Some(v) ==> Some(v@) == spawned(nodes@, roots@, None, 0, nodes@.len()),
{
    let mut out: Vec<SpawnedNode> = Vec::new();
    if spawn_list(nodes, roots, None, nodes.len(), &mut out) {
        assert(out@ =~= spawned(nodes@, roots@, None, 0, nodes@.len())->0);
        Some(out)
    } else {
        None
    }
}

/// `rank` orders the nodes so that each stands above its children.
pub open spec fn is_hierarchy(nodes: Seq<NodeInfo>, rank: spec_fn(int) -> nat) -> bool {
    forall|i: int, j: int|
        0 <= i < nodes.len() && 0 <= j < nodes[i].children@.len() ==> rank(
            #[trigger] nodes[i].children@[j] as int,
        ) < rank(i)
}

/// Where the nodes form no cycle, every scene is spawned.
pub proof fn law_hierarchies_are_spawned(
    nodes: Seq<NodeInfo>,
    list: Seq<usize>,
    parent: Option<usize>,
    base: int,
    depth: nat,
    rank: spec_fn(int) -> nat,
)
    requires
        is_hierarchy(nodes, rank),
        forall|i: int, j: int|
            0 <= i < nodes.len() && 0 <= j < nodes[i].children@.len()
                ==> #[trigger] nodes[i].children@[j] < nodes.len(),
        forall|i: int|
            0 <= i < list.len() ==> #[trigger] list[i] < nodes.len() && rank(list[i] as int)
                < depth,
    ensures
        spawned(nodes, list, parent, base, depth) is Some,
    decreases depth, list.len(),
{
    if list.len() > 0 {
        assert(list[0] < nodes.len());
        assert(depth > 0);
        let init = list.drop_last();
        assert(forall|i: int| 0 <= i < init.len() ==> #[trigger] init[i] == list[i]);
        law_hierarchies_are_spawned(nodes, init, parent, base, depth, rank);
        let node = list.last();
        assert(node == list[list.len() - 1]);
        let children = nodes[node as int].children@;
        let before = spawned(nodes, init, parent, base, depth)->0;
        assert forall|i: int| 0 <= i < children.len() implies #[trigger] children[i] < nodes.len()
            && rank(children[i] as int) < depth - 1 by {
            assert(nodes[node as int].children@[i] < nodes.len());
        }
        law_hierarchies_are_spawned(
            nodes,
            children,
            Some((base + before.len()) as usize),
            base + before.len() + 1,
            (depth - 1) as nat,
            rank,
        );
    }
}

/// Entry `k` of a list of spawned nodes hangs from where it should: it is one of
/// the nodes that hang from `parent`, or a child of a node that comes before it
/// and that it names as its parent.
pub open spec fn hangs(
    nodes: Seq<NodeInfo>,
    list: Seq<usize>,
    parent: Option<usize>,
    base: int,
    r: Seq<SpawnedNode>,
    k: int,
) -> bool {
    ||| r[k].parent == parent && list.contains(r[k].node)
    ||| exists|q: int|
        0 <= q < k && r[k].parent == Some((base + q) as usize)
            && #[trigger] nodes[r[q].node as int].children@.contains(r[k].node)
}

/// Every spawned node hangs from a node that it is a child of, or is a root of
/// the scene; and each root is spawned.
pub proof fn law_nodes_hang_from_their_parents(
    nodes: Seq<NodeInfo>,
    list: Seq<usize>,
    parent: Option<usize>,
    base: int,
    depth: nat,
)
    requires
        spawned(nodes, list, parent, base, depth) is Some,
        0 <= base,
        base + (spawned(nodes, list, parent, base, depth)->0).len() <= usize::MAX,
    ensures
        ({
            let r = spawned(nodes, list, parent, base, depth)->0;
            &&& forall|k: int| 0 <= k < r.len() ==> #[trigger] hangs(nodes, list, parent, base, r, k)
            &&& forall|i: int|
                0 <= i < list.len() ==> exists|k: int|
                    0 <= k < r.len() && (#[trigger] r[k]).node == #[trigger] list[i] && r[k].parent
                        == parent
        }),
    decreases depth, list.len(),
{
    let r = spawned(nodes, list, parent, base, depth)->0;
    if list.len() > 0 {
        let init = list.drop_last();
        let node = list[list.len() - 1];
        let before = spawned(nodes, init, parent, base, depth)->0;
        let place = base + before.len();
        let children = nodes[node as int].children@;
        let below = spawned(nodes, children, Some(place as usize), place + 1, (depth - 1) as nat)->0;
        let n = before.len() as int;
        assert(r == before.push(SpawnedNode { node, parent }) + below);
        law_nodes_hang_from_their_parents(nodes, init, parent, base, depth);
        law_nodes_hang_from_their_parents(
            nodes,
            children,
            Some(place as usize),
            place + 1,
            (depth - 1) as nat,
        );
        assert forall|k: int| 0 <= k < r.len() implies #[trigger] hangs(
            nodes,
            list,
            parent,
            base,
            r,
            k,
        ) by {
            if k < n {
                assert(hangs(nodes, init, parent, base, before, k));
                assert(r[k] == before[k]);
                if before[k].parent == parent && init.contains(before[k].node) {
                    let i = choose|i: int| 0 <= i < init.len() && init[i] == before[k].node;
                    assert(list[i] == before[k].node);
                } else {
                    let q = choose|q: int|
                        0 <= q < k && before[k].parent == Some((base + q) as usize)
                            && #[trigger] nodes[before[q].node as int].children@.contains(
                            before[k].node,
                        );
                    assert(r[q] == before[q]);
                    assert(nodes[r[q].node as int].children@.contains(r[k].node));
                }
            } else if k == n {
                assert(r[k] == SpawnedNode { node, parent });
                assert(list[list.len() - 1] == node);
            } else {
                let j = k - n - 1;
                assert(r[k] == below[j]);
                assert(hangs(nodes, children, Some(place as usize), place + 1, below, j));
                if below[j].parent == Some(place as usize) && children.contains(below[j].node) {
                    assert(r[n].node == node);
                    assert(nodes[r[n].node as int].children@.contains(r[k].node));
                } else {
                    let q = choose|q: int|
                        0 <= q < j && below[j].parent == Some((place + 1 + q) as usize)
                            && #[trigger] nodes[below[q].node as int].children@.contains(
                            below[j].node,
                        );
                    assert(r[n + 1 + q] == below[q]);
                    assert(nodes[r[n + 1 + q].node as int].children@.contains(r[k].node));
                }
            }
        }
        assert forall|i: int| 0 <= i < list.len() implies exists|k: int|
            0 <= k < r.len() && (#[trigger] r[k]).node == #[trigger] list[i] && r[k].parent
                == parent by {
            if i < init.len() {
                assert(init[i] == list[i]);
                let k = choose|k: int|
                    0 <= k < before.len() && (#[trigger] before[k]).node == init[i]
                        && before[k].parent == parent;
                assert(r[k] == before[k]);
            } else {
                assert(r[n] == SpawnedNode { node, parent });
            }
        }
    }
}

/// Every child of a spawned node is spawned too, hanging from it.
pub proof fn law_children_are_spawned_with_their_parents(
    nodes: Seq<NodeInfo>,
    list: Seq<usize>,
    parent: Option<usize>,
    base: int,
    depth: nat,
    k: int,
    c: int,
)
    requires
        spawned(nodes, list, parent, base, depth) is Some,
        0 <= base,
        base + (spawned(nodes, list, parent, base, depth)->0).len() <= usize::MAX,
        0 <= k < (spawned(nodes, list, parent, base, depth)->0).len(),
        0 <= c < nodes[(spawned(nodes, list, parent, base, depth)->0)[k].node as int].children@.len(),
    ensures
        ({
            let r = spawned(nodes, list, parent, base, depth)->0;
            exists|j: int|
                k < j < r.len() && (#[trigger] r[j]).node == nodes[r[k].node as int].children@[c]
                    && r[j].parent == Some((base + k) as usize)
        }),
    decreases depth, list.len(),
{
    let r = spawned(nodes, list, parent, base, depth)->0;
    let init = list.drop_last();
    let node = list[list.len() - 1];
    let before = spawned(nodes, init, parent, base, depth)->0;
    let place = base + before.len();
    let children = nodes[node as int].children@;
    let below = spawned(nodes, children, Some(place as usize), place + 1, (depth - 1) as nat)->0;
    let n = before.len() as int;
    assert(r == before.push(SpawnedNode { node, parent }) + below);
    if k < n {
        assert(r[k] == before[k]);
        law_children_are_spawned_with_their_parents(nodes, init, parent, base, depth, k, c);
        let j = choose|j: int|
            k < j < before.len() && (#[trigger] before[j]).node
                == nodes[before[k].node as int].children@[c] && before[j].parent == Some(
                (base + k) as usize,
            );
        assert(r[j] == before[j]);
    } else if k == n {
        assert(r[n] == SpawnedNode { node, parent });
        law_nodes_hang_from_their_parents(
            nodes,
            children,
            Some(place as usize),
            place + 1,
            (depth - 1) as nat,
        );
        assert(children[c] == nodes[r[k].node as int].children@[c]);
        let j = choose|j: int|
            0 <= j < below.len() && (#[trigger] below[j]).node == children[c] && below[j].parent
                == Some(place as usize);
        assert(r[n + 1 + j] == below[j]);
    } else {
        let m = k - n - 1;
        assert(r[k] == below[m]);
        law_children_are_spawned_with_their_parents(
            nodes,
            children,
            Some(place as usize),
            place + 1,
            (depth - 1) as nat,
            m,
            c,
        );
        let j = choose|j: int|
            m < j < below.len() && (#[trigger] below[j]).node
                == nodes[below[m].node as int].children@[c] && below[j].parent == Some(
                (place + 1 + m) as usize,
            );
        assert(r[n + 1 + j] == below[j]);
    }
}

/// The models that the spawned nodes show, in their order.
pub open spec fn used_models(
    nodes: Seq<NodeInfo>,
    spawned: Seq<SpawnedNode>,
    models: Seq<u64>,
) -> Seq<u64>
    decreases spawned.len(),
{
    if spawned.len() == 0 {
        Seq::empty()
    } else {
        let before = used_models(nodes, spawned.drop_last(), models);
        match nodes[spawned.last().node as int].mesh {
            Some(mesh) => before.push(models[mesh as int]),
            None => before,
        }
    }
}

/// A scene shows the model of each spawned node that has a mesh, once for each
/// such node, and no other.
pub proof fn law_models_are_those_of_the_nodes(
    nodes: Seq<NodeInfo>,
    spawned: Seq<SpawnedNode>,
    models: Seq<u64>,
    model: u64,
)
    ensures
        used_models(nodes, spawned, models).to_multiset().count(model) == Seq::new(
            spawned.len(),
            |i: int| i,
        ).filter(
            |i: int|
                nodes[spawned[i].node as int].mesh is Some && models[nodes[spawned[
                    i
                ].node as int].mesh->0 as int] == model,
        ).len(),
    decreases spawned.len(),
{
    broadcast use vstd::seq_lib::group_to_multiset_ensures;

    let shows = |i: int|
        nodes[spawned[i].node as int].mesh is Some && models[nodes[spawned[
            i
        ].node as int].mesh->0 as int] == model;
    let places = Seq::new(spawned.len(), |i: int| i);
    reveal(Seq::filter);
    if spawned.len() > 0 {
        let init = spawned.drop_last();
        law_models_are_those_of_the_nodes(nodes, init, models, model);
        let shows_init = |i: int|
            nodes[init[i].node as int].mesh is Some && models[nodes[init[
                i
            ].node as int].mesh->0 as int] == model;
        let init_places = Seq::new(init.len(), |i: int| i);
        assert(places.drop_last() =~= init_places);
        lemma_filter_agrees(init_places, shows_init, shows);
    } else {
        assert(places =~= Seq::<int>::empty());
    }
}

proof fn lemma_filter_agrees(s: Seq<int>, a: spec_fn(int) -> bool, b: spec_fn(int) -> bool)
    requires
        forall|i: int| 0 <= i < s.len() ==> a(#[trigger] s[i]) == b(s[i]),
    ensures
        s.filter(a) == s.filter(b),
    decreases s.len(),
{
    reveal(Seq::filter);
    if s.len() > 0 {
        let init = s.drop_last();
        assert forall|i: int| 0 <= i < init.len() implies a(#[trigger] init[i]) == b(init[i]) by {
            assert(init[i] == s[i]);
        }
        lemma_filter_agrees(init, a, b);
        assert(a(s[s.len() - 1]) == b(s[s.len() - 1]));
    }
}

/// The scene of spawned nodes: `entities` are their entities, `models` those
/// of the meshes.
pub fn load_hierarchy(
    nodes: &Vec<NodeInfo>,
    order: &Vec<SpawnedNode>,
    entities: Vec<u64>,
    models: &Vec<u64>,
) -> (r: Scene)
    requires
        crate::gltf_scene::nodes_wf(nodes@, models@.len()),
        forall|i: int| 0 <= i < order@.len() ==> (#[trigger] order@[i]).node < nodes@.len(),
    ensures
        r.wf(),
        r.instances@.to_multiset() == entities@.to_multiset(),
        r.models@.to_multiset() == used_models(nodes@, order@, models@).to_multiset(),
{
    let mut used: Vec<u64> = Vec::new();
    let mut i: usize = 0;
    while i < order.len()
        invariant
            i <= order@.len(),
            crate::gltf_scene::nodes_wf(nodes@, models@.len()),
            forall|i: int| 0 <= i < order@.len() ==> (#[trigger] order@[i]).node < nodes@.len(),
            used@ == used_models(nodes@, order@.take(i as int), models@),
        decreases order@.len() - i,
    {
        let node: usize = order[i].node;
        assert(order@.take(i + 1).drop_last() =~= order@.take(i as int));
        match nodes[node].mesh {
            Some(mesh) => {
                assert(nodes@[node as int].mesh is Some);
                used.push(models[mesh]);
            },
            None => {},
        }
        i += 1;
    }
    assert(order@.take(i as int) =~= order@);
    Scene::new(used, entities)
}

/// The usage of the buffer that a view is read into; none for views that are
/// not read into a buffer of the device. Vertices are read by their address.
pub fn buffer_usage(action: &ReadAction) -> (r: Option<u32>)
    ensures
        r == (match *action {
            ReadAction::ToIndexBuffer { .. } => Some(vk::BUFFER_USAGE_INDEX_BUFFER),
            ReadAction::ToVertexBuffer { .. } => Some(
                vk::BUFFER_USAGE_STORAGE_BUFFER | vk::BUFFER_USAGE_SHADER_DEVICE_ADDRESS,
            ),
            _ => None,
        }),
{
    match action {
        ReadAction::ToIndexBuffer { .. } => Some(vk::BUFFER_USAGE_INDEX_BUFFER),
        ReadAction::ToVertexBuffer { .. } => Some(
            vk::BUFFER_USAGE_STORAGE_BUFFER | vk::BUFFER_USAGE_SHADER_DEVICE_ADDRESS,
        ),
        _ => None,
    }
}

/// The label of image `index`: its name, or its number where it has none.
pub fn image_label(image: &ImageInfo, index: usize) -> (r: String)
    ensures
        r@ == (match image.name {
            Some(name) => name@,
            None => "Image"@ + text::digits(index as nat, 10),
        }),
{
    match &image.name {
        Some(name) => name.clone(),
        None => {
            let mut label = "Image".to_owned();
            text::push_digits(&mut label, index as u64, 10);
            label
        },
    }
}

/// What the entity of a node gets: the model that it is an instance of, if it
/// has a mesh, and its transform.
pub fn node_to_bundle(node: &NodeInfo, models: &Vec<u64>) -> (r: (Option<u64>, NodeTransform))
    requires
        node.mesh matches Some(mesh) ==> mesh < models@.len(),
    ensures
        r.0 == (match node.mesh {
            Some(mesh) => Some(models@[mesh as int]),
            None => None,
        }),
        r.1 == node.transform,
{
    let model: Option<u64> = match node.mesh {
        Some(mesh) => Some(models[mesh]),
        None => None,
    };
    (model, node.transform)
}

} // verus!
