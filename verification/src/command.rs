//! Recording of rendering commands.
//!
//! An encoder lists the commands that are recorded. Between the beginning and
//! the end of a render pass, draws are recorded through a [`RenderPass`].

use crate::graphics::Rect2D;
use crate::graphics::Viewport;
use crate::rtx::TraceRegions;
use crate::version;
use crate::version::Version;
use crate::vk;
use vstd::prelude::*;

verus! {

// ---------------------------------------------------------------------------
// Commands
// ---------------------------------------------------------------------------

/// What an attachment is cleared to; floats are given by their bit patterns.
#[derive(Debug, Clone, Copy, PartialEq, Eq)]
pub enum ClearValue {
    Float([u32; 4]),
    Uint([u32; 4]),
    Int([i32; 4]),
    DepthStencil { depth: u32, stencil: u32 },
}

/// Something that an attachment can be cleared to.
pub trait IntoClearValue: Sized {
    /// The value it stands for.
    spec fn clear_value(self) -> ClearValue;

    fn into_clear_value(self) -> (r: ClearValue)
        ensures
            r == self.clear_value(),
    ;
}

/// A color, by the bit patterns of its floats.
#[derive(Debug, Clone, Copy, PartialEq, Eq)]
pub struct FloatColor(pub [u32; 4]);

/// The bit pattern of a depth.
#[derive(Debug, Clone, Copy, PartialEq, Eq, Structural)]
pub struct Depth(pub u32);

/// A depth, by its bit pattern, and a stencil value.
#[derive(Debug, Clone, Copy, PartialEq, Eq, Structural)]
pub struct DepthStencil {
    pub depth: u32,
    pub stencil: u32,
}

impl IntoClearValue for FloatColor {
    open spec fn clear_value(self) -> ClearValue {
        ClearValue::Float(self.0)
    }

    fn into_clear_value(self) -> (r: ClearValue) {
        ClearValue::Float(self.0)
    }
}

impl IntoClearValue for [u32; 4] {
    open spec fn clear_value(self) -> ClearValue {
        ClearValue::Uint(self)
    }

    fn into_clear_value(self) -> (r: ClearValue) {
        ClearValue::Uint(self)
    }
}

impl IntoClearValue for [i32; 4] {
    open spec fn clear_value(self) -> ClearValue {
        ClearValue::Int(self)
    }

    fn into_clear_value(self) -> (r: ClearValue) {
        ClearValue::Int(self)
    }
}

impl IntoClearValue for DepthStencil {
    open spec fn clear_value(self) -> ClearValue {
        ClearValue::DepthStencil { depth: self.depth, stencil: self.stencil }
    }

    fn into_clear_value(self) -> (r: ClearValue) {
        ClearValue::DepthStencil { depth: self.depth, stencil: self.stencil }
    }
}

impl IntoClearValue for Depth {
    open spec fn clear_value(self) -> ClearValue {
        ClearValue::DepthStencil { depth: self.0, stencil: 0 }
    }

    fn into_clear_value(self) -> (r: ClearValue) {
        ClearValue::DepthStencil { depth: self.0, stencil: 0 }
    }
}

/// An attachment of a render pass.
#[derive(Debug, Clone, Copy, PartialEq, Eq)]
pub struct RenderingAttachmentInfo {
    /// The view that is rendered to, 0 for none.
    pub image_view: u64,
    pub image_layout: i32,
    pub resolve_mode: u32,
    pub resolve_image_view: u64,
    pub load_op: i32,
    pub store_op: i32,
    pub clear_value: ClearValue,
}

/// An attachment for which nothing has been chosen.
pub open spec fn unset_attachment() -> RenderingAttachmentInfo {
    RenderingAttachmentInfo {
        image_view: 0,
        image_layout: vk::IMAGE_LAYOUT_GENERAL,
        resolve_mode: 0,
        resolve_image_view: 0,
        load_op: vk::ATTACHMENT_LOAD_OP_DONT_CARE,
        store_op: vk::ATTACHMENT_STORE_OP_DONT_CARE,
        clear_value: ClearValue::Float([0, 0, 0, 0]),
    }
}

fn fresh_attachment() -> (r: RenderingAttachmentInfo)
    ensures
        r == unset_attachment(),
{
    let zero: [u32; 4] = [0, 0, 0, 0];
    assert(zero@ =~= [0u32, 0, 0, 0]@);
    RenderingAttachmentInfo {
        image_view: 0,
        image_layout: vk::IMAGE_LAYOUT_GENERAL,
        resolve_mode: 0,
        resolve_image_view: 0,
        load_op: vk::ATTACHMENT_LOAD_OP_DONT_CARE,
        store_op: vk::ATTACHMENT_STORE_OP_DONT_CARE,
        clear_value: ClearValue::Float([0, 0, 0, 0]),
    }
}

/// A render pass that begins.
pub struct RenderingInfo {
    pub render_area: Rect2D,
    pub layer_count: u32,
    pub view_mask: u32,
    pub color_attachments: Vec<RenderingAttachmentInfo>,
    pub depth_attachment: Option<RenderingAttachmentInfo>,
    pub stencil_attachment: Option<RenderingAttachmentInfo>,
}

/// A part of a buffer.
#[derive(Debug, Clone, Copy, PartialEq, Eq, Structural)]
pub struct BufferRegion {
    pub buffer: u64,
    pub offset: u64,
    pub size: u64,
}

/// One draw of several.
#[derive(Debug, Clone, Copy, PartialEq, Eq, Structural)]
pub struct MultiDrawInfo {
    pub first_vertex: u32,
    pub vertex_count: u32,
}

/// One indexed draw of several.
#[derive(Debug, Clone, Copy, PartialEq, Eq, Structural)]
pub struct MultiDrawIndexedInfo {
    pub first_index: u32,
    pub index_count: u32,
    pub vertex_offset: i32,
}

/// Draws whose parameters are read from a buffer.
#[derive(Debug, Clone, Copy, PartialEq, Eq, Structural)]
pub struct IndirectDraws {
    pub buffer: u64,
    pub offset: u64,
    pub draw_count: u32,
    pub stride: u32,
}

/// Draws whose parameters and whose number are read from buffers.
#[derive(Debug, Clone, Copy, PartialEq, Eq, Structural)]
pub struct CountedIndirectDraws {
    pub buffer: u64,
    pub offset: u64,
    pub count_buffer: u64,
    pub count_offset: u64,
    pub max_draw_count: u32,
    pub stride: u32,
}

/// An image and a sampler that shaders read.
#[derive(Debug, Clone, Copy, PartialEq, Eq, Structural)]
pub struct DescriptorWrite {
    pub binding: u32,
    pub descriptor_type: i32,
    pub image_view: u64,
    pub image_layout: i32,
    pub sampler: u64,
}

/// How a resource is accessed: one of the common ways, or in some stages with
/// some accesses.
#[derive(Debug, Clone, Copy, PartialEq, Eq, Structural)]
pub enum Access {
    /// Not at all.
    Unused,
    AllCommands,
    AccelerationStructureBuildRead,
    CopyWrite,
    FragmentSampledRead,
    Masks { stage: u64, access: u64 },
}

/// What is accessed `from` is done before what is accessed `to` starts.
#[derive(Debug, Clone, Copy, PartialEq, Eq, Structural)]
pub struct MemoryBarrier {
    pub from: Access,
    pub to: Access,
}

/// An image goes from one layout to another. Where its content is discarded, it
/// need not be kept.
#[derive(Debug, Clone, Copy, PartialEq, Eq, Structural)]
pub struct ImageTransition {
    pub from: Access,
    pub old_layout: i32,
    pub to: Access,
    pub new_layout: i32,
    pub discard: bool,
}

/// A recorded command.
pub enum Command {
    BeginRendering(RenderingInfo),
    EndRendering,
    BindPipeline(u64),
    /// Sizes are given where the device takes them.
    BindVertexBuffers {
        first_binding: u32,
        handles: Vec<u64>,
        offsets: Vec<u64>,
        sizes: Option<Vec<u64>>,
    },
    BindIndexBuffer { buffer: u64, offset: u64, index_type: i32 },
    SetViewport { first: u32, viewports: Vec<Viewport> },
    SetScissor { first: u32, scissors: Vec<Rect2D> },
    PushDescriptorSet { layout: u64, set: u32, writes: Vec<DescriptorWrite> },
    /// The words are passed to the stages as they lie in memory.
    PushConstants { layout: u64, stages: u32, offset: u32, words: Vec<u32> },
    /// The data, which lies among the commands, is copied to the buffer.
    UpdateBuffer { buffer: BufferRegion, data: Vec<u8> },
    Draw { vertex_count: u32, instance_count: u32, first_vertex: u32, first_instance: u32 },
    DrawIndexed {
        index_count: u32,
        instance_count: u32,
        first_index: u32,
        vertex_offset: i32,
        first_instance: u32,
    },
    DrawMulti { draws: Vec<MultiDrawInfo>, instance_count: u32, first_instance: u32 },
    /// With a shared offset, those of the single draws do not count.
    DrawMultiIndexed {
        indexed_draws: Vec<MultiDrawIndexedInfo>,
        instance_count: u32,
        first_instance: u32,
        shared_vertex_offset: Option<i32>,
    },
    DrawIndirect(IndirectDraws),
    DrawIndexedIndirect(IndirectDraws),
    DrawIndirectCount(CountedIndirectDraws),
    DrawIndexedIndirectCount(CountedIndirectDraws),
    DrawMeshTasks { x: u32, y: u32, z: u32 },
    DrawMeshTasksIndirect(IndirectDraws),
    DrawMeshTasksIndirectCount(CountedIndirectDraws),
    ResetQueryPool { pool: u64, first: u32, count: u32 },
    WriteAccelerationStructuresProperties {
        structures: Vec<u64>,
        ty: i32,
        pool: u64,
        first: u32,
    },
    TraceRays { regions: TraceRegions, x: u32, y: u32, z: u32 },
    /// Opens a labelled region for debuggers. The color is that of the bits.
    BeginLabel { name: String, color: [u32; 4] },
    /// Closes the labelled region that was opened last.
    EndLabel,
}

// ---------------------------------------------------------------------------
// Encoder
// ---------------------------------------------------------------------------

/// Whether a render pass is open, and on which pixels.
#[derive(Debug, Clone, Copy, PartialEq, Eq, Structural)]
pub enum CommandEncoderRenderPassState {
    OutsideRenderPass,
    InsideRenderPass { render_area: Rect2D },
}

/// What the device that commands are recorded for can do.
#[derive(Debug, Clone, Copy, PartialEq, Eq, Structural)]
pub struct EncoderFeatures {
    pub api_version: Version,
    pub multi_draw: bool,
    pub mesh_shader: bool,
}

/// Records commands.
pub struct CommandEncoder {
    pub commands: Vec<Command>,
    pub state: CommandEncoderRenderPassState,
    pub features: EncoderFeatures,
}

/// One more command was recorded.
pub open spec fn recorded(before: Seq<Command>, after: Seq<Command>) -> bool {
    &&& after.len() == before.len() + 1
    &&& after.drop_last() == before
}

impl CommandEncoder {
    /// An encoder without commands, outside of render passes.
    pub fn new(features: EncoderFeatures) -> (r: Self)
        ensures
            r.commands@ == Seq::<Command>::empty(),
            r.state is OutsideRenderPass,
            r.features == features,
    {
        CommandEncoder {
            commands: Vec::new(),
            state: CommandEncoderRenderPassState::OutsideRenderPass,
            features,
        }
    }

    /// Starts to configure a render pass, of one layer.
    pub fn begin_rendering(&mut self) -> (r: RenderPassBuilder<'_>)
        ensures
            *r.encoder == *old(self),
            *final(r.encoder) == *final(self),
            r.area == (Rect2D { x: 0, y: 0, width: 0, height: 0 }),
            r.layers == 1,
            r.views == 0,
            attachments(r.color) == Seq::<RenderingAttachmentInfo>::empty(),
            r.depth is None,
            r.stencil is None,
    {
        RenderPassBuilder {
            encoder: self,
            area: Rect2D { x: 0, y: 0, width: 0, height: 0 },
            layers: 1,
            views: 0,
            color: AttachmentList::empty(),
            depth: None,
            stencil: None,
        }
    }

    /// The render pass that is open, if one is.
    pub fn continue_rendering(&mut self) -> (r: Option<RenderPass<'_>>)
        ensures
            r is Some <==> old(self).state is InsideRenderPass,
            r matches Some(pass) ==> *pass.encoder == *old(self) && *final(pass.encoder) == *final(self),
            r is None ==> *final(self) == *old(self),
    {
        match self.state {
            CommandEncoderRenderPassState::InsideRenderPass { .. } => Some(
                RenderPass { encoder: self },
            ),
            CommandEncoderRenderPassState::OutsideRenderPass => None,
        }
    }

    /// Whether a render pass is open.
    pub fn render_pass_state(&self) -> (r: &CommandEncoderRenderPassState)
        ensures
            *r == self.state,
    {
        &self.state
    }

    /// Opens a labelled region for debuggers.
    pub fn begin_label(&mut self, name: String, color: [u32; 4])
        ensures
            recorded(old(self).commands@, final(self).commands@),
            final(self).commands@.last() == (Command::BeginLabel { name, color }),
            final(self).state == old(self).state,
            final(self).features == old(self).features,
    {
        self.commands.push(Command::BeginLabel { name, color });
        assert(self.commands@.drop_last() =~= old(self).commands@);
    }

    /// Closes the labelled region that was opened last.
    pub fn end_label(&mut self)
        ensures
            recorded(old(self).commands@, final(self).commands@),
            final(self).commands@.last() == Command::EndLabel,
            final(self).state == old(self).state,
            final(self).features == old(self).features,
    {
        self.commands.push(Command::EndLabel);
        assert(self.commands@.drop_last() =~= old(self).commands@);
    }

    /// Forgets the commands and leaves the render pass.
    pub fn reset(&mut self)
        ensures
            final(self).commands@ == Seq::<Command>::empty(),
            final(self).state is OutsideRenderPass,
            final(self).features == old(self).features,
    {
        self.commands = Vec::new();
        self.state = CommandEncoderRenderPassState::OutsideRenderPass;
    }
}

// ---------------------------------------------------------------------------
// Render pass
// ---------------------------------------------------------------------------

/// A short list of color attachments.
#[verifier::external_body]
pub struct AttachmentList {
    items: smallvec::SmallVec<[RenderingAttachmentInfo; 3]>,
}

/// The attachments that a list holds, in order.
pub uninterp spec fn attachments(list: AttachmentList) -> Seq<RenderingAttachmentInfo>;

impl AttachmentList {
    /// `smallvec::SmallVec::new`: a list without items.
    #[verifier::external_body]
    pub(crate) fn empty() -> (r: AttachmentList)
        ensures
            attachments(r) == Seq::<RenderingAttachmentInfo>::empty(),
    {
        AttachmentList { items: smallvec::SmallVec::new() }
    }

    /// `smallvec::SmallVec::len`: the number of items.
    #[verifier::external_body]
    pub(crate) fn count(&self) -> (r: usize)
        ensures
            r == attachments(*self).len(),
    {
        self.items.len()
    }

    /// `smallvec::SmallVec::push`: appends an item.
    #[verifier::external_body]
    pub(crate) fn append(&mut self, item: RenderingAttachmentInfo)
        ensures
            attachments(*final(self)) == attachments(*old(self)).push(item),
    {
        self.items.push(item)
    }

    /// Indexing of a `smallvec::SmallVec`: the item at a place.
    #[verifier::external_body]
    pub(crate) fn at(&self, i: usize) -> (r: RenderingAttachmentInfo)
        requires
            i < attachments(*self).len(),
        ensures
            r == attachments(*self)[i as int],
    {
        self.items[i]
    }

    /// Mutable indexing of a `smallvec::SmallVec`: a reference to the item at a
    /// place, through which that item alone can change.
    #[verifier::external_body]
    pub(crate) fn slot(&mut self, i: usize) -> (r: &mut RenderingAttachmentInfo)
        requires
            i < attachments(*old(self)).len(),
        ensures
            *r == attachments(*old(self))[i as int],
            attachments(*final(self)) == attachments(*old(self)).update(i as int, *final(r)),
    {
        &mut self.items[i]
    }
}

/// Configures a render pass.
pub struct RenderPassBuilder<'a> {
    pub encoder: &'a mut CommandEncoder,
    pub area: Rect2D,
    pub layers: u32,
    pub views: u32,
    pub color: AttachmentList,
    pub depth: Option<RenderingAttachmentInfo>,
    pub stencil: Option<RenderingAttachmentInfo>,
}

/// The attachments up to `index`, where the missing ones are not chosen.
pub open spec fn filled(list: Seq<RenderingAttachmentInfo>, index: int) -> Seq<
    RenderingAttachmentInfo,
> {
    if index < list.len() {
        list
    } else {
        list + Seq::new((index + 1 - list.len()) as nat, |i: int| unset_attachment())
    }
}

impl<'a> RenderPassBuilder<'a> {
    /// Opens the render pass. Every color attachment has a view.
    pub fn begin(self) -> (r: RenderPass<'a>)
        requires
            forall|i: int|
                0 <= i < attachments(self.color).len() ==> (#[trigger] attachments(
                    self.color,
                )[i]).image_view != 0,
        ensures
            recorded(old(self.encoder).commands@, r.encoder.commands@),
            r.encoder.commands@.last() matches Command::BeginRendering(info) && {
                &&& info.render_area == self.area
                &&& info.layer_count == self.layers
                &&& info.view_mask == self.views
                &&& info.color_attachments@ == attachments(self.color)
                &&& info.depth_attachment == self.depth
                &&& info.stencil_attachment == self.stencil
            },
            r.encoder.state == (CommandEncoderRenderPassState::InsideRenderPass {
                render_area: self.area,
            }),
            r.encoder.features == old(self.encoder).features,
            *final(r.encoder) == *final(self.encoder),
    {
        let mut color_attachments: Vec<RenderingAttachmentInfo> = Vec::new();
        let n: usize = self.color.count();
        while color_attachments.len() < n
            invariant
                n == attachments(self.color).len(),
                color_attachments@.len() <= n,
                color_attachments@ == attachments(self.color).take(color_attachments@.len() as int),
            decreases n - color_attachments@.len(),
        {
            color_attachments.push(self.color.at(color_attachments.len()));
            assert(color_attachments@ =~= attachments(self.color).take(
                color_attachments@.len() as int,
            ));
        }
        assert(color_attachments@ =~= attachments(self.color));
        let encoder = self.encoder;
        let ghost before = encoder.commands@;
        encoder.commands.push(
            Command::BeginRendering(
                RenderingInfo {
                    render_area: self.area,
                    layer_count: self.layers,
                    view_mask: self.views,
                    color_attachments,
                    depth_attachment: self.depth,
                    stencil_attachment: self.stencil,
                },
            ),
        );
        assert(encoder.commands@.drop_last() =~= before);
        encoder.state = CommandEncoderRenderPassState::InsideRenderPass { render_area: self.area };
        RenderPass { encoder }
    }

    /// Sets the pixels that are rendered to.
    pub fn render_area(self, x: i32, y: i32, width: u32, height: u32) -> (r: Self)
        ensures
            r == (RenderPassBuilder { area: Rect2D { x, y, width, height }, ..self }),
    {
        let mut r = self;
        r.area = Rect2D { x, y, width, height };
        r
    }

    /// Sets the number of layers that are rendered to where no views are given.
    pub fn layer_count(self, layer_count: u32) -> (r: Self)
        ensures
            r == (RenderPassBuilder { layers: layer_count, ..self }),
    {
        let mut r = self;
        r.layers = layer_count;
        r
    }

    /// Sets the views that are rendered to, one bit for each.
    pub fn view_mask(self, view_mask: u32) -> (r: Self)
        ensures
            r == (RenderPassBuilder { views: view_mask, ..self }),
    {
        let mut r = self;
        r.views = view_mask;
        r
    }

    /// Configures the depth attachment.
    pub fn depth_attachment(&mut self) -> (r: RenderPassAttachmentBuilder<'_>)
        ensures
            *r.attachment == (match old(self).depth {
                Some(a) => a,
                None => unset_attachment(),
            }),
            final(self).depth == Some(*final(r.attachment)),
            *final(self) == (RenderPassBuilder { depth: final(self).depth, ..*old(self) }),
    {
        if self.depth.is_none() {
            self.depth = Some(fresh_attachment());
        }
        match &mut self.depth {
            Some(attachment) => RenderPassAttachmentBuilder { attachment },
            None => vstd::pervasive::unreached(),
        }
    }

    /// Configures the stencil attachment.
    pub fn stencil_attachment(&mut self) -> (r: RenderPassAttachmentBuilder<'_>)
        ensures
            *r.attachment == (match old(self).stencil {
                Some(a) => a,
                None => unset_attachment(),
            }),
            final(self).stencil == Some(*final(r.attachment)),
            *final(self) == (RenderPassBuilder { stencil: final(self).stencil, ..*old(self) }),
    {
        if self.stencil.is_none() {
            self.stencil = Some(fresh_attachment());
        }
        match &mut self.stencil {
            Some(attachment) => RenderPassAttachmentBuilder { attachment },
            None => vstd::pervasive::unreached(),
        }
    }

    /// Configures a color attachment; those before it that were not configured
    /// yet are left open.
    pub fn color_attachment(&mut self, index: u32) -> (r: RenderPassAttachmentBuilder<'_>)
        requires
            index < u32::MAX,
        ensures
            *r.attachment == filled(attachments(old(self).color), index as int)[index as int],
            attachments(final(self).color) == filled(
                attachments(old(self).color),
                index as int,
            ).update(index as int, *final(r.attachment)),
            *final(self) == (RenderPassBuilder { color: final(self).color, ..*old(self) }),
    {
        let ghost start = attachments(self.color);
        let mut n: usize = self.color.count();
        assert(start =~= start + Seq::new(0, |i: int| unset_attachment()));
        while n <= index as usize
            invariant
                n == attachments(self.color).len(),
                start.len() <= n,
                n <= index + 1 || n == start.len(),
                index < u32::MAX,
                attachments(self.color) == start + Seq::new(
                    (n - start.len()) as nat,
                    |i: int| unset_attachment(),
                ),
                *self == (RenderPassBuilder { color: self.color, ..*old(self) }),
                start == attachments(old(self).color),
            decreases index + 1 - n,
        {
            self.color.append(fresh_attachment());
            n += 1;
            assert(attachments(self.color) =~= start + Seq::new(
                (n - start.len()) as nat,
                |i: int| unset_attachment(),
            ));
        }
        assert(attachments(self.color) =~= filled(start, index as int));
        RenderPassAttachmentBuilder { attachment: self.color.slot(index as usize) }
    }
}

/// Configures an attachment of a render pass.
pub struct RenderPassAttachmentBuilder<'t> {
    pub attachment: &'t mut RenderingAttachmentInfo,
}

impl<'t> RenderPassAttachmentBuilder<'t> {
    /// Sets the view that is rendered to.
    pub fn view(&mut self, image: u64)
        ensures
            *final(self).attachment == (RenderingAttachmentInfo {
                image_view: image,
                ..*old(self).attachment
            }),
            *final(final(self).attachment) == *final(old(self).attachment),
    {
        self.attachment.image_view = image;
    }

    /// Sets the layout that the image has during rendering.
    pub fn image_layout(&mut self, layout: i32)
        ensures
            *final(self).attachment == (RenderingAttachmentInfo {
                image_layout: layout,
                ..*old(self).attachment
            }),
            *final(final(self).attachment) == *final(old(self).attachment),
    {
        self.attachment.image_layout = layout;
    }

    /// Sets how several samples become one.
    pub fn resolve_mode(&mut self, resolve_mode: u32)
        ensures
            *final(self).attachment == (RenderingAttachmentInfo {
                resolve_mode,
                ..*old(self).attachment
            }),
            *final(final(self).attachment) == *final(old(self).attachment),
    {
        self.attachment.resolve_mode = resolve_mode;
    }

    /// Sets the view that several samples are resolved to.
    pub fn resolve_view(&mut self, image: u64)
        ensures
            *final(self).attachment == (RenderingAttachmentInfo {
                resolve_image_view: image,
                ..*old(self).attachment
            }),
            *final(final(self).attachment) == *final(old(self).attachment),
    {
        self.attachment.resolve_image_view = image;
    }

    /// Sets whether the contents from before are loaded.
    pub fn load(&mut self, should_load: bool)
        ensures
            *final(self).attachment == (RenderingAttachmentInfo {
                load_op: if should_load {
                    vk::ATTACHMENT_LOAD_OP_LOAD
                } else {
                    vk::ATTACHMENT_LOAD_OP_NONE_KHR
                },
                ..*old(self).attachment
            }),
            *final(final(self).attachment) == *final(old(self).attachment),
    {
        if should_load {
            self.attachment.load_op = vk::ATTACHMENT_LOAD_OP_LOAD;
        } else {
            self.attachment.load_op = vk::ATTACHMENT_LOAD_OP_NONE_KHR;
        }
    }

    /// Sets whether the contents are stored.
    pub fn store(&mut self, should_store: bool)
        ensures
            *final(self).attachment == (RenderingAttachmentInfo {
                store_op: if should_store {
                    vk::ATTACHMENT_STORE_OP_STORE
                } else {
                    vk::ATTACHMENT_STORE_OP_NONE
                },
                ..*old(self).attachment
            }),
            *final(final(self).attachment) == *final(old(self).attachment),
    {
        if should_store {
            self.attachment.store_op = vk::ATTACHMENT_STORE_OP_STORE;
        } else {
            self.attachment.store_op = vk::ATTACHMENT_STORE_OP_NONE;
        }
    }

    /// Clears the attachment when rendering begins.
    pub fn clear<C: IntoClearValue>(&mut self, clear_op: C)
        ensures
            *final(self).attachment == (RenderingAttachmentInfo {
                load_op: vk::ATTACHMENT_LOAD_OP_CLEAR,
                clear_value: clear_op.clear_value(),
                ..*old(self).attachment
            }),
            *final(final(self).attachment) == *final(old(self).attachment),
    {
        self.attachment.load_op = vk::ATTACHMENT_LOAD_OP_CLEAR;
        self.attachment.clear_value = clear_op.into_clear_value();
    }
}

/// An open render pass.
pub struct RenderPass<'a> {
    pub encoder: &'a mut CommandEncoder,
}

impl<'a> RenderPass<'a> {
    /// Binds a pipeline.
    pub fn bind_pipeline(&mut self, pipeline: u64)
        ensures
            final(self).encoder.commands@ == old(self).encoder.commands@.push(Command::BindPipeline(pipeline)),
            final(self).encoder.state == old(self).encoder.state,
            final(self).encoder.features == old(self).encoder.features,
            *final(final(self).encoder) == *final(old(self).encoder),
    {
        self.encoder.commands.push(Command::BindPipeline(pipeline));
    }

    /// Binds vertex buffers from a binding on. Their sizes are passed along on
    /// devices from version 1.3 on.
    pub fn bind_vertex_buffers(&mut self, first_binding: u32, buffers: &[BufferRegion])
        ensures
            recorded(old(self).encoder.commands@, final(self).encoder.commands@),
            final(self).encoder.commands@.last() matches Command::BindVertexBuffers {
                first_binding: first,
                handles,
                offsets,
                sizes,
            } && {
                &&& first == first_binding
                &&& handles@ == Seq::new(buffers@.len(), |i: int| buffers@[i].buffer)
                &&& offsets@ == Seq::new(buffers@.len(), |i: int| buffers@[i].offset)
                &&& sizes is Some <==> old(self).encoder.features.api_version.0
                    >= version::packed(0, 1, 3, 0)
                &&& sizes matches Some(s) ==> s@ == Seq::new(
                    buffers@.len(),
                    |i: int| buffers@[i].size,
                )
            },
            final(self).encoder.state == old(self).encoder.state,
            final(self).encoder.features == old(self).encoder.features,
            *final(final(self).encoder) == *final(old(self).encoder),
    {
        let mut handles: Vec<u64> = Vec::new();
        let mut offsets: Vec<u64> = Vec::new();
        let mut sizes: Vec<u64> = Vec::new();
        let mut i: usize = 0;
        while i < buffers.len()
            invariant
                i <= buffers@.len(),
                handles@ == Seq::new(i as nat, |i: int| buffers@[i].buffer),
                offsets@ == Seq::new(i as nat, |i: int| buffers@[i].offset),
                sizes@ == Seq::new(i as nat, |i: int| buffers@[i].size),
            decreases buffers@.len() - i,
        {
            let region: BufferRegion = buffers[i];
            handles.push(region.buffer);
            offsets.push(region.offset);
            sizes.push(region.size);
            i += 1;
            assert(handles@ =~= Seq::new(i as nat, |i: int| buffers@[i].buffer));
            assert(offsets@ =~= Seq::new(i as nat, |i: int| buffers@[i].offset));
            assert(sizes@ =~= Seq::new(i as nat, |i: int| buffers@[i].size));
        }
        let with_sizes = self.encoder.features.api_version.at_least(Version::new(0, 1, 3, 0));
        let ghost before = self.encoder.commands@;
        self.encoder.commands.push(
            Command::BindVertexBuffers {
                first_binding,
                handles,
                offsets,
                sizes: if with_sizes {
                    Some(sizes)
                } else {
                    None
                },
            },
        );
        assert(self.encoder.commands@.drop_last() =~= before);
    }

    /// Binds an index buffer, from an offset within it.
    pub fn bind_index_buffer(&mut self, buffer: BufferRegion, offset: u64, index_type: i32)
        requires
            buffer.offset + offset <= u64::MAX,
        ensures
            final(self).encoder.commands@ == old(self).encoder.commands@.push(
                Command::BindIndexBuffer {
                    buffer: buffer.buffer,
                    offset: (buffer.offset + offset) as u64,
                    index_type,
                },
            ),
            final(self).encoder.state == old(self).encoder.state,
            final(self).encoder.features == old(self).encoder.features,
            *final(final(self).encoder) == *final(old(self).encoder),
    {
        self.encoder.commands.push(
                Command::BindIndexBuffer {
                    buffer: buffer.buffer,
                    offset: buffer.offset + offset,
                    index_type,
                },
            );
    }

    /// Sets viewports.
    pub fn set_viewport(&mut self, first_viewport: u32, viewports: Vec<Viewport>)
        ensures
            final(self).encoder.commands@ == old(self).encoder.commands@.push(
                Command::SetViewport { first: first_viewport, viewports },
            ),
            final(self).encoder.state == old(self).encoder.state,
            final(self).encoder.features == old(self).encoder.features,
            *final(final(self).encoder) == *final(old(self).encoder),
    {
        self.encoder.commands.push(Command::SetViewport { first: first_viewport, viewports });
    }

    /// Sets the rectangles that draws are cut off at.
    pub fn set_scissor(&mut self, first_viewport: u32, scissors: Vec<Rect2D>)
        ensures
            final(self).encoder.commands@ == old(self).encoder.commands@.push(
                Command::SetScissor { first: first_viewport, scissors },
            ),
            final(self).encoder.state == old(self).encoder.state,
            final(self).encoder.features == old(self).encoder.features,
            *final(final(self).encoder) == *final(old(self).encoder),
    {
        self.encoder.commands.push(Command::SetScissor { first: first_viewport, scissors });
    }

    /// Passes descriptors along with the commands.
    pub fn push_descriptor_set(&mut self, layout: u64, set: u32, writes: Vec<DescriptorWrite>)
        ensures
            final(self).encoder.commands@ == old(self).encoder.commands@.push(
                Command::PushDescriptorSet { layout, set, writes },
            ),
            final(self).encoder.state == old(self).encoder.state,
            final(self).encoder.features == old(self).encoder.features,
            *final(final(self).encoder) == *final(old(self).encoder),
    {
        self.encoder.commands.push(Command::PushDescriptorSet { layout, set, writes });
    }

    /// Passes constants along with the commands.
    pub fn push_constants(&mut self, layout: u64, stages: u32, offset: u32, words: Vec<u32>)
        ensures
            final(self).encoder.commands@ == old(self).encoder.commands@.push(
                Command::PushConstants { layout, stages, offset, words },
            ),
            final(self).encoder.state == old(self).encoder.state,
            final(self).encoder.features == old(self).encoder.features,
            *final(final(self).encoder) == *final(old(self).encoder),
    {
        self.encoder.commands.push(Command::PushConstants { layout, stages, offset, words });
    }

    /// Draws the vertices of a range, for the instances of a range.
    pub fn draw(&mut self, vertices: IndexRange, instances: IndexRange)
        requires
            vertices.wf(),
            instances.wf(),
        ensures
            final(self).encoder.commands@ == old(self).encoder.commands@.push(
                draw_command(vertices, instances),
            ),
            final(self).encoder.state == old(self).encoder.state,
            final(self).encoder.features == old(self).encoder.features,
            *final(final(self).encoder) == *final(old(self).encoder),
    {
        self.encoder.commands.push(
            Command::Draw {
                vertex_count: vertices.end - vertices.start,
                instance_count: instances.end - instances.start,
                first_vertex: vertices.start,
                first_instance: instances.start,
            },
        );
    }

    /// Draws the vertices that the indices of a range name, for the instances
    /// of a range.
    pub fn draw_indexed(&mut self, indices: IndexRange, instances: IndexRange, vertex_offset: i32)
        requires
            indices.wf(),
            instances.wf(),
        ensures
            final(self).encoder.commands@ == old(self).encoder.commands@.push(
                draw_indexed_command(indices, instances, vertex_offset),
            ),
            final(self).encoder.state == old(self).encoder.state,
            final(self).encoder.features == old(self).encoder.features,
            *final(final(self).encoder) == *final(old(self).encoder),
    {
        self.encoder.commands.push(
            Command::DrawIndexed {
                index_count: indices.end - indices.start,
                instance_count: instances.end - instances.start,
                first_index: indices.start,
                vertex_offset,
                first_instance: instances.start,
            },
        );
    }

    /// Makes several draws: with one command where the device can, with one for
    /// each draw where it cannot.
    pub fn draw_multi(&mut self, draws: Vec<MultiDrawInfo>, instances: IndexRange)
        requires
            instances.wf(),
            forall|i: int|
                0 <= i < draws@.len() ==> (#[trigger] draws@[i]).first_vertex
                    + draws@[i].vertex_count <= u32::MAX,
        ensures
            final(self).encoder.commands@ == old(self).encoder.commands@ + if old(self).encoder.features.multi_draw {
                seq![
                    Command::DrawMulti {
                        draws,
                        instance_count: (instances.end - instances.start) as u32,
                        first_instance: instances.start,
                    },
                ]
            } else {
                Seq::new(
                    draws@.len(),
                    |i: int|
                        Command::Draw {
                            vertex_count: draws@[i].vertex_count,
                            instance_count: (instances.end - instances.start) as u32,
                            first_vertex: draws@[i].first_vertex,
                            first_instance: instances.start,
                        },
                )
            },
            final(self).encoder.state == old(self).encoder.state,
            final(self).encoder.features == old(self).encoder.features,
            *final(final(self).encoder) == *final(old(self).encoder),
    {
        let ghost before = self.encoder.commands@;
        if self.encoder.features.multi_draw {
            self.encoder.commands.push(
                Command::DrawMulti {
                    draws,
                    instance_count: instances.end - instances.start,
                    first_instance: instances.start,
                },
            );
            assert(self.encoder.commands@ =~= before + seq![
                Command::DrawMulti {
                    draws,
                    instance_count: (instances.end - instances.start) as u32,
                    first_instance: instances.start,
                },
            ]);
        } else {
            let ghost whole = Seq::new(
                draws@.len(),
                |i: int|
                    Command::Draw {
                        vertex_count: draws@[i].vertex_count,
                        instance_count: (instances.end - instances.start) as u32,
                        first_vertex: draws@[i].first_vertex,
                        first_instance: instances.start,
                    },
            );
            let mut i: usize = 0;
            assert(before =~= before + whole.take(0));
            while i < draws.len()
                invariant
                    i <= draws@.len(),
                    instances.wf(),
                    forall|i: int|
                        0 <= i < draws@.len() ==> (#[trigger] draws@[i]).first_vertex
                            + draws@[i].vertex_count <= u32::MAX,
                    whole == Seq::new(
                        draws@.len(),
                        |i: int|
                            Command::Draw {
                                vertex_count: draws@[i].vertex_count,
                                instance_count: (instances.end - instances.start) as u32,
                                first_vertex: draws@[i].first_vertex,
                                first_instance: instances.start,
                            },
                    ),
                    self.encoder.commands@ == before + whole.take(i as int),
                    self.encoder.state == old(self).encoder.state,
                    self.encoder.features == old(self).encoder.features,
                    *final(self.encoder) == *final(old(self).encoder),
                decreases draws@.len() - i,
            {
                let draw: MultiDrawInfo = draws[i];
                let end: u32 = draw.first_vertex + draw.vertex_count;
                self.draw(IndexRange { start: draw.first_vertex, end }, instances);
                i += 1;
                assert(before + whole.take(i as int) =~= (before + whole.take(i - 1)).push(
                    whole[i - 1],
                ));
            }
            assert(whole.take(i as int) =~= whole);
        }
    }

    /// Makes several indexed draws: with one command where the device can, with
    /// one for each draw where it cannot. With a shared offset, those of the
    /// single draws do not count.
    pub fn draw_multi_indexed(
        &mut self,
        draws: Vec<MultiDrawIndexedInfo>,
        instances: IndexRange,
        vertex_offsets: Option<i32>,
    )
        requires
            instances.wf(),
            forall|i: int|
                0 <= i < draws@.len() ==> (#[trigger] draws@[i]).first_index + draws@[i].index_count
                    <= u32::MAX,
        ensures
            final(self).encoder.commands@ == old(self).encoder.commands@ + if old(self).encoder.features.multi_draw {
                seq![
                    Command::DrawMultiIndexed {
                        indexed_draws: draws,
                        instance_count: (instances.end - instances.start) as u32,
                        first_instance: instances.start,
                        shared_vertex_offset: vertex_offsets,
                    },
                ]
            } else {
                Seq::new(
                    draws@.len(),
                    |i: int|
                        Command::DrawIndexed {
                            index_count: draws@[i].index_count,
                            instance_count: (instances.end - instances.start) as u32,
                            first_index: draws@[i].first_index,
                            vertex_offset: match vertex_offsets {
                                Some(shared) => shared,
                                None => draws@[i].vertex_offset,
                            },
                            first_instance: instances.start,
                        },
                )
            },
            final(self).encoder.state == old(self).encoder.state,
            final(self).encoder.features == old(self).encoder.features,
            *final(final(self).encoder) == *final(old(self).encoder),
    {
        let ghost before = self.encoder.commands@;
        if self.encoder.features.multi_draw {
            self.encoder.commands.push(
                Command::DrawMultiIndexed {
                    indexed_draws: draws,
                    instance_count: instances.end - instances.start,
                    first_instance: instances.start,
                    shared_vertex_offset: vertex_offsets,
                },
            );
            assert(self.encoder.commands@ =~= before + seq![
                Command::DrawMultiIndexed {
                    indexed_draws: draws,
                    instance_count: (instances.end - instances.start) as u32,
                    first_instance: instances.start,
                    shared_vertex_offset: vertex_offsets,
                },
            ]);
        } else {
            let ghost whole = Seq::new(
                draws@.len(),
                |i: int|
                    Command::DrawIndexed {
                        index_count: draws@[i].index_count,
                        instance_count: (instances.end - instances.start) as u32,
                        first_index: draws@[i].first_index,
                        vertex_offset: match vertex_offsets {
                            Some(shared) => shared,
                            None => draws@[i].vertex_offset,
                        },
                        first_instance: instances.start,
                    },
            );
            let mut i: usize = 0;
            assert(before =~= before + whole.take(0));
            while i < draws.len()
                invariant
                    i <= draws@.len(),
                    instances.wf(),
                    forall|i: int|
                        0 <= i < draws@.len() ==> (#[trigger] draws@[i]).first_index
                            + draws@[i].index_count <= u32::MAX,
                    whole == Seq::new(
                        draws@.len(),
                        |i: int|
                            Command::DrawIndexed {
                                index_count: draws@[i].index_count,
                                instance_count: (instances.end - instances.start) as u32,
                                first_index: draws@[i].first_index,
                                vertex_offset: match vertex_offsets {
                                    Some(shared) => shared,
                                    None => draws@[i].vertex_offset,
                                },
                                first_instance: instances.start,
                            },
                    ),
                    self.encoder.commands@ == before + whole.take(i as int),
                    self.encoder.state == old(self).encoder.state,
                    self.encoder.features == old(self).encoder.features,
                    *final(self.encoder) == *final(old(self).encoder),
                decreases draws@.len() - i,
            {
                let draw: MultiDrawIndexedInfo = draws[i];
                let end: u32 = draw.first_index + draw.index_count;
                let vertex_offset: i32 = match vertex_offsets {
                    Some(shared) => shared,
                    None => draw.vertex_offset,
                };
                self.draw_indexed(
                    IndexRange { start: draw.first_index, end },
                    instances,
                    vertex_offset,
                );
                i += 1;
                assert(before + whole.take(i as int) =~= (before + whole.take(i - 1)).push(
                    whole[i - 1],
                ));
            }
            assert(whole.take(i as int) =~= whole);
        }
    }

    /// Makes draws whose parameters are read from a buffer.
    pub fn draw_indirect(&mut self, indirect_buffer: BufferRegion, draw_count: u32, stride: u32)
        ensures
            final(self).encoder.commands@ == old(self).encoder.commands@.push(
                Command::DrawIndirect(
                    IndirectDraws {
                        buffer: indirect_buffer.buffer,
                        offset: indirect_buffer.offset,
                        draw_count,
                        stride,
                    },
                ),
            ),
            final(self).encoder.state == old(self).encoder.state,
            final(self).encoder.features == old(self).encoder.features,
            *final(final(self).encoder) == *final(old(self).encoder),
    {
        self.encoder.commands.push(
                Command::DrawIndirect(
                    IndirectDraws {
                        buffer: indirect_buffer.buffer,
                        offset: indirect_buffer.offset,
                        draw_count,
                        stride,
                    },
                ),
            );
    }

    /// Makes indexed draws whose parameters are read from a buffer.
    pub fn draw_indexed_indirect(&mut self, indirect_buffer: BufferRegion, draw_count: u32, stride: u32)
        ensures
            final(self).encoder.commands@ == old(self).encoder.commands@.push(
                Command::DrawIndexedIndirect(
                    IndirectDraws {
                        buffer: indirect_buffer.buffer,
                        offset: indirect_buffer.offset,
                        draw_count,
                        stride,
                    },
                ),
            ),
            final(self).encoder.state == old(self).encoder.state,
            final(self).encoder.features == old(self).encoder.features,
            *final(final(self).encoder) == *final(old(self).encoder),
    {
        self.encoder.commands.push(
                Command::DrawIndexedIndirect(
                    IndirectDraws {
                        buffer: indirect_buffer.buffer,
                        offset: indirect_buffer.offset,
                        draw_count,
                        stride,
                    },
                ),
            );
    }

    /// Makes draws whose parameters and number are read from buffers.
    pub fn draw_indirect_count(
        &mut self,
        indirect_buffer: BufferRegion,
        count_buffer: BufferRegion,
        max_draw_count: u32,
        stride: u32,
    )
        ensures
            final(self).encoder.commands@ == old(self).encoder.commands@.push(
                Command::DrawIndirectCount(
                    CountedIndirectDraws {
                        buffer: indirect_buffer.buffer,
                        offset: indirect_buffer.offset,
                        count_buffer: count_buffer.buffer,
                        count_offset: count_buffer.offset,
                        max_draw_count,
                        stride,
                    },
                ),
            ),
            final(self).encoder.state == old(self).encoder.state,
            final(self).encoder.features == old(self).encoder.features,
            *final(final(self).encoder) == *final(old(self).encoder),
    {
        self.encoder.commands.push(
                Command::DrawIndirectCount(
                    CountedIndirectDraws {
                        buffer: indirect_buffer.buffer,
                        offset: indirect_buffer.offset,
                        count_buffer: count_buffer.buffer,
                        count_offset: count_buffer.offset,
                        max_draw_count,
                        stride,
                    },
                ),
            );
    }

    /// Makes indexed draws whose parameters and number are read from buffers.
    pub fn draw_indexed_indirect_count(
        &mut self,
        indirect_buffer: BufferRegion,
        count_buffer: BufferRegion,
        max_draw_count: u32,
        stride: u32,
    )
        ensures
            final(self).encoder.commands@ == old(self).encoder.commands@.push(
                Command::DrawIndexedIndirectCount(
                    CountedIndirectDraws {
                        buffer: indirect_buffer.buffer,
                        offset: indirect_buffer.offset,
                        count_buffer: count_buffer.buffer,
                        count_offset: count_buffer.offset,
                        max_draw_count,
                        stride,
                    },
                ),
            ),
            final(self).encoder.state == old(self).encoder.state,
            final(self).encoder.features == old(self).encoder.features,
            *final(final(self).encoder) == *final(old(self).encoder),
    {
        self.encoder.commands.push(
                Command::DrawIndexedIndirectCount(
                    CountedIndirectDraws {
                        buffer: indirect_buffer.buffer,
                        offset: indirect_buffer.offset,
                        count_buffer: count_buffer.buffer,
                        count_offset: count_buffer.offset,
                        max_draw_count,
                        stride,
                    },
                ),
            );
    }

    /// Starts workgroups of a mesh shading pipeline.
    pub fn draw_mesh_tasks(&mut self, x: u32, y: u32, z: u32)
        requires
            old(self).encoder.features.mesh_shader,
        ensures
            final(self).encoder.commands@ == old(self).encoder.commands@.push(Command::DrawMeshTasks { x, y, z }),
            final(self).encoder.state == old(self).encoder.state,
            final(self).encoder.features == old(self).encoder.features,
            *final(final(self).encoder) == *final(old(self).encoder),
    {
        self.encoder.commands.push(Command::DrawMeshTasks { x, y, z });
    }

    /// Starts mesh shading work whose parameters are read from a buffer.
    pub fn draw_mesh_tasks_indirect(&mut self, indirect_buffer: BufferRegion, draw_count: u32, stride: u32)
        requires
            old(self).encoder.features.mesh_shader,
        ensures
            final(self).encoder.commands@ == old(self).encoder.commands@.push(
                Command::DrawMeshTasksIndirect(
                    IndirectDraws {
                        buffer: indirect_buffer.buffer,
                        offset: indirect_buffer.offset,
                        draw_count,
                        stride,
                    },
                ),
            ),
            final(self).encoder.state == old(self).encoder.state,
            final(self).encoder.features == old(self).encoder.features,
            *final(final(self).encoder) == *final(old(self).encoder),
    {
        self.encoder.commands.push(
                Command::DrawMeshTasksIndirect(
                    IndirectDraws {
                        buffer: indirect_buffer.buffer,
                        offset: indirect_buffer.offset,
                        draw_count,
                        stride,
                    },
                ),
            );
    }

    /// Starts mesh shading work whose parameters and number are read from
    /// buffers.
    pub fn draw_mesh_tasks_indirect_count(
        &mut self,
        indirect_buffer: BufferRegion,
        count_buffer: BufferRegion,
        max_draw_count: u32,
        stride: u32,
    )
        requires
            old(self).encoder.features.mesh_shader,
        ensures
            final(self).encoder.commands@ == old(self).encoder.commands@.push(
                Command::DrawMeshTasksIndirectCount(
                    CountedIndirectDraws {
                        buffer: indirect_buffer.buffer,
                        offset: indirect_buffer.offset,
                        count_buffer: count_buffer.buffer,
                        count_offset: count_buffer.offset,
                        max_draw_count,
                        stride,
                    },
                ),
            ),
            final(self).encoder.state == old(self).encoder.state,
            final(self).encoder.features == old(self).encoder.features,
            *final(final(self).encoder) == *final(old(self).encoder),
    {
        self.encoder.commands.push(
                Command::DrawMeshTasksIndirectCount(
                    CountedIndirectDraws {
                        buffer: indirect_buffer.buffer,
                        offset: indirect_buffer.offset,
                        count_buffer: count_buffer.buffer,
                        count_offset: count_buffer.offset,
                        max_draw_count,
                        stride,
                    },
                ),
            );
    }

    /// Closes the render pass.
    pub fn end(self)
        ensures
            final(self.encoder).commands@ == old(self.encoder).commands@.push(
                Command::EndRendering,
            ),
            final(self.encoder).state is OutsideRenderPass,
            final(self.encoder).features == old(self.encoder).features,
    {
        self.encoder.commands.push(Command::EndRendering);
        self.encoder.state = CommandEncoderRenderPassState::OutsideRenderPass;
    }

    /// The pixels that are rendered to.
    pub fn render_area(&self) -> (r: Rect2D)
        requires
            self.encoder.state is InsideRenderPass,
        ensures
            old(self.encoder).state == (CommandEncoderRenderPassState::InsideRenderPass {
                render_area: r,
            }),
    {
        match self.encoder.state {
            CommandEncoderRenderPassState::InsideRenderPass { render_area } => render_area,
            CommandEncoderRenderPassState::OutsideRenderPass => vstd::pervasive::unreached(),
        }
    }
}

/// The numbers from `start` up to, and without, `end`.
#[derive(Debug, Clone, Copy, PartialEq, Eq, Structural)]
pub struct IndexRange {
    pub start: u32,
    pub end: u32,
}

impl IndexRange {
    pub open spec fn wf(self) -> bool {
        self.start <= self.end
    }
}

pub open spec fn draw_command(vertices: IndexRange, instances: IndexRange) -> Command {
    Command::Draw {
        vertex_count: (vertices.end - vertices.start) as u32,
        instance_count: (instances.end - instances.start) as u32,
        first_vertex: vertices.start,
        first_instance: instances.start,
    }
}

pub open spec fn draw_indexed_command(
    indices: IndexRange,
    instances: IndexRange,
    vertex_offset: i32,
) -> Command {
    Command::DrawIndexed {
        index_count: (indices.end - indices.start) as u32,
        instance_count: (instances.end - instances.start) as u32,
        first_index: indices.start,
        vertex_offset,
        first_instance: instances.start,
    }
}

/// A draw takes the vertices and the instances of its ranges: from the first one
/// on as many as there are up to the end.
pub proof fn law_draws_take_their_ranges(
    vertices: IndexRange,
    instances: IndexRange,
    vertex_offset: i32,
)
    requires
        vertices.wf(),
        instances.wf(),
    ensures
        draw_command(vertices, instances) matches Command::Draw {
            vertex_count,
            instance_count,
            first_vertex,
            first_instance,
        } && first_vertex == vertices.start && first_vertex + vertex_count == vertices.end
            && first_instance == instances.start && first_instance + instance_count
            == instances.end,
        draw_indexed_command(vertices, instances, vertex_offset) matches Command::DrawIndexed {
            index_count,
            instance_count,
            first_index,
            vertex_offset: offset,
            first_instance,
        } && first_index == vertices.start && first_index + index_count == vertices.end
            && first_instance == instances.start && first_instance + instance_count == instances.end
            && offset == vertex_offset,
        vertices.wf() <==> vertices.start <= vertices.end,
{
}

/// A value to clear to keeps its components and their kind; a depth alone comes
/// with a stencil value of zero.
pub proof fn law_clear_values_are_kept(
    color: FloatColor,
    unsigned: [u32; 4],
    signed: [i32; 4],
    both: DepthStencil,
    depth: Depth,
)
    ensures
        color.clear_value() == ClearValue::Float(color.0),
        unsigned.clear_value() == ClearValue::Uint(unsigned),
        signed.clear_value() == ClearValue::Int(signed),
        both.clear_value() matches ClearValue::DepthStencil { depth: d, stencil } && d
            == both.depth && stencil == both.stencil,
        depth.clear_value() matches ClearValue::DepthStencil { depth: d, stencil } && d == depth.0
            && stencil == 0,
{
}

/// Choosing an attachment keeps those that were chosen. The ones that are skipped
/// have no view, and nothing is loaded, stored or resolved for them.
pub proof fn law_skipped_attachments_are_unset(
    list: Seq<RenderingAttachmentInfo>,
    index: int,
    i: int,
)
    requires
        0 <= index,
    ensures
        filled(list, index).len() > index,
        filled(list, index).len() == list.len() || filled(list, index).len() == index + 1,
        0 <= i < list.len() ==> filled(list, index)[i] == list[i],
        list.len() <= i <= index ==> {
            let a = filled(list, index)[i];
            &&& a.image_view == 0
            &&& a.resolve_image_view == 0
            &&& a.resolve_mode == 0
            &&& a.image_layout == vk::IMAGE_LAYOUT_GENERAL
            &&& a.load_op == vk::ATTACHMENT_LOAD_OP_DONT_CARE
            &&& a.store_op == vk::ATTACHMENT_STORE_OP_DONT_CARE
        },
{
}

/// Recording adds one command behind those that are there.
pub proof fn law_recording_appends(before: Seq<Command>, after: Seq<Command>, i: int)
    requires
        recorded(before, after),
        0 <= i < before.len(),
    ensures
        after.len() == before.len() + 1,
        after[i] == before[i],
{
    assert(after.drop_last()[i] == after[i]);
}

// ---------------------------------------------------------------------------
// Brackets
// ---------------------------------------------------------------------------

/// A render pass was opened by the commands, and not closed since.
pub open spec fn pass_is_open(commands: Seq<Command>) -> bool
    decreases commands.len(),
{
    if commands.len() == 0 {
        false
    } else {
        match commands.last() {
            Command::BeginRendering(_) => true,
            Command::EndRendering => false,
            _ => pass_is_open(commands.drop_last()),
        }
    }
}

/// The state of an encoder is that of its commands.
pub open spec fn is_consistent(encoder: CommandEncoder) -> bool {
    encoder.state is InsideRenderPass <==> pass_is_open(encoder.commands@)
}

/// What recording a command does to the state of an encoder: the two commands
/// for render passes open and close one, and no other command changes it.
pub open spec fn state_follows(
    before: CommandEncoderRenderPassState,
    command: Command,
    after: CommandEncoderRenderPassState,
) -> bool {
    match command {
        Command::BeginRendering(_) => after is InsideRenderPass,
        Command::EndRendering => after is OutsideRenderPass,
        _ => after == before,
    }
}

/// The state of an encoder always tells whether its commands leave a render
/// pass open: it does so for an encoder without commands, and each command
/// keeps it so.
pub proof fn law_states_follow_the_commands(before: CommandEncoder, after: CommandEncoder)
    ensures
        before.commands@.len() == 0 && before.state is OutsideRenderPass ==> is_consistent(before),
        is_consistent(before) && recorded(before.commands@, after.commands@) && state_follows(
            before.state,
            after.commands@.last(),
            after.state,
        ) ==> is_consistent(after),
{
}

} // verus!
