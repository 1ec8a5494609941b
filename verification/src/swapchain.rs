//! Swapchains: how they are created, when they are created anew, and which
//! image is being rendered to.

use crate::device::extension;
use crate::device::DeviceBuilder;
use crate::physical_device;
use crate::physical_device::MissingFeatureError;
use crate::vk;
use vstd::prelude::*;
use vstd::string::*;

verus! {

/// A width and a height in pixels.
#[derive(Debug, Clone, Copy, PartialEq, Eq, Structural)]
pub struct Extent {
    pub width: u32,
    pub height: u32,
}

/// The smaller width and the smaller height.
fn smaller(a: Extent, b: Extent) -> (r: Extent)
    ensures
        r.width == if a.width < b.width {
            a.width
        } else {
            b.width
        },
        r.height == if a.height < b.height {
            a.height
        } else {
            b.height
        },
{
    Extent {
        width: if a.width < b.width {
            a.width
        } else {
            b.width
        },
        height: if a.height < b.height {
            a.height
        } else {
            b.height
        },
    }
}

/// The larger width and the larger height.
fn larger(a: Extent, b: Extent) -> (r: Extent)
    ensures
        r.width == if a.width > b.width {
            a.width
        } else {
            b.width
        },
        r.height == if a.height > b.height {
            a.height
        } else {
            b.height
        },
{
    Extent {
        width: if a.width > b.width {
            a.width
        } else {
            b.width
        },
        height: if a.height > b.height {
            a.height
        } else {
            b.height
        },
    }
}

// ---------------------------------------------------------------------------
// Creation
// ---------------------------------------------------------------------------

/// A format and how its colors are understood.
#[derive(Debug, Clone, Copy, PartialEq, Eq, Structural)]
pub struct SurfaceFormat {
    pub format: i32,
    pub color_space: i32,
}

/// The range of colors that is asked for where no format is given.
#[derive(Debug, Clone, Copy, PartialEq, Eq, Structural)]
pub enum SwapchainColorMode {
    SDR8Bit,
    /// Another range, by its number.
    Other(u32),
}

/// Which queue families use an image.
#[derive(Debug, PartialEq, Eq)]
pub enum SharingMode {
    Exclusive,
    Concurrent { queue_family_indices: Vec<u32> },
}

/// What a window asks of its swapchain.
pub struct SwapchainConfig {
    pub flags: u32,
    pub min_image_count: u32,
    /// With none, the best format for the color mode is taken.
    pub image_format: Option<SurfaceFormat>,
    pub image_array_layers: u32,
    pub image_usage: u32,
    pub required_feature_flags: u32,
    pub sharing_mode: SharingMode,
    pub pre_transform: u32,
    pub clipped: bool,
    pub color_mode: SwapchainColorMode,
    pub queue_family_index: u32,
}

impl Default for SwapchainConfig {
    fn default() -> (r: Self)
        ensures
            r == (SwapchainConfig {
                flags: 0,
                min_image_count: 3,
                image_format: None,
                image_array_layers: 1,
                image_usage: vk::IMAGE_USAGE_COLOR_ATTACHMENT,
                required_feature_flags: 0,
                sharing_mode: SharingMode::Exclusive,
                pre_transform: vk::SURFACE_TRANSFORM_IDENTITY,
                clipped: true,
                color_mode: SwapchainColorMode::SDR8Bit,
                queue_family_index: 0,
            }),
    {
        SwapchainConfig {
            flags: 0,
            min_image_count: 3,
            image_format: None,
            image_array_layers: 1,
            image_usage: vk::IMAGE_USAGE_COLOR_ATTACHMENT,
            required_feature_flags: 0,
            sharing_mode: SharingMode::Exclusive,
            pre_transform: vk::SURFACE_TRANSFORM_IDENTITY,
            clipped: true,
            color_mode: SwapchainColorMode::SDR8Bit,
            queue_family_index: 0,
        }
    }
}

/// How a window is laid over what is behind it.
#[derive(Debug, Clone, Copy, PartialEq, Eq, Structural)]
pub enum CompositeAlphaMode {
    Auto,
    Opaque,
    PreMultiplied,
    PostMultiplied,
    Inherit,
}

/// When a window shows a new image.
#[derive(Debug, Clone, Copy, PartialEq, Eq, Structural)]
pub enum PresentMode {
    AutoVsync,
    AutoNoVsync,
    Fifo,
    FifoRelaxed,
    Immediate,
    Mailbox,
}

/// A window.
#[derive(Debug, Clone, Copy, PartialEq, Eq, Structural)]
pub struct WindowInfo {
    pub physical_size: Extent,
    pub composite_alpha_mode: CompositeAlphaMode,
    pub present_mode: PresentMode,
}

/// What a surface can do.
#[derive(Debug, Clone, Copy, PartialEq, Eq, Structural)]
pub struct SurfaceCapabilities {
    pub min_image_count: u32,
    /// 0 where there is no limit.
    pub max_image_count: u32,
    pub current_extent: Extent,
    pub min_image_extent: Extent,
    pub max_image_extent: Extent,
    pub supported_composite_alpha: u32,
}

/// How a swapchain is created.
pub struct SwapchainCreateInfo {
    pub flags: u32,
    pub min_image_count: u32,
    pub image_format: i32,
    pub image_color_space: i32,
    pub image_extent: Extent,
    pub image_array_layers: u32,
    pub image_usage: u32,
    pub image_sharing_mode: SharingMode,
    pub pre_transform: u32,
    pub composite_alpha: u32,
    pub present_mode: i32,
    pub clipped: bool,
    pub queue_family_index: u32,
}

/// A number brought below an upper limit, then above a lower one.
pub open spec fn limited(n: u32, lower: u32, upper: u32) -> u32 {
    let below = if n < upper {
        n
    } else {
        upper
    };
    if below > lower {
        below
    } else {
        lower
    }
}

/// The size of the images: that of the surface, or of the window where the
/// surface leaves it open, within the limits of the surface.
pub open spec fn image_extent(c: SurfaceCapabilities, window: Extent) -> Extent {
    let wanted = if c.current_extent.width == u32::MAX && c.current_extent.height == u32::MAX {
        window
    } else {
        c.current_extent
    };
    Extent {
        width: limited(wanted.width, c.min_image_extent.width, c.max_image_extent.width),
        height: limited(wanted.height, c.min_image_extent.height, c.max_image_extent.height),
    }
}

/// The number of images: what is asked for, within the limits of the surface.
pub open spec fn image_count(c: SurfaceCapabilities, wanted: u32) -> u32 {
    let enough = if wanted > c.min_image_count {
        wanted
    } else {
        c.min_image_count
    };
    if c.max_image_count != 0 && enough > c.max_image_count {
        c.max_image_count
    } else {
        enough
    }
}

pub open spec fn composite_alpha(mode: CompositeAlphaMode, supported: u32) -> u32 {
    match mode {
        CompositeAlphaMode::Auto => if vk::contains(supported, vk::COMPOSITE_ALPHA_OPAQUE) {
            vk::COMPOSITE_ALPHA_OPAQUE
        } else {
            vk::COMPOSITE_ALPHA_INHERIT
        },
        CompositeAlphaMode::Opaque => vk::COMPOSITE_ALPHA_OPAQUE,
        CompositeAlphaMode::PreMultiplied => vk::COMPOSITE_ALPHA_PRE_MULTIPLIED,
        CompositeAlphaMode::PostMultiplied => vk::COMPOSITE_ALPHA_POST_MULTIPLIED,
        CompositeAlphaMode::Inherit => vk::COMPOSITE_ALPHA_INHERIT,
    }
}

pub open spec fn present_mode(mode: PresentMode, supported: Seq<i32>) -> i32 {
    match mode {
        PresentMode::AutoVsync => if supported.contains(vk::PRESENT_MODE_FIFO_RELAXED) {
            vk::PRESENT_MODE_FIFO_RELAXED
        } else {
            vk::PRESENT_MODE_FIFO
        },
        PresentMode::AutoNoVsync => if supported.contains(vk::PRESENT_MODE_IMMEDIATE) {
            vk::PRESENT_MODE_IMMEDIATE
        } else if supported.contains(vk::PRESENT_MODE_MAILBOX) {
            vk::PRESENT_MODE_MAILBOX
        } else {
            vk::PRESENT_MODE_FIFO
        },
        PresentMode::Fifo => vk::PRESENT_MODE_FIFO,
        PresentMode::FifoRelaxed => vk::PRESENT_MODE_FIFO_RELAXED,
        PresentMode::Immediate => vk::PRESENT_MODE_IMMEDIATE,
        PresentMode::Mailbox => vk::PRESENT_MODE_MAILBOX,
    }
}

fn supports(modes: &[i32], mode: i32) -> (r: bool)
    ensures
        r == modes@.contains(mode),
{
    let mut i: usize = 0;
    while i < modes.len()
        invariant
            i <= modes@.len(),
            forall|j: int| 0 <= j < i ==> modes@[j] != mode,
        decreases modes@.len() - i,
    {
        if modes[i] == mode {
            assert(modes@[i as int] == mode);
            return true;
        }
        i += 1;
    }
    false
}

pub open spec fn same_sharing(a: SharingMode, b: SharingMode) -> bool {
    match (a, b) {
        (SharingMode::Exclusive, SharingMode::Exclusive) => true,
        (
            SharingMode::Concurrent { queue_family_indices: x },
            SharingMode::Concurrent { queue_family_indices: y },
        ) => x@ == y@,
        _ => false,
    }
}

/// How the swapchain of a window is created. `preferred` is the format that
/// suits the color mode best, for windows that ask for none.
pub fn get_create_info(
    surface_capabilities: &SurfaceCapabilities,
    supported_present_modes: &[i32],
    window: &WindowInfo,
    config: &SwapchainConfig,
    preferred: Option<SurfaceFormat>,
) -> (r: SwapchainCreateInfo)
    requires
        config.image_format is Some || preferred is Some,
    ensures
        r.flags == config.flags,
        r.min_image_count == image_count(*surface_capabilities, config.min_image_count),
        ({
            let chosen = match config.image_format {
                Some(f) => f,
                None => preferred->0,
            };
            r.image_format == chosen.format && r.image_color_space == chosen.color_space
        }),
        r.image_extent == image_extent(*surface_capabilities, window.physical_size),
        r.image_array_layers == config.image_array_layers,
        r.image_usage == config.image_usage,
        same_sharing(r.image_sharing_mode, config.sharing_mode),
        r.pre_transform == config.pre_transform,
        r.composite_alpha == composite_alpha(
            window.composite_alpha_mode,
            surface_capabilities.supported_composite_alpha,
        ),
        r.present_mode == present_mode(window.present_mode, supported_present_modes@),
        r.clipped == config.clipped,
        r.queue_family_index == config.queue_family_index,
{
    let format: SurfaceFormat = match config.image_format {
        Some(f) => f,
        None => preferred.unwrap(),
    };
    let mut extent: Extent = surface_capabilities.current_extent;
    if extent.width == u32::MAX && extent.height == u32::MAX {
        extent = window.physical_size;
    }
    extent = smaller(extent, surface_capabilities.max_image_extent);
    extent = larger(extent, surface_capabilities.min_image_extent);
    let mut count: u32 = config.min_image_count;
    if count < surface_capabilities.min_image_count {
        count = surface_capabilities.min_image_count;
    }
    if surface_capabilities.max_image_count != 0 && count > surface_capabilities.max_image_count {
        count = surface_capabilities.max_image_count;
    }
    let sharing = match &config.sharing_mode {
        SharingMode::Exclusive => SharingMode::Exclusive,
        SharingMode::Concurrent { queue_family_indices } => {
            let mut copy: Vec<u32> = Vec::new();
            copy.extend_from_slice(queue_family_indices.as_slice());
            assert(copy@ =~= queue_family_indices@);
            SharingMode::Concurrent { queue_family_indices: copy }
        },
    };
    let alpha: u32 = match window.composite_alpha_mode {
        CompositeAlphaMode::Auto => {
            if vk::has_flags(
                surface_capabilities.supported_composite_alpha,
                vk::COMPOSITE_ALPHA_OPAQUE,
            ) {
                vk::COMPOSITE_ALPHA_OPAQUE
            } else {
                vk::COMPOSITE_ALPHA_INHERIT
            }
        },
        CompositeAlphaMode::Opaque => vk::COMPOSITE_ALPHA_OPAQUE,
        CompositeAlphaMode::PreMultiplied => vk::COMPOSITE_ALPHA_PRE_MULTIPLIED,
        CompositeAlphaMode::PostMultiplied => vk::COMPOSITE_ALPHA_POST_MULTIPLIED,
        CompositeAlphaMode::Inherit => vk::COMPOSITE_ALPHA_INHERIT,
    };
    let mode: i32 = match window.present_mode {
        PresentMode::AutoVsync => {
            if supports(supported_present_modes, vk::PRESENT_MODE_FIFO_RELAXED) {
                vk::PRESENT_MODE_FIFO_RELAXED
            } else {
                vk::PRESENT_MODE_FIFO
            }
        },
        PresentMode::AutoNoVsync => {
            if supports(supported_present_modes, vk::PRESENT_MODE_IMMEDIATE) {
                vk::PRESENT_MODE_IMMEDIATE
            } else if supports(supported_present_modes, vk::PRESENT_MODE_MAILBOX) {
                vk::PRESENT_MODE_MAILBOX
            } else {
                vk::PRESENT_MODE_FIFO
            }
        },
        PresentMode::Fifo => vk::PRESENT_MODE_FIFO,
        PresentMode::FifoRelaxed => vk::PRESENT_MODE_FIFO_RELAXED,
        PresentMode::Immediate => vk::PRESENT_MODE_IMMEDIATE,
        PresentMode::Mailbox => vk::PRESENT_MODE_MAILBOX,
    };
    SwapchainCreateInfo {
        flags: config.flags,
        min_image_count: count,
        image_format: format.format,
        image_color_space: format.color_space,
        image_extent: extent,
        image_array_layers: config.image_array_layers,
        image_usage: config.image_usage,
        image_sharing_mode: sharing,
        pre_transform: config.pre_transform,
        composite_alpha: alpha,
        present_mode: mode,
        clipped: config.clipped,
        queue_family_index: config.queue_family_index,
    }
}

/// The size and the number of images are within the limits of the surface.
pub proof fn law_images_are_within_limits(c: SurfaceCapabilities, window: Extent, wanted: u32)
    requires
        c.min_image_extent.width <= c.max_image_extent.width,
        c.min_image_extent.height <= c.max_image_extent.height,
        c.max_image_count == 0 || c.min_image_count <= c.max_image_count,
    ensures
        c.min_image_extent.width <= image_extent(c, window).width <= c.max_image_extent.width,
        c.min_image_extent.height <= image_extent(c, window).height <= c.max_image_extent.height,
        c.min_image_count <= image_count(c, wanted),
        c.max_image_count == 0 || image_count(c, wanted) <= c.max_image_count,
{
}

/// What is asked for is what there is, as far as the surface allows: images have
/// the size of the surface, or of the window where the surface leaves it open,
/// and there are as many as asked for.
pub proof fn law_wishes_within_limits_are_met(c: SurfaceCapabilities, window: Extent, wanted: u32)
    ensures
        ({
            let open = c.current_extent.width == u32::MAX && c.current_extent.height == u32::MAX;
            let r = image_extent(c, window);
            &&& !open && c.min_image_extent.width <= c.current_extent.width
                <= c.max_image_extent.width ==> r.width == c.current_extent.width
            &&& !open && c.min_image_extent.height <= c.current_extent.height
                <= c.max_image_extent.height ==> r.height == c.current_extent.height
            &&& open && c.min_image_extent.width <= window.width <= c.max_image_extent.width
                ==> r.width == window.width
            &&& open && c.min_image_extent.height <= window.height <= c.max_image_extent.height
                ==> r.height == window.height
            &&& open && window.width > c.max_image_extent.width >= c.min_image_extent.width
                ==> r.width == c.max_image_extent.width
            &&& open && window.height > c.max_image_extent.height >= c.min_image_extent.height
                ==> r.height == c.max_image_extent.height
            &&& open && window.width < c.min_image_extent.width ==> r.width
                == c.min_image_extent.width
            &&& open && window.height < c.min_image_extent.height ==> r.height
                == c.min_image_extent.height
        }),
        c.min_image_count <= wanted && (c.max_image_count == 0 || wanted <= c.max_image_count)
            ==> image_count(c, wanted) == wanted,
        wanted < c.min_image_count && (c.max_image_count == 0 || c.min_image_count
            <= c.max_image_count) ==> image_count(c, wanted) == c.min_image_count,
        c.max_image_count != 0 && wanted > c.max_image_count ==> image_count(c, wanted)
            == c.max_image_count,
{
}

/// A window that asks for a way of being laid over what is behind it, or for a
/// present mode, gets it. Left to choose, windows are opaque where they can be,
/// wait for the display but catch up where they can, and without waiting show
/// images at once rather than from a mailbox.
pub proof fn law_windows_get_the_modes_they_ask_for(supported_alpha: u32, supported: Seq<i32>)
    ensures
        composite_alpha(CompositeAlphaMode::Opaque, supported_alpha) == vk::COMPOSITE_ALPHA_OPAQUE,
        composite_alpha(CompositeAlphaMode::PreMultiplied, supported_alpha)
            == vk::COMPOSITE_ALPHA_PRE_MULTIPLIED,
        composite_alpha(CompositeAlphaMode::PostMultiplied, supported_alpha)
            == vk::COMPOSITE_ALPHA_POST_MULTIPLIED,
        composite_alpha(CompositeAlphaMode::Inherit, supported_alpha)
            == vk::COMPOSITE_ALPHA_INHERIT,
        supported_alpha & vk::COMPOSITE_ALPHA_OPAQUE == vk::COMPOSITE_ALPHA_OPAQUE
            ==> composite_alpha(CompositeAlphaMode::Auto, supported_alpha)
            == vk::COMPOSITE_ALPHA_OPAQUE,
        supported_alpha & vk::COMPOSITE_ALPHA_OPAQUE != vk::COMPOSITE_ALPHA_OPAQUE
            ==> composite_alpha(CompositeAlphaMode::Auto, supported_alpha)
            == vk::COMPOSITE_ALPHA_INHERIT,
        present_mode(PresentMode::Fifo, supported) == vk::PRESENT_MODE_FIFO,
        present_mode(PresentMode::FifoRelaxed, supported) == vk::PRESENT_MODE_FIFO_RELAXED,
        present_mode(PresentMode::Immediate, supported) == vk::PRESENT_MODE_IMMEDIATE,
        present_mode(PresentMode::Mailbox, supported) == vk::PRESENT_MODE_MAILBOX,
        supported.contains(vk::PRESENT_MODE_FIFO_RELAXED) <==> present_mode(
            PresentMode::AutoVsync,
            supported,
        ) == vk::PRESENT_MODE_FIFO_RELAXED,
        supported.contains(vk::PRESENT_MODE_IMMEDIATE) <==> present_mode(
            PresentMode::AutoNoVsync,
            supported,
        ) == vk::PRESENT_MODE_IMMEDIATE,
        !supported.contains(vk::PRESENT_MODE_IMMEDIATE) && supported.contains(
            vk::PRESENT_MODE_MAILBOX,
        ) ==> present_mode(PresentMode::AutoNoVsync, supported) == vk::PRESENT_MODE_MAILBOX,
{
}

/// Two ways of sharing images are the same where both are exclusive, or where
/// both name the same queue families in the same order.
pub proof fn law_sharing_is_compared_by_families(a: SharingMode, b: SharingMode)
    ensures
        same_sharing(a, b) ==> (a is Exclusive <==> b is Exclusive),
        a is Concurrent && same_sharing(a, b) ==> a->queue_family_indices@
            == b->queue_family_indices@,
        a is Exclusive && b is Exclusive ==> same_sharing(a, b),
        a is Concurrent && b is Concurrent && a->queue_family_indices@ == b->queue_family_indices@
            ==> same_sharing(a, b),
{
}

/// An automatic choice takes only present modes that are supported, where the
/// one that always is counts as such.
pub proof fn law_automatic_modes_are_supported(mode: PresentMode, supported: Seq<i32>)
    requires
        mode is AutoVsync || mode is AutoNoVsync,
    ensures
        supported.contains(present_mode(mode, supported)) || present_mode(mode, supported)
            == vk::PRESENT_MODE_FIFO,
{
}

// ---------------------------------------------------------------------------
// Recreation
// ---------------------------------------------------------------------------

/// A window that was resized: its size, and that of its swapchain if it has
/// one.
#[derive(Debug, Clone, Copy, PartialEq, Eq)]
pub struct ResizedWindow {
    pub window: u64,
    pub physical_size: Extent,
    pub swapchain: Option<Extent>,
}

/// The swapchain of a resized window does not fit any more.
pub open spec fn is_outdated(w: ResizedWindow) -> bool {
    w.swapchain matches Some(e) && e != w.physical_size
}

pub open spec fn is_increasing(list: Seq<u64>) -> bool {
    forall|i: int, j: int| 0 <= i < j < list.len() ==> list[i] < list[j]
}

/// A swapchain is outdated where its window has another width or another height;
/// a window without a swapchain has none that is.
pub proof fn law_outdated_swapchains_have_another_size(w: ResizedWindow)
    ensures
        is_outdated(w) <==> w.swapchain is Some && (w.swapchain->0.width != w.physical_size.width
            || w.swapchain->0.height != w.physical_size.height),
{
}

fn insert_sorted(list: &mut Vec<u64>, item: u64)
    requires
        is_increasing(old(list)@),
    ensures
        is_increasing(final(list)@),
        forall|x: u64| #[trigger]
            final(list)@.contains(x) <==> old(list)@.contains(x) || x == item,
{
    let ghost before = list@;
    let mut i: usize = 0;
    while i < list.len() && list[i] < item
        invariant
            i <= list@.len(),
            list@ == before,
            is_increasing(before),
            forall|j: int| 0 <= j < i ==> before[j] < item,
        decreases list@.len() - i,
    {
        i += 1;
    }
    if i < list.len() && list[i] == item {
        assert(before[i as int] == item);
        return;
    }
    list.insert(i, item);
    proof {
        let after = list@;
        assert forall|a: int, b: int| 0 <= a < b < after.len() implies after[a] < after[b] by {
            if a < i && b < i {
                assert(before[a] < before[b]);
            } else if a < i && b > i {
                assert(before[a] < before[b - 1]);
            } else if a > i {
                assert(before[a - 1] < before[b - 1]);
            } else if a == i {
                assert(before[i as int] > item);
                if b - 1 > i {
                    assert(before[i as int] < before[b - 1]);
                }
            }
        }
        assert forall|x: u64| #[trigger] after.contains(x) <==> before.contains(x) || x == item by {
            if before.contains(x) {
                let j = choose|j: int| 0 <= j < before.len() && before[j] == x;
                if j < i {
                    assert(after[j] == x);
                } else {
                    assert(after[j + 1] == x);
                }
            }
            if x == item {
                assert(after[i as int] == x);
            }
            if after.contains(x) {
                let j = choose|j: int| 0 <= j < after.len() && after[j] == x;
                if j < i {
                    assert(before[j] == x);
                } else if j > i {
                    assert(before[j - 1] == x);
                }
            }
        }
    }
}

/// The windows whose swapchains are created anew: those that were resized and
/// do not fit any more, and those that were reported, each once, in order.
pub fn windows_to_rebuild(resized: &[ResizedWindow], suboptimal: &[u64]) -> (r: Vec<u64>)
    ensures
        is_increasing(r@),
        forall|x: u64| #[trigger]
            r@.contains(x) <==> suboptimal@.contains(x) || exists|i: int|
                0 <= i < resized@.len() && is_outdated(#[trigger] resized@[i]) && resized@[i].window
                    == x,
{
    let mut windows: Vec<u64> = Vec::new();
    let mut i: usize = 0;
    while i < resized.len()
        invariant
            i <= resized@.len(),
            is_increasing(windows@),
            forall|x: u64| #[trigger]
                windows@.contains(x) <==> exists|j: int|
                    0 <= j < i && is_outdated(#[trigger] resized@[j]) && resized@[j].window == x,
        decreases resized@.len() - i,
    {
        let ghost before = windows@;
        let message: ResizedWindow = resized[i];
        assert(resized@[i as int] == message);
        if let Some(extent) = message.swapchain {
            if message.physical_size.height != extent.height || message.physical_size.width
                != extent.width {
                insert_sorted(&mut windows, message.window);
            }
        }
        assert forall|x: u64| #[trigger] windows@.contains(x) <==> exists|j: int|
            0 <= j < i + 1 && is_outdated(#[trigger] resized@[j]) && resized@[j].window == x by {
            assert(windows@.contains(x) <==> before.contains(x) || (is_outdated(
                resized@[i as int],
            ) && resized@[i as int].window == x));
        }
        i += 1;
    }
    let ghost outdated = windows@;
    let mut k: usize = 0;
    while k < suboptimal.len()
        invariant
            k <= suboptimal@.len(),
            is_increasing(windows@),
            forall|x: u64| #[trigger]
                windows@.contains(x) <==> outdated.contains(x) || exists|j: int|
                    0 <= j < k && #[trigger] suboptimal@[j] == x,
        decreases suboptimal@.len() - k,
    {
        let ghost before = windows@;
        insert_sorted(&mut windows, suboptimal[k]);
        assert forall|x: u64| #[trigger] windows@.contains(x) <==> outdated.contains(x) || exists|
            j: int,
        |
            0 <= j < k + 1 && #[trigger] suboptimal@[j] == x by {
            assert(windows@.contains(x) <==> before.contains(x) || x == suboptimal@[k as int]);
        }
        k += 1;
    }
    windows
}

// ---------------------------------------------------------------------------
// Images
// ---------------------------------------------------------------------------

/// The image of a swapchain that is being rendered to, and the pipeline stages
/// that the next use of it waits for.
pub struct SwapchainImage<I> {
    inner: Option<I>,
    write_stage: u64,
}

/// What came of acquiring an image.
pub enum Acquired<I> {
    /// An image; it may not fit the window any more.
    Image { image: I, suboptimal: bool },
    /// The swapchain has to be created anew.
    OutOfDate,
}

impl<I> SwapchainImage<I> {
    pub closed spec fn image(&self) -> Option<I> {
        self.inner
    }

    pub closed spec fn stage(&self) -> u64 {
        self.write_stage
    }

    /// No image is being rendered to.
    pub fn new() -> (r: Self)
        ensures
            r.image() is None,
            r.stage() == 0,
    {
        SwapchainImage { inner: None, write_stage: 0 }
    }

    /// The image that is being rendered to.
    pub fn current_image(&self) -> (r: Option<&I>)
        ensures
            r is Some <==> self.image() is Some,
            r matches Some(i) ==> self.image() == Some(*i),
    {
        self.inner.as_ref()
    }

    /// The pipeline stages that the next use of the image waits for.
    pub fn write_stages(&self) -> (r: u64)
        ensures
            r == self.stage(),
    {
        self.write_stage
    }

    /// Takes over the image that was acquired, and says whether the swapchain
    /// has to be created anew.
    pub fn acquire_swapchain_image(&mut self, acquired: Acquired<I>) -> (r: bool)
        requires
            old(self).image() is None,
        ensures
            match acquired {
                Acquired::Image { image, suboptimal } => {
                    &&& r == suboptimal
                    &&& final(self).image() == Some(image)
                    &&& final(self).stage() == vk::PIPELINE_STAGE_2_ALL_COMMANDS
                },
                Acquired::OutOfDate => r && *final(self) == *old(self),
            },
    {
        match acquired {
            Acquired::Image { image, suboptimal } => {
                self.inner = Some(image);
                self.write_stage = vk::PIPELINE_STAGE_2_ALL_COMMANDS;
                suboptimal
            },
            Acquired::OutOfDate => true,
        }
    }

    /// Hands out the image to be presented; with none, nothing is presented.
    pub fn present(&mut self) -> (r: Option<I>)
        ensures
            r == old(self).image(),
            final(self).image() is None,
            final(self).stage() == 0,
    {
        self.write_stage = 0;
        self.inner.take()
    }
}

/// Whether the swapchain has to be created anew, by the result code of
/// presenting an image; any other code is an error.
pub fn presented(result: i32) -> (r: Result<bool, i32>)
    ensures
        r == (if result == vk::RESULT_SUCCESS {
            Ok::<bool, i32>(false)
        } else if result == vk::RESULT_ERROR_OUT_OF_DATE_KHR || result
            == vk::RESULT_SUBOPTIMAL_KHR {
            Ok::<bool, i32>(true)
        } else {
            Err::<bool, i32>(result)
        }),
{
    if result == vk::RESULT_SUCCESS {
        Ok(false)
    } else if result == vk::RESULT_ERROR_OUT_OF_DATE_KHR || result == vk::RESULT_SUBOPTIMAL_KHR {
        Ok(true)
    } else {
        Err(result)
    }
}

// ---------------------------------------------------------------------------
// Extensions
// ---------------------------------------------------------------------------

pub const SWAPCHAIN: &'static str = "VK_KHR_swapchain";

pub const SURFACE_MAINTENANCE1: &'static str = "VK_KHR_surface_maintenance1";

pub const SWAPCHAIN_MUTABLE_FORMAT: &'static str = "VK_KHR_swapchain_mutable_format";

pub const SWAPCHAIN_MAINTENANCE1: &'static str = "VK_KHR_swapchain_maintenance1";

/// Structure type of the features of the maintenance extension.
pub const SWAPCHAIN_MAINTENANCE1_FEATURES: i32 = 1000275000;

/// `m` with an extension, where the device has it.
pub open spec fn with_available(b: DeviceBuilder, m: Map<Seq<u8>, bool>, name: &str) -> Map<
    Seq<u8>,
    bool,
> {
    if b.available_extensions@.contains_key(name.spec_bytes()) {
        m.insert(name.spec_bytes(), true)
    } else {
        m
    }
}

/// The device has the extension.
pub open spec fn has(b: DeviceBuilder, name: &str) -> bool {
    b.available_extensions@.contains_key(name.spec_bytes())
}

/// An extension is added where the device has it, and nothing else is changed.
pub proof fn law_extensions_are_added_where_available(
    b: DeviceBuilder,
    m: Map<Seq<u8>, bool>,
    name: &str,
    other: Seq<u8>,
)
    ensures
        b.available_extensions@.contains_key(name.spec_bytes()) ==> with_available(
            b,
            m,
            name,
        ).contains_key(name.spec_bytes()) && with_available(b, m, name)[name.spec_bytes()],
        !b.available_extensions@.contains_key(name.spec_bytes()) ==> with_available(b, m, name)
            == m,
        other != name.spec_bytes() ==> (with_available(b, m, name).contains_key(other)
            <==> m.contains_key(other)),
        other != name.spec_bytes() && m.contains_key(other) ==> with_available(b, m, name)[other]
            == m[other],
        has(b, name) <==> b.available_extensions@.contains_key(name.spec_bytes()),
{
}

/// Enables what swapchains need. Swapchains and formats that change are needed;
/// the maintenance extensions are taken where they are there. Says whether a
/// swapchain can be dropped without waiting, which takes the maintenance
/// extension and its feature (`reported`).
pub fn enable_swapchain(builder: &mut DeviceBuilder, reported: u32) -> (r: Result<
    bool,
    MissingFeatureError,
>)
    requires
        old(builder).wf(),
        old(builder).features.fits(SWAPCHAIN_MAINTENANCE1_FEATURES, 1),
    ensures
        final(builder).wf(),
        r is Ok <==> has(*old(builder), SWAPCHAIN) && has(*old(builder), SWAPCHAIN_MUTABLE_FORMAT),
        r matches Err(MissingFeatureError::Extension(name)) ==> name@ == (if has(
            *old(builder),
            SWAPCHAIN,
        ) {
            SWAPCHAIN_MUTABLE_FORMAT.spec_bytes()
        } else {
            SWAPCHAIN.spec_bytes()
        }),
        r matches Err(e) ==> e is Extension,
        r matches Ok(maintained) ==> {
            &&& maintained <==> has(*old(builder), SWAPCHAIN_MAINTENANCE1)
                && physical_device::flags_or(
                old(builder).features.available_features@,
                SWAPCHAIN_MAINTENANCE1_FEATURES,
                seq![reported],
            )[0] != vk::FALSE
            &&& final(builder).enabled_extensions@ == with_available(
                *old(builder),
                with_available(
                    *old(builder),
                    with_available(
                        *old(builder),
                        with_available(
                            *old(builder),
                            old(builder).enabled_extensions@,
                            SWAPCHAIN,
                        ),
                        SURFACE_MAINTENANCE1,
                    ),
                    SWAPCHAIN_MUTABLE_FORMAT,
                ),
                SWAPCHAIN_MAINTENANCE1,
            )
        },
        r matches Ok(true) ==> physical_device::flags_or(
            final(builder).features.enabled_features@,
            SWAPCHAIN_MAINTENANCE1_FEATURES,
            Seq::empty(),
        ) == physical_device::flags_or(
            old(builder).features.enabled_features@,
            SWAPCHAIN_MAINTENANCE1_FEATURES,
            physical_device::no_flags(1),
        ).update(0, vk::TRUE),
        !(r matches Ok(true)) ==> final(builder).features.enabled_features@
            == old(builder).features.enabled_features@,
        final(builder).available_extensions == old(builder).available_extensions,
        final(builder).queue_info == old(builder).queue_info,
{
    match builder.enable_extension(&extension(SWAPCHAIN, None)) {
        Ok(()) => {},
        Err(e) => {
            return Err(e);
        },
    }
    let _ = builder.enable_extension(&extension(SURFACE_MAINTENANCE1, None));
    match builder.enable_extension(&extension(SWAPCHAIN_MUTABLE_FORMAT, None)) {
        Ok(()) => {},
        Err(e) => {
            return Err(e);
        },
    }
    let maintenance = extension(SWAPCHAIN_MAINTENANCE1, None);
    match builder.enable_extension(&maintenance) {
        Ok(()) => {
            let mut flags: Vec<u32> = Vec::new();
            flags.push(reported);
            assert(flags@ =~= seq![reported]);
            match builder.enable_feature(
                &maintenance,
                SWAPCHAIN_MAINTENANCE1_FEATURES,
                0,
                flags,
            ) {
                Ok(()) => Ok(true),
                Err(_) => Ok(false),
            }
        },
        Err(_) => Ok(false),
    }
}

} // verus!
