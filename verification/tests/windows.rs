//! Swapchains and user interfaces.

use pumicite::command::{Access, BufferRegion, Command, CommandEncoder, EncoderFeatures};
use pumicite::device::{extension, DeviceBuilder, QueueFamily};
use pumicite::egui::{
    collect_outputs, draw, enable_egui, record_draws, DrawSetup, EguiPlugin, EguiResources,
    ImageDelta, Mesh, PaintJob, TextureFilter, TextureOptions, TextureWrapMode, Vertex,
    DRAW_COMMANDS, DYNAMIC_RENDERING_FEATURES, SETUP_COMMANDS,
};
use pumicite::graphics::{Rect2D, Viewport};
use pumicite::names::NameMap;
use pumicite::physical_device::MissingFeatureError;
use pumicite::staging::{
    StagingBeltPlugin, BUFFER_DEVICE_ADDRESS, BUFFER_DEVICE_ADDRESS_FEATURES,
};
use pumicite::swapchain::{
    enable_swapchain, get_create_info, presented, windows_to_rebuild, Acquired,
    CompositeAlphaMode, Extent, PresentMode, ResizedWindow, SharingMode, SurfaceCapabilities,
    SurfaceFormat, SwapchainConfig, SwapchainImage, WindowInfo, SURFACE_MAINTENANCE1, SWAPCHAIN,
    SWAPCHAIN_MAINTENANCE1, SWAPCHAIN_MAINTENANCE1_FEATURES, SWAPCHAIN_MUTABLE_FORMAT,
};
use pumicite::version::Version;
use pumicite::vk;

fn extent(width: u32, height: u32) -> Extent {
    Extent { width, height }
}

fn capabilities() -> SurfaceCapabilities {
    SurfaceCapabilities {
        min_image_count: 2,
        max_image_count: 8,
        current_extent: extent(u32::MAX, u32::MAX),
        min_image_extent: extent(16, 16),
        max_image_extent: extent(1000, 500),
        supported_composite_alpha: vk::COMPOSITE_ALPHA_OPAQUE | vk::COMPOSITE_ALPHA_INHERIT,
    }
}

fn window(width: u32, height: u32) -> WindowInfo {
    WindowInfo {
        physical_size: extent(width, height),
        composite_alpha_mode: CompositeAlphaMode::Auto,
        present_mode: PresentMode::AutoVsync,
    }
}

const PREFERRED: SurfaceFormat = SurfaceFormat { format: 44, color_space: 0 };

#[test]
fn swapchains_are_configured() {
    let config = SwapchainConfig::default();
    let modes = [vk::PRESENT_MODE_FIFO];
    let info = get_create_info(
        &capabilities(),
        &modes,
        &window(2000, 10),
        &config,
        Some(PREFERRED),
    );
    assert_eq!(info.image_extent, extent(1000, 16));
    assert_eq!(info.min_image_count, 3);
    assert_eq!((info.image_format, info.image_color_space), (44, 0));
    assert_eq!(info.image_usage, vk::IMAGE_USAGE_COLOR_ATTACHMENT);
    assert_eq!(info.composite_alpha, vk::COMPOSITE_ALPHA_OPAQUE);
    assert_eq!(info.present_mode, vk::PRESENT_MODE_FIFO);
    assert!(info.clipped);
    assert!(matches!(info.image_sharing_mode, SharingMode::Exclusive));

    let mut c = capabilities();
    c.current_extent = extent(300, 200);
    c.max_image_count = 2;
    c.supported_composite_alpha = vk::COMPOSITE_ALPHA_INHERIT;
    let mut config = SwapchainConfig::default();
    config.image_format = Some(SurfaceFormat { format: 97, color_space: 3 });
    config.sharing_mode = SharingMode::Concurrent { queue_family_indices: vec![0, 2] };
    let info = get_create_info(&c, &modes, &window(2000, 10), &config, None);
    assert_eq!(info.image_extent, extent(300, 200));
    assert_eq!(info.min_image_count, 2);
    assert_eq!((info.image_format, info.image_color_space), (97, 3));
    assert_eq!(info.composite_alpha, vk::COMPOSITE_ALPHA_INHERIT);
    match info.image_sharing_mode {
        SharingMode::Concurrent { queue_family_indices } => {
            assert_eq!(queue_family_indices, vec![0, 2])
        }
        SharingMode::Exclusive => panic!("shared images were expected"),
    }
    c.max_image_count = 0;
    c.min_image_count = 5;
    let info = get_create_info(&c, &modes, &window(1, 1), &config, None);
    assert_eq!(info.min_image_count, 5);
}

fn mode(mode: PresentMode, supported: &[i32]) -> i32 {
    let mut w = window(64, 64);
    w.present_mode = mode;
    let config = SwapchainConfig::default();
    get_create_info(&capabilities(), supported, &w, &config, Some(PREFERRED)).present_mode
}

fn alpha(mode: CompositeAlphaMode) -> u32 {
    let mut w = window(64, 64);
    w.composite_alpha_mode = mode;
    let config = SwapchainConfig::default();
    get_create_info(&capabilities(), &[], &w, &config, Some(PREFERRED)).composite_alpha
}

#[test]
fn modes_are_chosen() {
    let all = [
        vk::PRESENT_MODE_IMMEDIATE,
        vk::PRESENT_MODE_MAILBOX,
        vk::PRESENT_MODE_FIFO,
        vk::PRESENT_MODE_FIFO_RELAXED,
    ];
    assert_eq!(mode(PresentMode::AutoVsync, &all), vk::PRESENT_MODE_FIFO_RELAXED);
    assert_eq!(mode(PresentMode::AutoNoVsync, &all), vk::PRESENT_MODE_IMMEDIATE);
    assert_eq!(mode(PresentMode::AutoNoVsync, &all[1..]), vk::PRESENT_MODE_MAILBOX);
    assert_eq!(mode(PresentMode::AutoNoVsync, &all[2..3]), vk::PRESENT_MODE_FIFO);
    assert_eq!(mode(PresentMode::AutoVsync, &all[..3]), vk::PRESENT_MODE_FIFO);
    assert_eq!(mode(PresentMode::Fifo, &[]), vk::PRESENT_MODE_FIFO);
    assert_eq!(mode(PresentMode::FifoRelaxed, &[]), vk::PRESENT_MODE_FIFO_RELAXED);
    assert_eq!(mode(PresentMode::Immediate, &[]), vk::PRESENT_MODE_IMMEDIATE);
    assert_eq!(mode(PresentMode::Mailbox, &[]), vk::PRESENT_MODE_MAILBOX);
    assert_eq!(alpha(CompositeAlphaMode::Opaque), vk::COMPOSITE_ALPHA_OPAQUE);
    assert_eq!(alpha(CompositeAlphaMode::PreMultiplied), vk::COMPOSITE_ALPHA_PRE_MULTIPLIED);
    assert_eq!(alpha(CompositeAlphaMode::PostMultiplied), vk::COMPOSITE_ALPHA_POST_MULTIPLIED);
    assert_eq!(alpha(CompositeAlphaMode::Inherit), vk::COMPOSITE_ALPHA_INHERIT);
}

#[test]
fn outdated_windows_are_rebuilt() {
    let resized = [
        ResizedWindow {
            window: 9,
            physical_size: extent(10, 10),
            swapchain: Some(extent(10, 20)),
        },
        ResizedWindow {
            window: 4,
            physical_size: extent(10, 10),
            swapchain: Some(extent(10, 10)),
        },
        ResizedWindow { window: 5, physical_size: extent(10, 10), swapchain: None },
        ResizedWindow {
            window: 2,
            physical_size: extent(10, 10),
            swapchain: Some(extent(20, 10)),
        },
    ];
    assert_eq!(windows_to_rebuild(&resized, &[7, 9]), vec![2, 7, 9]);
    assert!(windows_to_rebuild(&[], &[]).is_empty());
}

#[test]
fn images_are_acquired_and_presented() {
    let mut image: SwapchainImage<u32> = SwapchainImage::new();
    assert!(image.acquire_swapchain_image(Acquired::OutOfDate));
    assert_eq!(image.current_image(), None);
    assert!(!image.acquire_swapchain_image(Acquired::Image { image: 5, suboptimal: false }));
    assert_eq!(image.current_image(), Some(&5));
    assert_eq!(image.write_stages(), vk::PIPELINE_STAGE_2_ALL_COMMANDS);
    assert_eq!(image.present(), Some(5));
    assert_eq!(image.present(), None);
    assert!(image.acquire_swapchain_image(Acquired::Image { image: 6, suboptimal: true }));
    assert_eq!(presented(vk::RESULT_SUCCESS), Ok(false));
    assert_eq!(presented(vk::RESULT_SUBOPTIMAL_KHR), Ok(true));
    assert_eq!(presented(vk::RESULT_ERROR_OUT_OF_DATE_KHR), Ok(true));
    assert_eq!(
        presented(vk::RESULT_ERROR_OUT_OF_DEVICE_MEMORY),
        Err(vk::RESULT_ERROR_OUT_OF_DEVICE_MEMORY)
    );
}

fn builder(names: &[&str]) -> DeviceBuilder {
    let mut map: NameMap<Version> = NameMap::new();
    for n in names {
        map.insert(n.as_bytes().to_vec(), Version(1));
    }
    DeviceBuilder::empty(
        Version::new(0, 1, 2, 0),
        map,
        vec![QueueFamily { queue_flags: 1, queue_count: 1 }],
    )
}

#[test]
fn staging_needs_buffer_addresses() {
    assert_eq!(
        BUFFER_DEVICE_ADDRESS.as_bytes(),
        ash::khr::buffer_device_address::NAME.to_bytes()
    );
    assert_eq!(
        BUFFER_DEVICE_ADDRESS_FEATURES,
        ash::vk::StructureType::PHYSICAL_DEVICE_BUFFER_DEVICE_ADDRESS_FEATURES.as_raw()
    );
    let mut b = builder(&[]);
    assert!(StagingBeltPlugin::enable_features(&mut b, vec![1, 0, 0]).is_ok());
    let mut without = builder(&[]);
    assert!(matches!(
        StagingBeltPlugin::enable_features(&mut without, vec![0, 1, 1]),
        Err(e) if !matches!(e, MissingFeatureError::Extension(_))
    ));
    // Before it was part of Vulkan, the extension has to be enabled first.
    let mut early = DeviceBuilder::empty(Version::new(0, 1, 1, 0), NameMap::new(), Vec::new());
    assert!(matches!(
        StagingBeltPlugin::enable_features(&mut early, vec![1, 0, 0]),
        Err(MissingFeatureError::Extension(n)) if n == BUFFER_DEVICE_ADDRESS.as_bytes()
    ));
}

#[test]
fn swapchains_need_extensions() {
    let all = [
        SWAPCHAIN,
        SWAPCHAIN_MUTABLE_FORMAT,
        SWAPCHAIN_MAINTENANCE1,
        SURFACE_MAINTENANCE1,
    ];
    let mut b = builder(&all);
    assert!(matches!(enable_swapchain(&mut b, 1), Ok(true)));
    assert_eq!(b.enabled_extension_names().len(), 4);
    let mut off = builder(&all);
    assert!(matches!(enable_swapchain(&mut off, 0), Ok(false)));
    let mut few = builder(&all[..2]);
    assert!(matches!(enable_swapchain(&mut few, 1), Ok(false)));
    let mut fixed = builder(&all[..1]);
    assert!(matches!(
        enable_swapchain(&mut fixed, 1),
        Err(MissingFeatureError::Extension(n)) if n == SWAPCHAIN_MUTABLE_FORMAT.as_bytes()
    ));
    let mut none = builder(&[]);
    assert!(matches!(
        enable_swapchain(&mut none, 1),
        Err(MissingFeatureError::Extension(n)) if n == SWAPCHAIN.as_bytes()
    ));
    assert_eq!(SWAPCHAIN.as_bytes(), ash::khr::swapchain::NAME.to_bytes());
    assert_eq!(
        SWAPCHAIN_MUTABLE_FORMAT.as_bytes(),
        ash::khr::swapchain_mutable_format::NAME.to_bytes()
    );
    assert_eq!(
        SWAPCHAIN_MAINTENANCE1_FEATURES,
        ash::vk::StructureType::PHYSICAL_DEVICE_SWAPCHAIN_MAINTENANCE_1_FEATURES_EXT.as_raw()
    );
}

#[test]
fn interfaces_need_extensions() {
    assert!(EguiPlugin::default().linear_colorspace);
    assert_eq!(EguiPlugin::default().framebuffer_format, vk::FORMAT_B8G8R8A8_SRGB);
    let rendering = extension("VK_KHR_dynamic_rendering", Some(Version::new(0, 1, 3, 0)));
    let push = extension("VK_KHR_push_descriptor", None);
    let mut b = builder(&["VK_KHR_dynamic_rendering", "VK_KHR_push_descriptor"]);
    assert!(enable_egui(&mut b, &rendering, &push, 1).is_ok());
    assert_eq!(b.features.enabled_feature(DYNAMIC_RENDERING_FEATURES), Some(&vec![1]));
    let mut off = builder(&["VK_KHR_dynamic_rendering", "VK_KHR_push_descriptor"]);
    assert!(matches!(
        enable_egui(&mut off, &rendering, &push, 0),
        Err(MissingFeatureError::Feature)
    ));
    let mut none = builder(&["VK_KHR_dynamic_rendering"]);
    assert!(matches!(
        enable_egui(&mut none, &rendering, &push, 1),
        Err(MissingFeatureError::Extension(n)) if n == b"VK_KHR_push_descriptor"
    ));
    assert_eq!(
        DYNAMIC_RENDERING_FEATURES,
        ash::vk::StructureType::PHYSICAL_DEVICE_DYNAMIC_RENDERING_FEATURES.as_raw()
    );
}

fn options(mipmap_mode: Option<TextureFilter>) -> TextureOptions {
    TextureOptions {
        magnification: TextureFilter::Linear,
        minification: TextureFilter::Nearest,
        wrap_mode: TextureWrapMode::Repeat,
        mipmap_mode,
    }
}

fn delta(texture: u64, pos: Option<(u32, u32)>) -> ImageDelta {
    ImageDelta { texture, width: 4, height: 2, pos, options: options(None) }
}

#[test]
fn textures_are_created_once() {
    let mut resources = EguiResources::new();
    let plan = resources.prepare_image(&delta(3, None));
    let created = plan.create.unwrap();
    assert_eq!(created.format, vk::FORMAT_R8G8B8A8_UNORM);
    assert_eq!((created.width, created.height), (4, 2));
    let sampler = plan.sampler.unwrap();
    assert_eq!(sampler.mag_filter, vk::FILTER_LINEAR);
    assert_eq!(sampler.min_filter, vk::FILTER_NEAREST);
    assert_eq!(sampler.address_mode, vk::SAMPLER_ADDRESS_MODE_REPEAT);
    assert_eq!((plan.size, plan.x, plan.y), (32, 0, 0));
    let layouts = plan.layouts();
    assert_eq!(layouts.before.from, Access::Unused);
    assert_eq!(layouts.before.old_layout, vk::IMAGE_LAYOUT_UNDEFINED);
    assert_eq!(layouts.before.new_layout, vk::IMAGE_LAYOUT_TRANSFER_DST_OPTIMAL);
    assert_eq!(layouts.copy, vk::IMAGE_LAYOUT_TRANSFER_DST_OPTIMAL);
    assert_eq!(layouts.after.old_layout, vk::IMAGE_LAYOUT_TRANSFER_DST_OPTIMAL);
    assert_eq!(layouts.after.new_layout, vk::IMAGE_LAYOUT_SHADER_READ_ONLY_OPTIMAL);
    assert_eq!((layouts.before.discard, layouts.after.discard), (true, false));
    resources.note_image(&delta(3, None), 50, Some(60));
    let again = resources.prepare_image(&delta(3, Some((1, 2))));
    assert!(again.create.is_none());
    assert_eq!(again.layouts().before.from, Access::FragmentSampledRead);
    assert_eq!(
        again.layouts().before.old_layout,
        vk::IMAGE_LAYOUT_SHADER_READ_ONLY_OPTIMAL
    );
    assert!(again.sampler.is_none());
    assert_eq!((again.x, again.y), (1, 2));
    // Another texture with the same options shares the sampler.
    let other = resources.prepare_image(&delta(4, None));
    assert!(other.create.is_some());
    assert!(other.sampler.is_none());
    let mut mipmapped = delta(5, None);
    mipmapped.options = options(Some(TextureFilter::Linear));
    assert!(resources.prepare_image(&mipmapped).sampler.is_some());
}

fn mesh(texture: u64, indices: Vec<u32>, vertices: usize) -> PaintJob {
    let vertex = Vertex { pos: [0, 0], uv: [0, 0], color: [1, 2, 3, 4] };
    PaintJob::Mesh(Mesh {
        clip: Rect2D { x: 0, y: 0, width: texture as u32, height: 5 },
        texture,
        indices,
        vertices: vec![vertex; vertices],
    })
}

#[test]
fn meshes_are_drawn() {
    assert!(collect_outputs(&vec![]).is_none());
    let jobs = vec![mesh(3, vec![0, 1, 2], 3), mesh(4, vec![0, 1, 2, 2, 1, 3], 4)];
    let (indices, vertices) = collect_outputs(&jobs).unwrap();
    assert_eq!(indices, vec![0, 1, 2, 0, 1, 2, 2, 1, 3]);
    assert_eq!(vertices.len(), 7);
    let with_callback = vec![PaintJob::Callback, mesh(3, vec![0, 0, 0], 1)];
    assert_eq!(collect_outputs(&with_callback).unwrap().0, vec![0, 0, 0]);

    let mut resources = EguiResources::new();
    resources.note_image(&delta(3, None), 50, Some(60));
    resources.note_image(&delta(4, None), 51, None);
    let calls = draw(&resources, &jobs);
    assert_eq!(calls.len(), 2);
    assert_eq!((calls[0].indices.start, calls[0].indices.end), (0, 3));
    assert_eq!((calls[1].indices.start, calls[1].indices.end), (3, 9));
    assert_eq!((calls[0].vertex_offset, calls[1].vertex_offset), (0, 3));
    assert_eq!(calls[1].descriptor.image_view, 51);
    assert_eq!(calls[1].descriptor.sampler, 60);
    assert_eq!(calls[1].scissor.width, 4);

    let mut encoder = CommandEncoder::new(EncoderFeatures {
        api_version: Version::new(0, 1, 2, 0),
        multi_draw: false,
        mesh_shader: false,
    });
    let mut pass = encoder.begin_rendering().begin();
    let setup = DrawSetup {
        pipeline: 1,
        layout: 2,
        vertex_buffer: BufferRegion { buffer: 10, offset: 64, size: 70 },
        index_buffer: BufferRegion { buffer: 11, offset: 128, size: 36 },
        viewport: Viewport { x: 0, y: 0, width: 7, height: 8, min_depth: 0, max_depth: 9 },
        width: 5,
        height: 6,
    };
    record_draws(&mut pass, &setup, &calls);
    let commands = &encoder.commands[1..];
    assert_eq!(commands.len(), SETUP_COMMANDS + 2 * DRAW_COMMANDS);
    assert!(matches!(commands[0], Command::BindPipeline(1)));
    assert!(matches!(
        &commands[1],
        Command::BindVertexBuffers { first_binding: 0, handles, offsets, sizes: None }
            if *handles == [10] && *offsets == [64]
    ));
    assert!(matches!(
        commands[2],
        Command::BindIndexBuffer { buffer: 11, offset: 128, index_type: vk::INDEX_TYPE_UINT32 }
    ));
    assert!(matches!(
        &commands[3],
        Command::SetViewport { first: 0, viewports } if viewports.len() == 1 && viewports[0].width == 7
    ));
    assert!(matches!(
        &commands[4],
        Command::PushConstants { layout: 2, stages: 1, offset: 0, words } if *words == [5, 6]
    ));
    assert!(matches!(
        &commands[8],
        Command::SetScissor { first: 0, scissors } if scissors[0].width == 4
    ));
    assert!(matches!(
        &commands[9],
        Command::PushDescriptorSet { layout: 2, set: 0, writes } if writes[0].image_view == 51
    ));
    assert!(matches!(
        commands[10],
        Command::DrawIndexed {
            index_count: 6,
            instance_count: 1,
            first_index: 3,
            vertex_offset: 3,
            first_instance: 0,
        }
    ));
}
