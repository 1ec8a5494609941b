//! Instances, devices, queues, and the settings of the application plugin.

use pumicite::align::{next_multiple_of, next_multiple_of_u32, next_multiple_of_usize};
use pumicite::bits::count_ones;
use pumicite::device::{
    create_system_default, device_extensions, extension, get_extension, has_default_features,
    has_extension_named,
    system_default_device, DeviceBuilder, DeviceQueueRef, QueueFamily, FULL_PRIORITY, PORTABILITY_SUBSET,
    SYNCHRONIZATION2, SYNCHRONIZATION2_FEATURES, TIMELINE_SEMAPHORE, TIMELINE_SEMAPHORE_FEATURES,
};
use pumicite::instance::{
    system_default_info, InstanceBuilder, InstanceCreateInfo, LayerProperties,
    PORTABILITY_ENUMERATION,
};
use pumicite::memory::{MemoryHeap, MemoryType};
use pumicite::names::{copy_name, order_names, NameMap, NameOrder};
use pumicite::physical_device::{
    image_format_properties, MemoryProperties, MissingFeatureError, PhysicalDeviceFeatureMap,
    PhysicalDeviceProperties,
};
use pumicite::plugin::{
    callback_device, default_queues, default_submission_sets, enable_optional_extensions,
    render_set_color,
    DefaultSet, DeviceTraits, DriverList, PhysicalDeviceSearchStrategy, Platform, PumicitePlugin,
    QueuePurpose, SetupPhase, SubmissionSetConfig, SubmissionSetRegistry,
    DEFERRED_HOST_OPERATIONS, DYNAMIC_RENDERING_LOCAL_READ, PRIORITY_LOW,
};
use pumicite::queue::{init_device_queue_with_caps, QueueConfiguration, QueueNotFoundError};
use pumicite::text::{
    contains_char, ends_with, last_segment, push_digits, str_eq, trim, white_space,
};
use pumicite::version::Version;
use pumicite::vk;

#[test]
fn numbers_are_rounded_up() {
    assert_eq!(next_multiple_of(0, 8), 0);
    assert_eq!(next_multiple_of(1, 8), 8);
    assert_eq!(next_multiple_of(16, 8), 16);
    assert_eq!(next_multiple_of_u32(33, 32), 64);
    assert_eq!(next_multiple_of_usize(5, 3), 6);
}

#[test]
fn bits_are_counted() {
    assert_eq!(count_ones(0), 0);
    assert_eq!(count_ones(0b1011), 3);
    assert_eq!(count_ones(u32::MAX), 32);
}

#[test]
fn texts_are_taken_apart() {
    assert!(str_eq("ab", "ab"));
    assert!(!str_eq("ab", "abc"));
    assert!(contains_char("a*b", '*'));
    assert!(!contains_char("ab", '*'));
    assert!(ends_with("comp.pipeline.ron", ".ron"));
    assert!(!ends_with("ron", ".ron"));
    assert_eq!(trim(" \t a b\u{3000}"), "a b");
    assert_eq!(trim("  "), "");
    assert_eq!(last_segment("bevy_pumicite::queue::RenderQueue"), "RenderQueue");
    assert_eq!(last_segment("RenderQueue"), "RenderQueue");
    assert_eq!(last_segment("a::"), "");
    assert_eq!(last_segment("a:::b"), ":b");
    assert_eq!(last_segment("a:::b"), "a:::b".split("::").last().unwrap());
    let mut out = String::from("n = ");
    push_digits(&mut out, 4294967295, 10);
    push_digits(&mut out, 0, 10);
    push_digits(&mut out, 0xab, 16);
    assert_eq!(out, "n = 42949672950ab");
}

#[test]
fn white_space_is_that_of_unicode() {
    for n in 0u32..=0x10FFFF {
        if let Some(c) = char::from_u32(n) {
            assert_eq!(white_space(c), c.is_whitespace(), "{n:x}");
        }
    }
}

#[test]
fn versions_are_packed() {
    let v = Version::new(0, 1, 3, 204);
    assert_eq!(v.0, ash::vk::make_api_version(0, 1, 3, 204));
    assert_eq!(v.major(), 1);
    assert_eq!(v.minor(), 3);
    assert!(v.at_least(Version::new(0, 1, 3, 0)));
    assert!(!v.at_least(Version::new(0, 1, 4, 0)));
    assert!(Version::new(0, 2, 0, 0).0 > Version::new(0, 1, 1023, 4095).0);
    assert_eq!(Version::default(), Version(0));
}

#[test]
fn names_are_kept_in_order() {
    assert_eq!(order_names(b"a", b"ab"), NameOrder::Before);
    assert_eq!(order_names(b"b", b"ab"), NameOrder::After);
    assert_eq!(order_names(b"ab", b"ab"), NameOrder::Same);
    let mut map: NameMap<u32> = NameMap::new();
    map.insert(copy_name(b"beta"), 2);
    map.insert(copy_name(b"alpha"), 1);
    map.insert(copy_name(b"beta"), 3);
    map.insert_if_absent(copy_name(b"alpha"), 9);
    map.insert_if_absent(copy_name(b"gamma"), 4);
    assert_eq!(
        map.entries,
        vec![(b"alpha".to_vec(), 1), (b"beta".to_vec(), 3), (b"gamma".to_vec(), 4)]
    );
    assert!(map.contains(b"gamma"));
    assert_eq!(map.get(b"beta"), Some(&3));
    assert_eq!(map.get(b"delta"), None);
}

fn named(names: &[&str]) -> NameMap<Version> {
    let mut map: NameMap<Version> = NameMap::new();
    for n in names {
        map.insert(n.as_bytes().to_vec(), Version(1));
    }
    map
}

fn families() -> Vec<QueueFamily> {
    vec![
        QueueFamily { queue_flags: 0b111, queue_count: 2 },
        QueueFamily { queue_flags: 0b100, queue_count: 1 },
        QueueFamily { queue_flags: 0b110, queue_count: 1 },
    ]
}

#[test]
fn extensions_are_enabled_where_they_are_there() {
    let mut b =
        DeviceBuilder::empty(Version::new(0, 1, 2, 0), named(&["VK_A", "VK_B"]), families());
    assert!(b.enable_extension(&extension("VK_A", None)).is_ok());
    assert!(b.enable_extension_named(b"VK_B").is_ok());
    assert!(matches!(
        b.enable_extension(&extension("VK_C", None)),
        Err(MissingFeatureError::Extension(n)) if n == b"VK_C"
    ));
    assert!(matches!(
        b.enable_extension_named(b"VK_C"),
        Err(MissingFeatureError::Extension(n)) if n == b"VK_C"
    ));
    // Part of the version of the device, so there is nothing to enable.
    assert!(b.enable_extension(&extension("VK_D", Some(Version::new(0, 1, 2, 0)))).is_ok());
    let names = b.enabled_extension_names();
    assert!(names.contains(&b"VK_A".as_slice()));
    assert!(names.contains(&b"VK_B".as_slice()));
    assert!(!names.contains(&b"VK_C".as_slice()));
}

#[test]
fn features_are_enabled_where_they_are_reported() {
    let mut b = DeviceBuilder::empty(Version::new(0, 1, 2, 0), named(&["VK_E"]), families());
    let core = extension("VK_CORE", Some(Version::new(0, 1, 2, 0)));
    assert!(b.enable_feature(&core, 10, 1, vec![0, 1]).is_ok());
    assert!(matches!(
        b.enable_feature(&core, 10, 0, vec![0, 1]),
        Err(MissingFeatureError::Feature)
    ));
    // The extension of a feature has to be enabled first.
    let e = extension("VK_E", Some(Version::new(0, 1, 3, 0)));
    assert!(matches!(
        b.enable_feature(&e, 12, 0, vec![1]),
        Err(MissingFeatureError::Extension(n)) if n == b"VK_E"
    ));
    assert_eq!(b.features.available_feature(12), None);
    assert!(b.enable_extension(&e).is_ok());
    assert!(b.enable_feature(&e, 12, 0, vec![1]).is_ok());
    assert_eq!(b.features.enabled_feature(10), Some(&vec![0, 1]));
    assert_eq!(b.features.available_feature(10), Some(&vec![0, 1]));
    assert_eq!(b.features.enabled_feature(11), None);

    let mut f = PhysicalDeviceFeatureMap::new();
    assert!(f.enable_feature(3, 0, vec![1, 1]).is_ok());
    // What was reported at first counts.
    assert!(f.enable_feature(3, 1, vec![0, 0]).is_ok());
    assert_eq!(f.enabled_feature(3), Some(&vec![1, 1]));
}

#[test]
fn devices_come_with_defaults() {
    let early = Version::new(0, 1, 1, 0);
    let available = || named(&[SYNCHRONIZATION2, TIMELINE_SEMAPHORE, PORTABILITY_SUBSET]);
    assert!(has_default_features(early, &available(), 1, 1));
    assert!(!has_default_features(early, &available(), 1, 0));
    assert!(!has_default_features(early, &named(&[SYNCHRONIZATION2]), 1, 1));
    assert!(has_default_features(Version::new(0, 1, 3, 0), &named(&[]), 1, 1));
    let b = DeviceBuilder::new(early, available(), families(), 1, 1, true);
    let names = b.enabled_extension_names();
    assert_eq!(
        names,
        vec![
            PORTABILITY_SUBSET.as_bytes(),
            SYNCHRONIZATION2.as_bytes(),
            TIMELINE_SEMAPHORE.as_bytes(),
        ]
    );
    assert_eq!(b.features.enabled_feature(SYNCHRONIZATION2_FEATURES), Some(&vec![1]));
    assert_eq!(b.features.enabled_feature(TIMELINE_SEMAPHORE_FEATURES), Some(&vec![1]));

    let mut none = DeviceBuilder::empty(Version::new(0, 1, 1, 0), named(&[]), families());
    assert!(matches!(none.enable_defaults(1, 1, false), Err(MissingFeatureError::Extension(_))));
    let mut off = DeviceBuilder::empty(Version::new(0, 1, 3, 0), named(&[]), families());
    assert!(matches!(off.enable_defaults(0, 1, false), Err(MissingFeatureError::Feature)));
    assert_eq!(
        SYNCHRONIZATION2_FEATURES,
        ash::vk::StructureType::PHYSICAL_DEVICE_SYNCHRONIZATION_2_FEATURES.as_raw()
    );
    assert_eq!(
        TIMELINE_SEMAPHORE_FEATURES,
        ash::vk::StructureType::PHYSICAL_DEVICE_TIMELINE_SEMAPHORE_FEATURES.as_raw()
    );
    assert_eq!(SYNCHRONIZATION2.as_bytes(), ash::khr::synchronization2::NAME.to_bytes());
    assert_eq!(TIMELINE_SEMAPHORE.as_bytes(), ash::khr::timeline_semaphore::NAME.to_bytes());
    assert_eq!(PORTABILITY_SUBSET.as_bytes(), ash::khr::portability_subset::NAME.to_bytes());
    assert_eq!(
        PORTABILITY_ENUMERATION.as_bytes(),
        ash::khr::portability_enumeration::NAME.to_bytes()
    );
}

#[test]
fn queues_are_handed_out() {
    let mut b = DeviceBuilder::empty(Version::new(0, 1, 3, 0), named(&[]), families());
    // The least able family that can do it.
    assert_eq!(
        b.enable_queue_with_caps(0b100, 5),
        Some(DeviceQueueRef { family: 1, index: 0, flags: 0b100 })
    );
    assert_eq!(
        b.enable_queue_with_caps(0b100, 6),
        Some(DeviceQueueRef { family: 2, index: 0, flags: 0b110 })
    );
    assert_eq!(
        b.enable_queue_with_caps(0b100, 7),
        Some(DeviceQueueRef { family: 0, index: 0, flags: 0b111 })
    );
    assert_eq!(b.enable_queue_with_caps(0b1000, 8), None);
    let last = b.enable_queue(0, 9).unwrap();
    assert_eq!(last.family_index(), 0);
    assert_eq!(last.index, 1);
    assert_eq!(last.flags(), 0b111);
    assert_eq!(b.enable_queue(0, 9), None);
    let infos = b.queue_create_infos();
    let infos: Vec<(u32, Vec<u32>)> = infos.into_iter().map(|i| (i.family, i.priorities)).collect();
    assert_eq!(infos, vec![(0, vec![7, 9]), (1, vec![5]), (2, vec![6])]);
}

#[test]
fn the_default_device_has_one_queue() {
    let mut b = DeviceBuilder::empty(Version::new(0, 1, 2, 0), named(&[]), families());
    let q = create_system_default(&mut b).unwrap();
    assert_eq!(q, DeviceQueueRef { family: 0, index: 0, flags: 0b111 });
    assert_eq!(b.queue_create_infos()[0].priorities, vec![FULL_PRIORITY]);
    assert_eq!(f32::from_bits(FULL_PRIORITY), 1.0);
    let mut empty = DeviceBuilder::empty(
        Version::new(0, 1, 2, 0),
        named(&[]),
        vec![QueueFamily { queue_flags: 1, queue_count: 0 }],
    );
    assert_eq!(
        create_system_default(&mut empty),
        Err(ash::vk::Result::ERROR_INCOMPATIBLE_DRIVER.as_raw())
    );
    assert_eq!(system_default_info().api_version.0, ash::vk::API_VERSION_1_2);
}

#[test]
fn instance_extensions_come_with_the_device() {
    let mut enabled: NameMap<bool> = NameMap::new();
    enabled.insert(b"VK_A".to_vec(), false);
    let mut of_instance: NameMap<bool> = NameMap::new();
    of_instance.insert(b"VK_B".to_vec(), false);
    let all = device_extensions(enabled, &of_instance);
    assert!(has_extension_named(&all, b"VK_A"));
    assert!(!has_extension_named(&all, b"VK_C"));
    assert!(get_extension(&all, b"VK_B").is_ok());
    assert!(matches!(
        get_extension(&all, b"VK_C"),
        Err(MissingFeatureError::Extension(n)) if n == b"VK_C"
    ));
}

#[test]
fn instances_are_configured() {
    let info = InstanceCreateInfo::default();
    assert_eq!(info.application_name, "Unnamed Application");
    assert_eq!(info.engine_name, "Unnamed Engine");
    assert_eq!(info.api_version.0, ash::vk::API_VERSION_1_3);

    let mut layers: NameMap<LayerProperties> = NameMap::new();
    layers.insert(
        b"VK_LAYER_A".to_vec(),
        LayerProperties {
            spec_version: Version(3),
            implementation_version: Version(4),
            description: String::from("a layer"),
        },
    );
    let mut b = InstanceBuilder::new(named(&["VK_X"]), layers, false);
    assert!(matches!(
        b.enable_extension_named(b"VK_Y"),
        Err(MissingFeatureError::Extension(n)) if n == b"VK_Y"
    ));
    let nothing: Vec<(Vec<u8>, Version)> = Vec::new();
    assert!(b.enable_layer(b"VK_LAYER_B", &nothing).is_none());
    assert!(b.enabled_layers.is_empty());
    // The layer brings the extension that was missing.
    let brought = vec![(b"VK_Y".to_vec(), Version(1))];
    let layer = b.enable_layer(b"VK_LAYER_A", &brought).unwrap();
    assert_eq!(layer.description, "a layer");
    assert_eq!(layer.spec_version, Version(3));
    assert_eq!(b.enabled_layers, vec![b"VK_LAYER_A".to_vec()]);
    assert!(b.enable_extension_named(b"VK_Y").is_ok());
    assert!(b.enable_extension(&extension("VK_X", None)).is_ok());
    assert!(b.enabled_extensions.contains(b"VK_X"));
    assert!(b.enabled_extensions.contains(b"VK_Y"));

    let portable = InstanceBuilder::new(
        named(&[PORTABILITY_ENUMERATION]),
        NameMap::new(),
        true,
    );
    assert!(portable.enabled_extensions.contains(PORTABILITY_ENUMERATION.as_bytes()));
    assert_eq!(
        portable.info.flags,
        ash::vk::InstanceCreateFlags::ENUMERATE_PORTABILITY_KHR.as_raw()
    );
}

#[test]
fn device_properties_are_kept() {
    let memory = MemoryProperties {
        memory_types: vec![
            MemoryType { property_flags: 0b1111, heap_index: 0 },
            MemoryType { property_flags: 0, heap_index: 9 },
        ],
        memory_type_count: 1,
        memory_heaps: vec![
            MemoryHeap { size: 1 << 34, flags: 1, budget: 0, usage: 0 },
            MemoryHeap { size: 0, flags: 0, budget: 0, usage: 0 },
        ],
        memory_heap_count: 1,
    };
    let mut p = PhysicalDeviceProperties::new(
        vec![b'G', b'P', b'U', 0, b'!', 0],
        Version::new(0, 1, 3, 0),
        Version(7),
        vk::PHYSICAL_DEVICE_TYPE_INTEGRATED_GPU,
        memory,
    );
    assert_eq!(p.device_name(), b"GPU");
    assert_eq!(p.api_version(), Version::new(0, 1, 3, 0));
    assert_eq!(p.driver_version(), Version(7));
    assert_eq!(p.memory_types().len(), 1);
    assert_eq!(p.memory_heaps().len(), 1);
    assert_eq!(p.memory_type_map().upload, 0);
    assert_eq!(p.get(5), None);
    p.keep(5, 77);
    assert_eq!(p.get(5), Some(77));
    assert_eq!(image_format_properties(ash::vk::Result::SUCCESS.as_raw(), 3), Some(3));
    assert_eq!(
        image_format_properties(ash::vk::Result::ERROR_FORMAT_NOT_SUPPORTED.as_raw(), 3),
        None
    );
}

#[test]
fn queues_are_created_or_shared() {
    let mut b = DeviceBuilder::empty(
        Version::new(0, 1, 3, 0),
        named(&[]),
        vec![QueueFamily { queue_flags: 0b111, queue_count: 2 }],
    );
    let mut config = QueueConfiguration::new();
    assert_eq!(config.component_id_of_queue(1), None);
    let r = init_device_queue_with_caps(
        &mut b, &mut config, 1, 100, 0b001, 10, &vec![], "Render", "app::Render",
    );
    assert_eq!(r, Ok(()));
    let r = init_device_queue_with_caps(
        &mut b, &mut config, 2, 101, 0b100, 20, &vec![0], "Transfer", "app::Transfer",
    );
    assert_eq!(r, Ok(()));
    // No queue is left: the one whose priority is closer is shared.
    let r = init_device_queue_with_caps(
        &mut b, &mut config, 3, 102, 0b010, 20, &vec![10, 0], "Compute", "app::Compute",
    );
    assert_eq!(r, Ok(()));
    assert_eq!(config.component_id_of_queue(3), Some(101));
    assert_eq!(config.queue_info(3).unwrap().name, "Transfer");
    let r = init_device_queue_with_caps(
        &mut b, &mut config, 4, 103, 0b1000, 20, &vec![10, 0], "Sparse", "app::Sparse",
    );
    assert_eq!(r, Err(QueueNotFoundError));
    assert_eq!(config.component_id_of_queue(4), None);
    let pending = config.init_queues();
    assert_eq!(pending.len(), 2);
    assert_eq!(pending[0].name, "app::Render");
    assert_eq!(pending[1].component, 101);
    assert_eq!(pending[1].queue, DeviceQueueRef { family: 0, index: 1, flags: 0b111 });
    assert!(config.init_queues().is_empty());
}

fn gpu(device_type: i32, driver_id: i32) -> DeviceTraits {
    DeviceTraits { device_type, driver_id }
}

#[test]
fn devices_are_chosen() {
    let integrated = vk::PHYSICAL_DEVICE_TYPE_INTEGRATED_GPU;
    let discrete = vk::PHYSICAL_DEVICE_TYPE_DISCRETE_GPU;
    let cpu = vk::PHYSICAL_DEVICE_TYPE_CPU;
    let devices = [gpu(cpu, 7), gpu(integrated, 8), gpu(discrete, 5), gpu(discrete, 7)];
    let auto = |prefer_integrated: bool, drivers: &[i32]| PhysicalDeviceSearchStrategy::Auto {
        prefer_integrated,
        preferred_drivers: DriverList::new(drivers),
    };
    assert_eq!(auto(false, &[]).choose_device(&devices), Some(3));
    assert_eq!(auto(false, &[5, 7]).choose_device(&devices), Some(2));
    assert_eq!(auto(false, &[7, 5]).choose_device(&devices), Some(3));
    assert_eq!(auto(true, &[5]).choose_device(&devices), Some(1));
    assert_eq!(auto(true, &[5]).choose_device(&[]), None);
    assert_eq!(callback_device(&devices, 1), Some(1));
    assert_eq!(callback_device(&devices, devices.len()), None);
    assert_eq!(PhysicalDeviceSearchStrategy::Index(2).choose_device(&devices), Some(2));
    assert_eq!(PhysicalDeviceSearchStrategy::Index(4).choose_device(&devices), None);
    let list = DriverList::new(&[3, 1, 3]);
    assert_eq!(list.rank(3), 3);
    assert_eq!(list.rank(1), 2);
    assert_eq!(list.rank(9), 0);
}

#[test]
fn plugins_have_defaults() {
    let p = PumicitePlugin::for_platform(Platform::Linux);
    assert_eq!(p.resource_heap_size, 1024);
    assert_eq!(p.sampler_heap_size, 128);
    match p.physical_device {
        PhysicalDeviceSearchStrategy::Auto { prefer_integrated, preferred_drivers } => {
            assert!(!prefer_integrated);
            let id = |d: ash::vk::DriverId| d.as_raw();
            assert_eq!(preferred_drivers.rank(id(ash::vk::DriverId::MESA_RADV)), 3);
            assert_eq!(preferred_drivers.rank(id(ash::vk::DriverId::AMD_PROPRIETARY)), 2);
            assert_eq!(preferred_drivers.rank(id(ash::vk::DriverId::NVIDIA_PROPRIETARY)), 1);
        }
        PhysicalDeviceSearchStrategy::Index(_) => panic!("a search was expected"),
    }
    for platform in [Platform::Apple, Platform::Windows, Platform::Other] {
        let p = PumicitePlugin::for_platform(platform);
        assert!(matches!(p.physical_device, PhysicalDeviceSearchStrategy::Auto { .. }));
    }
    let queues = default_queues();
    let wanted = [
        (ash::vk::QueueFlags::GRAPHICS, 1.0f32),
        (ash::vk::QueueFlags::TRANSFER, 0.1),
        (ash::vk::QueueFlags::COMPUTE, 1.0),
        (ash::vk::QueueFlags::COMPUTE, 0.1),
    ];
    assert_eq!(queues.len(), wanted.len());
    for (q, w) in queues.iter().zip(wanted) {
        assert_eq!(q.required, w.0.as_raw());
        assert_eq!(f32::from_bits(q.priority), w.1);
    }
    assert_eq!(f32::from_bits(PRIORITY_LOW), 0.1);
    let color = |c: [u32; 4]| c.map(f32::from_bits);
    assert_eq!(color(SubmissionSetConfig::default().debug_color), [0.0, 0.0, 0.0, 1.0]);
    assert_eq!(color(render_set_color()), [1.0, 1.0, 0.5, 1.0]);
    let sets = default_submission_sets();
    let numbers: Vec<u64> = queues.iter().map(|q| q.purpose.number()).collect();
    assert_eq!(numbers, vec![0, 1, 2, 3]);
    assert_eq!(color(sets[0].config.debug_color), [1.0, 0.0, 0.0, 1.0]);
    assert_eq!(color(sets[1].config.debug_color), [0.0, 1.0, 0.0, 1.0]);
    assert_eq!(color(sets[2].config.debug_color), [0.0, 0.0, 1.0, 1.0]);
    assert_eq!(
        sets.map(|s| (s.set, s.queue, s.after, s.in_swapchain_set)),
        [
            (DefaultSet::Render, QueuePurpose::Render, Some(DefaultSet::Transfer), true),
            (DefaultSet::Transfer, QueuePurpose::Transfer, None, false),
            (DefaultSet::Compute, QueuePurpose::Compute, Some(DefaultSet::Transfer), false),
        ]
    );
}

#[test]
fn optional_extensions_are_taken_where_they_are() {
    assert_eq!(
        DEFERRED_HOST_OPERATIONS.as_bytes(),
        ash::khr::deferred_host_operations::NAME.to_bytes()
    );
    assert_eq!(
        DYNAMIC_RENDERING_LOCAL_READ.as_bytes(),
        ash::khr::dynamic_rendering_local_read::NAME.to_bytes()
    );
    let with = |names: &[&str], version: Version| {
        let mut map: NameMap<Version> = NameMap::new();
        for name in names {
            map.insert(name.as_bytes().to_vec(), Version(1));
        }
        let mut builder = DeviceBuilder::empty(version, map, Vec::new());
        enable_optional_extensions(&mut builder);
        builder.enabled_extension_names().len()
    };
    let both = [DEFERRED_HOST_OPERATIONS, DYNAMIC_RENDERING_LOCAL_READ];
    assert_eq!(with(&both, Version::new(0, 1, 2, 0)), 2);
    assert_eq!(with(&both[..1], Version::new(0, 1, 2, 0)), 1);
    assert_eq!(with(&[], Version::new(0, 1, 2, 0)), 0);
    // One is part of Vulkan by then.
    assert_eq!(with(&both, Version::new(0, 1, 4, 0)), 1);
}

#[test]
fn options_are_accepted_in_their_phase() {
    assert!(SetupPhase::Instance.accepts_instance_options());
    assert!(!SetupPhase::Instance.accepts_device_options());
    assert!(!SetupPhase::Device.accepts_instance_options());
    assert!(SetupPhase::Device.accepts_device_options());
    assert!(!SetupPhase::Running.accepts_instance_options());
    assert!(!SetupPhase::Running.accepts_device_options());
}

#[test]
fn sets_are_registered() {
    let mut queues = QueueConfiguration::new();
    queues.register_queue(1, 40, DeviceQueueRef { family: 0, index: 0, flags: 1 }, 0, "Q", "Q");
    let mut registry = SubmissionSetRegistry::new();
    registry.add_submission_set(&queues, 1, 8, SubmissionSetConfig::default());
    assert_eq!(registry.submission_sets_to_queue[&8].0, 40);
    registry.add_render_set(9, &[5, 6, 7], &[5, 8, 6, 7]);
    assert_eq!(registry.render_sets_to_systems[&9], 8);
}

#[test]
fn the_default_device_is_the_first() {
    assert_eq!(system_default_device(3), Ok(0));
    assert_eq!(system_default_device(1), Ok(0));
    assert_eq!(system_default_device(0), Err(vk::RESULT_ERROR_INCOMPATIBLE_DRIVER));
}
