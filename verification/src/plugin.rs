//! Defaults of the application plugin, and the choice of a physical device.

use vstd::prelude::*;

use crate::device::{extension, DeviceBuilder, FULL_PRIORITY};
use crate::graph;
use crate::graph::Node;
use crate::pass;
use crate::pass::{is_listed, ScheduleSets};
use crate::queue::QueueConfiguration;
use crate::version;
use crate::version::Version;
use crate::vk;
use std::collections::HashMap;
use vstd::string::*;

verus! {

broadcast use vstd::std_specs::hash::group_hash_axioms;

// ---------------------------------------------------------------------------
// Preferred drivers
// ---------------------------------------------------------------------------

/// A short list of driver ids, the most preferred first.
#[verifier::external_body]
pub struct DriverList {
    ids: smallvec::SmallVec<[i32; 4]>,
}

/// The ids that a list holds, in order.
pub uninterp spec fn driver_ids(list: DriverList) -> Seq<i32>;

impl DriverList {
    /// `smallvec::SmallVec::new`: a list without items.
    #[verifier::external_body]
    pub(crate) fn empty() -> (r: DriverList)
        ensures
            driver_ids(r) == Seq::<i32>::empty(),
    {
        DriverList { ids: smallvec::SmallVec::new() }
    }

    /// `smallvec::SmallVec::push`: appends an item.
    #[verifier::external_body]
    pub(crate) fn append(&mut self, id: i32)
        ensures
            driver_ids(*final(self)) == driver_ids(*old(self)).push(id),
    {
        self.ids.push(id)
    }

    /// `smallvec::SmallVec::len`: the number of items.
    #[verifier::external_body]
    pub(crate) fn count(&self) -> (r: usize)
        ensures
            r == driver_ids(*self).len(),
    {
        self.ids.len()
    }

    /// Indexing of a `smallvec::SmallVec`: the item at a place.
    #[verifier::external_body]
    pub(crate) fn at(&self, i: usize) -> (r: i32)
        requires
            i < driver_ids(*self).len(),
        ensures
            r == driver_ids(*self)[i as int],
    {
        self.ids[i]
    }

    /// A list of the given ids.
    pub fn new(ids: &[i32]) -> (r: DriverList)
        ensures
            driver_ids(r) == ids@,
    {
        let mut list = DriverList::empty();
        let mut i: usize = 0;
        while i < ids.len()
            invariant
                i <= ids@.len(),
                driver_ids(list) == ids@.take(i as int),
            decreases ids@.len() - i,
        {
            list.append(ids[i]);
            i += 1;
            assert(driver_ids(list) =~= ids@.take(i as int));
        }
        assert(ids@.take(i as int) =~= ids@);
        list
    }

    /// How strongly a driver is preferred: the first of `n` with `n`, the last
    /// with 1, any other with 0.
    pub fn rank(&self, driver_id: i32) -> (r: usize)
        ensures
            r == driver_rank(driver_ids(*self), driver_id),
    {
        let n: usize = self.count();
        let mut i: usize = 0;
        while i < n
            invariant
                i <= n,
                n == driver_ids(*self).len(),
                forall|j: int| 0 <= j < i ==> driver_ids(*self)[j] != driver_id,
            decreases n - i,
        {
            if self.at(i) == driver_id {
                proof {
                    let ids = driver_ids(*self);
                    assert(ids[i as int] == driver_id);
                    lemma_first_place(ids, driver_id, i as int);
                }
                return n - i;
            }
            i += 1;
        }
        0
    }
}

/// `i` is the first place of the driver.
pub open spec fn is_first_place(ids: Seq<i32>, driver_id: i32, i: int) -> bool {
    &&& 0 <= i < ids.len()
    &&& ids[i] == driver_id
    &&& forall|j: int| 0 <= j < i ==> ids[j] != driver_id
}

pub open spec fn driver_rank(ids: Seq<i32>, driver_id: i32) -> int {
    if ids.contains(driver_id) {
        ids.len() - choose|i: int| is_first_place(ids, driver_id, i)
    } else {
        0
    }
}

proof fn lemma_first_place(ids: Seq<i32>, driver_id: i32, i: int)
    requires
        is_first_place(ids, driver_id, i),
    ensures
        (choose|k: int| is_first_place(ids, driver_id, k)) == i,
{
    let k = choose|k: int| is_first_place(ids, driver_id, k);
    assert(is_first_place(ids, driver_id, k));
    if k < i {
        assert(ids[k] != driver_id);
    }
    if i < k {
        assert(ids[i] != driver_id);
    }
}

/// A driver that is listed earlier ranks higher, and any that is listed ranks
/// above one that is not.
pub proof fn law_earlier_drivers_rank_higher(ids: Seq<i32>, i: int, j: int, other: i32)
    requires
        0 <= i < j < ids.len(),
        forall|k: int| 0 <= k < i ==> ids[k] != ids[i],
        forall|k: int| 0 <= k < j ==> ids[k] != ids[j],
        !ids.contains(other),
    ensures
        driver_rank(ids, ids[i]) > driver_rank(ids, ids[j]) > driver_rank(ids, other),
        driver_rank(ids, other) == 0,
{
    assert(is_first_place(ids, ids[i], i));
    assert(is_first_place(ids, ids[j], j));
    lemma_first_place(ids, ids[i], i);
    lemma_first_place(ids, ids[j], j);
}

// ---------------------------------------------------------------------------
// Choice of a device
// ---------------------------------------------------------------------------

/// How the physical device is chosen.
pub enum PhysicalDeviceSearchStrategy {
    /// By kind and driver.
    Auto { prefer_integrated: bool, preferred_drivers: DriverList },
    /// By its place in the list of devices.
    Index(usize),
}

/// What the choice of a device looks at.
#[derive(Debug, Clone, Copy, PartialEq, Eq, Structural)]
pub struct DeviceTraits {
    pub device_type: i32,
    pub driver_id: i32,
}

pub open spec fn is_real_gpu(d: DeviceTraits) -> bool {
    d.device_type == vk::PHYSICAL_DEVICE_TYPE_INTEGRATED_GPU || d.device_type
        == vk::PHYSICAL_DEVICE_TYPE_DISCRETE_GPU
}

pub open spec fn is_preferred_type(d: DeviceTraits, prefer_integrated: bool) -> bool {
    if prefer_integrated {
        d.device_type == vk::PHYSICAL_DEVICE_TYPE_INTEGRATED_GPU
    } else {
        d.device_type == vk::PHYSICAL_DEVICE_TYPE_DISCRETE_GPU
    }
}

/// Whether device `a` is preferred to device `b`: a real GPU first, then one
/// of the preferred kind, then one with a preferred driver.
pub open spec fn device_preferred(
    a: DeviceTraits,
    b: DeviceTraits,
    prefer_integrated: bool,
    drivers: Seq<i32>,
) -> bool {
    if is_real_gpu(a) != is_real_gpu(b) {
        is_real_gpu(a)
    } else if is_preferred_type(a, prefer_integrated) != is_preferred_type(b, prefer_integrated) {
        is_preferred_type(a, prefer_integrated)
    } else {
        driver_rank(drivers, a.driver_id) > driver_rank(drivers, b.driver_id)
    }
}

/// Device `i` is the last of those to which none is preferred.
pub open spec fn is_best_device(
    devices: Seq<DeviceTraits>,
    prefer_integrated: bool,
    drivers: Seq<i32>,
    i: int,
) -> bool {
    &&& 0 <= i < devices.len()
    &&& forall|j: int|
        0 <= j < devices.len() ==> !device_preferred(
            #[trigger] devices[j],
            devices[i],
            prefer_integrated,
            drivers,
        )
    &&& forall|j: int|
        i < j < devices.len() ==> device_preferred(
            devices[i],
            #[trigger] devices[j],
            prefer_integrated,
            drivers,
        )
}

fn prefer(a: &DeviceTraits, b: &DeviceTraits, prefer_integrated: bool, drivers: &DriverList) -> (r:
    bool)
    ensures
        r == device_preferred(*a, *b, prefer_integrated, driver_ids(*drivers)),
{
    let real_a = a.device_type == vk::PHYSICAL_DEVICE_TYPE_INTEGRATED_GPU || a.device_type
        == vk::PHYSICAL_DEVICE_TYPE_DISCRETE_GPU;
    let real_b = b.device_type == vk::PHYSICAL_DEVICE_TYPE_INTEGRATED_GPU || b.device_type
        == vk::PHYSICAL_DEVICE_TYPE_DISCRETE_GPU;
    if real_a != real_b {
        return real_a;
    }
    let wanted: i32 = if prefer_integrated {
        vk::PHYSICAL_DEVICE_TYPE_INTEGRATED_GPU
    } else {
        vk::PHYSICAL_DEVICE_TYPE_DISCRETE_GPU
    };
    let type_a = a.device_type == wanted;
    let type_b = b.device_type == wanted;
    if type_a != type_b {
        return type_a;
    }
    drivers.rank(a.driver_id) > drivers.rank(b.driver_id)
}

/// The place of the device that an application has chosen by itself from the
/// list of devices; `None` where there is no such device.
pub fn callback_device(devices: &[DeviceTraits], chosen: usize) -> (r: Option<usize>)
    ensures
        r == (if chosen < devices@.len() {
            Some(chosen)
        } else {
            None
        }),
{
    if chosen < devices.len() {
        Some(chosen)
    } else {
        None
    }
}

impl PhysicalDeviceSearchStrategy {
    /// The place of the chosen device; `None` where there is no such device.
    pub fn choose_device(&self, devices: &[DeviceTraits]) -> (r: Option<usize>)
        ensures
            match *self {
                PhysicalDeviceSearchStrategy::Auto { prefer_integrated, preferred_drivers } => {
                    &&& r is Some <==> devices@.len() > 0
                    &&& r matches Some(i) ==> is_best_device(
                        devices@,
                        prefer_integrated,
                        driver_ids(preferred_drivers),
                        i as int,
                    )
                },
                PhysicalDeviceSearchStrategy::Index(i) => r == (if i < devices@.len() {
                    Some(i)
                } else {
                    None
                }),
            },
    {
        match self {
            PhysicalDeviceSearchStrategy::Index(i) => callback_device(devices, *i),
            PhysicalDeviceSearchStrategy::Auto { prefer_integrated, preferred_drivers } => {
                if devices.len() == 0 {
                    return None;
                }
                let mut best: usize = 0;
                let mut i: usize = 1;
                while i < devices.len()
                    invariant
                        best < i <= devices@.len(),
                        is_best_device(
                            devices@.take(i as int),
                            *prefer_integrated,
                            driver_ids(*preferred_drivers),
                            best as int,
                        ),
                    decreases devices@.len() - i,
                {
                    let ghost before = devices@.take(i as int);
                    let ghost after = devices@.take(i + 1);
                    assert(forall|j: int| 0 <= j < i ==> #[trigger] after[j] == before[j]);
                    if !prefer(&devices[best], &devices[i], *prefer_integrated, preferred_drivers) {
                        best = i;
                    }
                    i += 1;
                }
                assert(devices@.take(i as int) =~= devices@);
                Some(best)
            },
        }
    }
}

/// A real GPU of the preferred kind wins over any device that is none.
pub proof fn law_preferred_kind_wins(
    devices: Seq<DeviceTraits>,
    prefer_integrated: bool,
    drivers: Seq<i32>,
    best: int,
)
    requires
        is_best_device(devices, prefer_integrated, drivers, best),
        exists|i: int|
            0 <= i < devices.len() && is_preferred_type(#[trigger] devices[i], prefer_integrated),
    ensures
        is_preferred_type(devices[best], prefer_integrated),
        is_real_gpu(devices[best]),
{
    let i = choose|i: int|
        0 <= i < devices.len() && is_preferred_type(#[trigger] devices[i], prefer_integrated);
    assert(!device_preferred(devices[i], devices[best], prefer_integrated, drivers));
}

/// A GPU wins over any device that is none, whether integrated or discrete. Among
/// devices of the same kind the one with the better driver wins, and among equals
/// the last.
pub proof fn law_real_devices_and_better_drivers_win(
    devices: Seq<DeviceTraits>,
    prefer_integrated: bool,
    drivers: Seq<i32>,
    best: int,
    i: int,
)
    requires
        is_best_device(devices, prefer_integrated, drivers, best),
        0 <= i < devices.len(),
    ensures
        devices[i].device_type == vk::PHYSICAL_DEVICE_TYPE_DISCRETE_GPU || devices[i].device_type
            == vk::PHYSICAL_DEVICE_TYPE_INTEGRATED_GPU ==> devices[best].device_type
            == vk::PHYSICAL_DEVICE_TYPE_DISCRETE_GPU || devices[best].device_type
            == vk::PHYSICAL_DEVICE_TYPE_INTEGRATED_GPU,
        prefer_integrated && devices[i].device_type == vk::PHYSICAL_DEVICE_TYPE_INTEGRATED_GPU
            ==> devices[best].device_type == vk::PHYSICAL_DEVICE_TYPE_INTEGRATED_GPU,
        !prefer_integrated && devices[i].device_type == vk::PHYSICAL_DEVICE_TYPE_DISCRETE_GPU
            ==> devices[best].device_type == vk::PHYSICAL_DEVICE_TYPE_DISCRETE_GPU,
        devices[i].device_type == devices[best].device_type ==> driver_rank(
            drivers,
            devices[i].driver_id,
        ) <= driver_rank(drivers, devices[best].driver_id),
        devices[i] == devices[best] ==> i <= best,
{
    assert(!device_preferred(devices[i], devices[best], prefer_integrated, drivers));
    if i > best {
        assert(device_preferred(devices[best], devices[i], prefer_integrated, drivers));
    }
}

// ---------------------------------------------------------------------------
// Defaults
// ---------------------------------------------------------------------------

/// The platform that the application runs on.
#[derive(Debug, Clone, Copy, PartialEq, Eq, Structural)]
pub enum Platform {
    Apple,
    Linux,
    Windows,
    Other,
}

/// The drivers that are preferred on a platform.
pub open spec fn platform_drivers(platform: Platform) -> Seq<i32> {
    match platform {
        Platform::Apple => seq![vk::DRIVER_ID_MESA_KOSMICKRISP, vk::DRIVER_ID_MOLTENVK],
        Platform::Linux => seq![
            vk::DRIVER_ID_MESA_RADV,
            vk::DRIVER_ID_AMD_PROPRIETARY,
            vk::DRIVER_ID_NVIDIA_PROPRIETARY,
        ],
        Platform::Windows => seq![
            vk::DRIVER_ID_AMD_PROPRIETARY,
            vk::DRIVER_ID_NVIDIA_PROPRIETARY,
            vk::DRIVER_ID_INTEL_PROPRIETARY_WINDOWS,
        ],
        Platform::Other => seq![0i32],
    }
}

/// On each platform its own drivers are preferred: on Linux that of Mesa for AMD
/// over AMD's, and both over NVIDIA's; on Windows AMD's over NVIDIA's over Intel's;
/// on Apple platforms KosmicKrisp over MoltenVK.
pub proof fn law_platform_drivers_are_ranked()
    ensures
        ({
            let apple = platform_drivers(Platform::Apple);
            let linux = platform_drivers(Platform::Linux);
            let windows = platform_drivers(Platform::Windows);
            &&& driver_rank(apple, vk::DRIVER_ID_MESA_KOSMICKRISP) > driver_rank(
                apple,
                vk::DRIVER_ID_MOLTENVK,
            ) > 0
            &&& driver_rank(linux, vk::DRIVER_ID_MESA_RADV) > driver_rank(
                linux,
                vk::DRIVER_ID_AMD_PROPRIETARY,
            ) > driver_rank(linux, vk::DRIVER_ID_NVIDIA_PROPRIETARY) > 0
            &&& driver_rank(windows, vk::DRIVER_ID_AMD_PROPRIETARY) > driver_rank(
                windows,
                vk::DRIVER_ID_NVIDIA_PROPRIETARY,
            ) > driver_rank(windows, vk::DRIVER_ID_INTEL_PROPRIETARY_WINDOWS) > 0
            &&& apple.len() == 2
            &&& linux.len() == 3
            &&& windows.len() == 3
        }),
{
    let apple = platform_drivers(Platform::Apple);
    let linux = platform_drivers(Platform::Linux);
    let windows = platform_drivers(Platform::Windows);
    assert(is_first_place(apple, vk::DRIVER_ID_MESA_KOSMICKRISP, 0));
    assert(is_first_place(apple, vk::DRIVER_ID_MOLTENVK, 1));
    assert(is_first_place(linux, vk::DRIVER_ID_MESA_RADV, 0));
    assert(is_first_place(linux, vk::DRIVER_ID_AMD_PROPRIETARY, 1));
    assert(is_first_place(linux, vk::DRIVER_ID_NVIDIA_PROPRIETARY, 2));
    assert(is_first_place(windows, vk::DRIVER_ID_AMD_PROPRIETARY, 0));
    assert(is_first_place(windows, vk::DRIVER_ID_NVIDIA_PROPRIETARY, 1));
    assert(is_first_place(windows, vk::DRIVER_ID_INTEL_PROPRIETARY_WINDOWS, 2));
    lemma_first_place(apple, vk::DRIVER_ID_MESA_KOSMICKRISP, 0);
    lemma_first_place(apple, vk::DRIVER_ID_MOLTENVK, 1);
    lemma_first_place(linux, vk::DRIVER_ID_MESA_RADV, 0);
    lemma_first_place(linux, vk::DRIVER_ID_AMD_PROPRIETARY, 1);
    lemma_first_place(linux, vk::DRIVER_ID_NVIDIA_PROPRIETARY, 2);
    lemma_first_place(windows, vk::DRIVER_ID_AMD_PROPRIETARY, 0);
    lemma_first_place(windows, vk::DRIVER_ID_NVIDIA_PROPRIETARY, 1);
    lemma_first_place(windows, vk::DRIVER_ID_INTEL_PROPRIETARY_WINDOWS, 2);
}

/// Settings of the application plugin.
pub struct PumicitePlugin {
    pub physical_device: PhysicalDeviceSearchStrategy,
    pub resource_heap_size: u32,
    pub sampler_heap_size: u32,
}

impl PumicitePlugin {
    /// The settings for a platform.
    pub fn for_platform(platform: Platform) -> (r: Self)
        ensures
            r.resource_heap_size == 1024,
            r.sampler_heap_size == 128,
            r.physical_device matches PhysicalDeviceSearchStrategy::Auto {
                prefer_integrated,
                preferred_drivers,
            } && !prefer_integrated && driver_ids(preferred_drivers) == platform_drivers(platform),
    {
        let mut drivers = DriverList::empty();
        match platform {
            Platform::Apple => {
                drivers.append(vk::DRIVER_ID_MESA_KOSMICKRISP);
                drivers.append(vk::DRIVER_ID_MOLTENVK);
            },
            Platform::Linux => {
                drivers.append(vk::DRIVER_ID_MESA_RADV);
                drivers.append(vk::DRIVER_ID_AMD_PROPRIETARY);
                drivers.append(vk::DRIVER_ID_NVIDIA_PROPRIETARY);
            },
            Platform::Windows => {
                drivers.append(vk::DRIVER_ID_AMD_PROPRIETARY);
                drivers.append(vk::DRIVER_ID_NVIDIA_PROPRIETARY);
                drivers.append(vk::DRIVER_ID_INTEL_PROPRIETARY_WINDOWS);
            },
            Platform::Other => {
                drivers.append(0);
            },
        }
        assert(driver_ids(drivers) =~= platform_drivers(platform));
        PumicitePlugin {
            physical_device: PhysicalDeviceSearchStrategy::Auto {
                prefer_integrated: false,
                preferred_drivers: drivers,
            },
            resource_heap_size: 1024,
            sampler_heap_size: 128,
        }
    }
}

/// What the queues that every application has are for.
#[derive(Debug, Clone, Copy, PartialEq, Eq, Structural)]
pub enum QueuePurpose {
    Render,
    Transfer,
    Compute,
    /// Computing in the background.
    AsyncCompute,
}

impl QueuePurpose {
    /// The number that a purpose is known by.
    pub open spec fn as_number(self) -> u64 {
        match self {
            QueuePurpose::Render => 0,
            QueuePurpose::Transfer => 1,
            QueuePurpose::Compute => 2,
            QueuePurpose::AsyncCompute => 3,
        }
    }

    /// The number that a purpose is known by.
    pub fn number(self) -> (r: u64)
        ensures
            r == self.as_number(),
    {
        match self {
            QueuePurpose::Render => 0,
            QueuePurpose::Transfer => 1,
            QueuePurpose::Compute => 2,
            QueuePurpose::AsyncCompute => 3,
        }
    }
}

/// A queue that every application asks for: what it is for, its abilities, and
/// the bit pattern of its priority.
#[derive(Debug, Clone, Copy, PartialEq, Eq, Structural)]
pub struct QueueRequest {
    pub purpose: QueuePurpose,
    pub required: u32,
    pub priority: u32,
}

/// Bit pattern of the float 0.1.
pub const PRIORITY_LOW: u32 = 0x3DCC_CCCD;

/// The queues for rendering, transfers, computing and computing in the
/// background, in the order in which they are asked for.
pub fn default_queues() -> (r: Vec<QueueRequest>)
    ensures
        r@ == seq![
            QueueRequest {
                purpose: QueuePurpose::Render,
                required: vk::QUEUE_GRAPHICS,
                priority: FULL_PRIORITY,
            },
            QueueRequest {
                purpose: QueuePurpose::Transfer,
                required: vk::QUEUE_TRANSFER,
                priority: PRIORITY_LOW,
            },
            QueueRequest {
                purpose: QueuePurpose::Compute,
                required: vk::QUEUE_COMPUTE,
                priority: FULL_PRIORITY,
            },
            QueueRequest {
                purpose: QueuePurpose::AsyncCompute,
                required: vk::QUEUE_COMPUTE,
                priority: PRIORITY_LOW,
            },
        ],
{
    let mut out: Vec<QueueRequest> = Vec::new();
    out.push(
        QueueRequest {
            purpose: QueuePurpose::Render,
            required: vk::QUEUE_GRAPHICS,
            priority: FULL_PRIORITY,
        },
    );
    out.push(
        QueueRequest {
            purpose: QueuePurpose::Transfer,
            required: vk::QUEUE_TRANSFER,
            priority: PRIORITY_LOW,
        },
    );
    out.push(
        QueueRequest {
            purpose: QueuePurpose::Compute,
            required: vk::QUEUE_COMPUTE,
            priority: FULL_PRIORITY,
        },
    );
    out.push(
        QueueRequest {
            purpose: QueuePurpose::AsyncCompute,
            required: vk::QUEUE_COMPUTE,
            priority: PRIORITY_LOW,
        },
    );
    out
}

/// Names of the extensions that are enabled where a device has them.
pub const DEFERRED_HOST_OPERATIONS: &'static str = "VK_KHR_deferred_host_operations";

pub const DYNAMIC_RENDERING_LOCAL_READ: &'static str = "VK_KHR_dynamic_rendering_local_read";

/// `m` with an extension, where the device has it and it is not part of Vulkan.
pub open spec fn with_optional(
    b: DeviceBuilder,
    m: Map<Seq<u8>, bool>,
    name: &str,
    promoted_to: Option<Version>,
) -> Map<Seq<u8>, bool> {
    if (promoted_to matches Some(v) && b.api_version.0 >= v.0)
        || !b.available_extensions@.contains_key(name.spec_bytes()) {
        m
    } else {
        m.insert(name.spec_bytes(), true)
    }
}

/// A useful extension is enabled where the device has it and its version of
/// Vulkan does not; nothing else is changed.
pub proof fn law_useful_extensions_are_enabled(
    b: DeviceBuilder,
    m: Map<Seq<u8>, bool>,
    name: &str,
    promoted_to: Option<Version>,
    other: Seq<u8>,
)
    ensures
        ({
            let r = with_optional(b, m, name, promoted_to);
            let there = b.available_extensions@.contains_key(name.spec_bytes());
            &&& there && promoted_to is None ==> r.contains_key(name.spec_bytes())
                && r[name.spec_bytes()]
            &&& promoted_to matches Some(v) ==> (there && b.api_version.0 < v.0 ==> r.contains_key(
                name.spec_bytes(),
            ) && r[name.spec_bytes()])
            &&& promoted_to matches Some(v) ==> (b.api_version.0 >= v.0 ==> r == m)
            &&& !there ==> r == m
            &&& other != name.spec_bytes() ==> (r.contains_key(other) <==> m.contains_key(other))
            &&& other != name.spec_bytes() && m.contains_key(other) ==> r[other] == m[other]
        }),
{
}

/// Enables the extensions that are of use but not needed.
pub fn enable_optional_extensions(builder: &mut DeviceBuilder)
    requires
        old(builder).wf(),
    ensures
        final(builder).wf(),
        final(builder).same_but_extensions(*old(builder)),
        final(builder).enabled_extensions@ == with_optional(
            *old(builder),
            with_optional(
                *old(builder),
                old(builder).enabled_extensions@,
                DEFERRED_HOST_OPERATIONS,
                None,
            ),
            DYNAMIC_RENDERING_LOCAL_READ,
            Some(Version(version::packed(0, 1, 4, 0))),
        ),
{
    let _ = builder.enable_extension(&extension(DEFERRED_HOST_OPERATIONS, None));
    let _ = builder.enable_extension(
        &extension(DYNAMIC_RENDERING_LOCAL_READ, Some(Version::new(0, 1, 4, 0))),
    );
}

/// How far the set-up of an application has come.
#[derive(Debug, Clone, Copy, PartialEq, Eq, Structural)]
pub enum SetupPhase {
    /// There is no instance yet.
    Instance,
    /// There is an instance, and a device is being configured.
    Device,
    /// There is a device.
    Running,
}

impl SetupPhase {
    /// Whether instance extensions and layers can be added.
    pub fn accepts_instance_options(&self) -> (r: bool)
        ensures
            r == (*self is Instance),
    {
        match self {
            SetupPhase::Instance => true,
            _ => false,
        }
    }

    /// Whether device extensions, features and queues can be added.
    pub fn accepts_device_options(&self) -> (r: bool)
        ensures
            r == (*self is Device),
    {
        match self {
            SetupPhase::Device => true,
            _ => false,
        }
    }
}

// ---------------------------------------------------------------------------
// Submission sets and render sets
// ---------------------------------------------------------------------------

/// Bit pattern of the float 0.5.
pub const HALF: u32 = 0x3F00_0000;

/// Bit pattern of the float 1.
pub const ONE: u32 = 0x3F80_0000;

/// Settings of a submission set. The components of the color are bit patterns
/// of floats.
#[derive(Debug, Clone, Copy)]
pub struct SubmissionSetConfig {
    pub debug_color: [u32; 4],
}

impl Default for SubmissionSetConfig {
    fn default() -> (r: Self)
        ensures
            r.debug_color@ == seq![0u32, 0u32, 0u32, ONE],
    {
        SubmissionSetConfig { debug_color: [0, 0, 0, ONE] }
    }
}

/// The color that the commands of a render set are labelled with.
pub fn render_set_color() -> (r: [u32; 4])
    ensures
        r@ == seq![ONE, ONE, HALF, ONE],
{
    [ONE, ONE, HALF, ONE]
}

/// The submission sets that every application has.
#[derive(Debug, Clone, Copy, PartialEq, Eq, Structural)]
pub enum DefaultSet {
    Render,
    Transfer,
    Compute,
}

impl DefaultSet {
    /// What the queue is for that the set is submitted to.
    pub open spec fn queue(self) -> QueuePurpose {
        match self {
            DefaultSet::Render => QueuePurpose::Render,
            DefaultSet::Transfer => QueuePurpose::Transfer,
            DefaultSet::Compute => QueuePurpose::Compute,
        }
    }

    /// Red, green or blue.
    pub open spec fn color(self) -> Seq<u32> {
        match self {
            DefaultSet::Render => seq![ONE, 0u32, 0u32, ONE],
            DefaultSet::Transfer => seq![0u32, ONE, 0u32, ONE],
            DefaultSet::Compute => seq![0u32, 0u32, ONE, ONE],
        }
    }

    /// Rendering and computing come after transfers.
    pub open spec fn follows(self) -> Option<DefaultSet> {
        match self {
            DefaultSet::Transfer => None,
            _ => Some(DefaultSet::Transfer),
        }
    }

    /// What is rendered may be presented.
    pub open spec fn presents(self) -> bool {
        self is Render
    }
}

/// How a set that every application has is registered and ordered.
#[derive(Debug, Clone, Copy)]
pub struct DefaultSubmissionSet {
    pub set: DefaultSet,
    pub queue: QueuePurpose,
    pub config: SubmissionSetConfig,
    /// The set that it is ordered after.
    pub after: Option<DefaultSet>,
    /// Whether it is a member of the set in which images of swapchains are
    /// acquired and presented.
    pub in_swapchain_set: bool,
}

/// What is said of a default set is right.
pub open spec fn is_default_set(d: DefaultSubmissionSet, set: DefaultSet) -> bool {
    &&& d.set == set
    &&& d.queue == set.queue()
    &&& d.config.debug_color@ == set.color()
    &&& d.after == set.follows()
    &&& d.in_swapchain_set == set.presents()
}

/// The default sets are submitted to the queues that they are named after, and
/// labelled in red, green and blue. Transfers come first, and only what is
/// rendered is presented.
pub proof fn law_default_sets_are_as_named(d: DefaultSubmissionSet, set: DefaultSet)
    requires
        is_default_set(d, set),
    ensures
        d.set == set,
        set is Render ==> d.queue is Render && d.in_swapchain_set && d.after == Some(
            DefaultSet::Transfer,
        ),
        set is Transfer ==> d.queue is Transfer && !d.in_swapchain_set && d.after is None,
        set is Compute ==> d.queue is Compute && !d.in_swapchain_set && d.after == Some(
            DefaultSet::Transfer,
        ),
        d.config.debug_color@[0] == (if set is Render {
            ONE
        } else {
            0
        }),
        d.config.debug_color@[1] == (if set is Transfer {
            ONE
        } else {
            0
        }),
        d.config.debug_color@[2] == (if set is Compute {
            ONE
        } else {
            0
        }),
        d.config.debug_color@[3] == ONE,
        QueuePurpose::Render.as_number() == 0,
        QueuePurpose::Transfer.as_number() == 1,
        QueuePurpose::Compute.as_number() == 2,
        QueuePurpose::AsyncCompute.as_number() == 3,
{
}

/// The sets for rendering, transfers and computing that every application has.
pub fn default_submission_sets() -> (r: [DefaultSubmissionSet; 3])
    ensures
        is_default_set(r@[0], DefaultSet::Render),
        is_default_set(r@[1], DefaultSet::Transfer),
        is_default_set(r@[2], DefaultSet::Compute),
{
    [
        DefaultSubmissionSet {
            set: DefaultSet::Render,
            queue: QueuePurpose::Render,
            config: SubmissionSetConfig { debug_color: [ONE, 0, 0, ONE] },
            after: Some(DefaultSet::Transfer),
            in_swapchain_set: true,
        },
        DefaultSubmissionSet {
            set: DefaultSet::Transfer,
            queue: QueuePurpose::Transfer,
            config: SubmissionSetConfig { debug_color: [0, ONE, 0, ONE] },
            after: None,
            in_swapchain_set: false,
        },
        DefaultSubmissionSet {
            set: DefaultSet::Compute,
            queue: QueuePurpose::Compute,
            config: SubmissionSetConfig { debug_color: [0, 0, ONE, ONE] },
            after: Some(DefaultSet::Transfer),
            in_swapchain_set: false,
        },
    ]
}

/// A schedule orders the default sets as they ask for. `key` gives the key of
/// each set, and `swapchain` that of the set in which images are acquired and
/// presented.
pub open spec fn orders_defaults(
    sets: &ScheduleSets,
    key: spec_fn(DefaultSet) -> u64,
    swapchain: u64,
) -> bool {
    &&& forall|set: DefaultSet| #[trigger]
        set.follows() is Some ==> graph::node_edges(sets.dependency).contains(
            (Node::SystemSet(key(set.follows()->0)), Node::SystemSet(key(set))),
        )
    &&& forall|set: DefaultSet| #[trigger]
        set.presents() ==> graph::node_edges(sets.hierarchy).contains(
            (Node::SystemSet(swapchain), Node::SystemSet(key(set))),
        )
}

/// In a schedule that orders the default sets as they ask for, rendering and
/// computing start after transfers were submitted, and rendering lies between
/// `acquire` and `present`, where these enclose the swapchain set.
pub proof fn law_default_sets_are_ordered(
    sets: &ScheduleSets,
    submission_sets: Seq<Option<u64>>,
    render_sets: Seq<(Option<u64>, u64)>,
    before: Set<(u64, u64)>,
    after: Set<(u64, u64)>,
    key: spec_fn(DefaultSet) -> u64,
    swapchain: u64,
    acquire: u64,
    present: u64,
)
    requires
        sets.all_grouped(
            submission_sets,
            sets.with_asked(submission_sets, render_sets, before),
            after,
        ),
        forall|set: DefaultSet|
            submission_sets.contains(Some(#[trigger] key(set))) && sets.has_submission_set(
                Some(key(set)),
            ),
        orders_defaults(sets, key, swapchain),
        graph::node_edges(sets.dependency).contains(
            (Node::System(acquire), Node::SystemSet(swapchain)),
        ),
        graph::node_edges(sets.dependency).contains(
            (Node::SystemSet(swapchain), Node::System(present)),
        ),
    ensures
        ({
            let metas = sets.submission_sets_to_meta_systems@;
            let render = metas[key(DefaultSet::Render)];
            let transfer = metas[key(DefaultSet::Transfer)];
            let compute = metas[key(DefaultSet::Compute)];
            &&& after.contains((transfer.submission, render.prelude))
            &&& after.contains((transfer.submission, compute.prelude))
            &&& after.contains((acquire, render.prelude))
            &&& after.contains((render.submission, present))
        }),
{
    let render = key(DefaultSet::Render);
    let transfer = key(DefaultSet::Transfer);
    let compute = key(DefaultSet::Compute);
    assert(DefaultSet::Render.follows() is Some);
    assert(DefaultSet::Compute.follows() is Some);
    assert(DefaultSet::Render.presents());
    pass::law_ordered_sets_run_in_order(
        sets,
        submission_sets,
        render_sets,
        before,
        after,
        transfer,
        render,
    );
    pass::law_ordered_sets_run_in_order(
        sets,
        submission_sets,
        render_sets,
        before,
        after,
        transfer,
        compute,
    );
    let steps = graph::parent_steps(graph::node_edges(sets.hierarchy));
    let path = seq![render, swapchain];
    assert(steps.contains((render, swapchain)));
    assert(graph::is_path(steps, path));
    assert(graph::leads(steps, render, swapchain));
    pass::law_sets_stay_within_the_sets_around_them(
        sets,
        submission_sets,
        render_sets,
        before,
        after,
        render,
        swapchain,
        acquire,
    );
    pass::law_sets_stay_within_the_sets_around_them(
        sets,
        submission_sets,
        render_sets,
        before,
        after,
        render,
        swapchain,
        present,
    );
}

/// The registered sets: the queue and the settings of each submission set, and
/// the system that begins each render set. Sets are known by number.
pub struct SubmissionSetRegistry {
    pub submission_sets_to_queue: HashMap<u64, (usize, SubmissionSetConfig)>,
    pub render_sets_to_systems: HashMap<u64, u64>,
}

/// The systems of `now` that are not in `existing`.
pub open spec fn added_systems(existing: Seq<u64>, now: Seq<u64>) -> Seq<u64> {
    now.filter(|key: u64| !existing.contains(key))
}

/// A system was added where it is there now and was not there before.
pub proof fn law_added_systems_are_new(existing: Seq<u64>, now: Seq<u64>, system: u64)
    ensures
        added_systems(existing, now).contains(system) <==> now.contains(system)
            && !existing.contains(system),
{
    let is_new = |key: u64| !existing.contains(key);
    let added = now.filter(is_new);
    if added.contains(system) {
        let i = choose|i: int| 0 <= i < added.len() && added[i] == system;
        now.lemma_filter_pred(is_new, i);
        now.lemma_filter_contains_rev(is_new, system);
    }
    if now.contains(system) && !existing.contains(system) {
        let i = choose|i: int| 0 <= i < now.len() && now[i] == system;
        now.lemma_filter_contains(is_new, i);
    }
}

impl SubmissionSetRegistry {
    /// A registry without sets.
    pub fn new() -> (r: Self)
        ensures
            r.submission_sets_to_queue@ == Map::<u64, (usize, SubmissionSetConfig)>::empty(),
            r.render_sets_to_systems@ == Map::<u64, u64>::empty(),
    {
        SubmissionSetRegistry {
            submission_sets_to_queue: HashMap::new(),
            render_sets_to_systems: HashMap::new(),
        }
    }

    /// Registers a submission set for the queue of a purpose, in place of what
    /// was registered for that set.
    pub fn add_submission_set(
        &mut self,
        queues: &QueueConfiguration,
        purpose: u64,
        set: u64,
        config: SubmissionSetConfig,
    )
        requires
            queues.wf(),
            queues.mapping@.contains_key(purpose),
        ensures
            final(self).submission_sets_to_queue@ == old(self).submission_sets_to_queue@.insert(
                set,
                (queues.mapping@[purpose], config),
            ),
            final(self).render_sets_to_systems == old(self).render_sets_to_systems,
    {
        match queues.component_id_of_queue(purpose) {
            Some(component) => {
                self.submission_sets_to_queue.insert(set, (component, config));
            },
            None => {},
        }
    }

    /// Registers a render set. `existing` are the systems of the schedule before
    /// the system that begins the set was added, `now` those after it.
    pub fn add_render_set(&mut self, set: u64, existing: &[u64], now: &[u64])
        requires
            added_systems(existing@, now@).len() == 1,
        ensures
            final(self).render_sets_to_systems@ == old(self).render_sets_to_systems@.insert(
                set,
                added_systems(existing@, now@)[0],
            ),
            final(self).submission_sets_to_queue == old(self).submission_sets_to_queue,
    {
        let ghost is_new = |key: u64| !existing@.contains(key);
        let mut i: usize = 0;
        while i < now.len()
            invariant
                i <= now@.len(),
                is_new == (|key: u64| !existing@.contains(key)),
                self.submission_sets_to_queue == old(self).submission_sets_to_queue,
                self.render_sets_to_systems == old(self).render_sets_to_systems,
                added_systems(existing@, now@).len() == 1,
                now@.take(i as int).filter(is_new).len() == 0,
            decreases now@.len() - i,
        {
            let key: u64 = now[i];
            proof {
                let head = now@.take(i + 1);
                assert(head.drop_last() =~= now@.take(i as int));
                reveal(Seq::filter);
            }
            if !is_listed(existing, key) {
                proof {
                    let head = now@.take(i + 1);
                    assert(head.filter(is_new) =~= seq![key]);
                    lemma_filter_prefix(now@, is_new, i + 1);
                    assert(added_systems(existing@, now@) == now@.filter(is_new));
                    assert(head.filter(is_new)[0] == now@.filter(is_new)[0]);
                }
                self.render_sets_to_systems.insert(set, key);
                return ;
            }
            i += 1;
        }
        assert(now@.take(i as int) =~= now@);
    }
}

/// What is filtered out of a prefix leads what is filtered out of the whole.
proof fn lemma_filter_prefix(s: Seq<u64>, p: spec_fn(u64) -> bool, n: int)
    requires
        0 <= n <= s.len(),
    ensures
        s.take(n).filter(p).is_prefix_of(s.filter(p)),
    decreases s.len(),
{
    reveal(Seq::filter);
    if n == s.len() {
        assert(s.take(n) =~= s);
    } else {
        assert(s.drop_last().take(n) =~= s.take(n));
        lemma_filter_prefix(s.drop_last(), p, n);
    }
}

} // verus!
