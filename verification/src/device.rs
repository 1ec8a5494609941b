//! Configuration of a logical device: its extensions and its queues.

use vstd::prelude::*;

use crate::bits;
use crate::names::{copy_name, NameMap};
use crate::physical_device;
use crate::physical_device::{MissingFeatureError, PhysicalDeviceFeatureMap};
use crate::version;
use crate::version::Version;
use crate::vk;
use vstd::string::*;

verus! {

/// An extension: its name, and the version of Vulkan that it became part of,
/// if any.
#[derive(Debug)]
pub struct Extension {
    pub name: Vec<u8>,
    pub promoted_to: Option<Version>,
}

/// Whether Vulkan of the given version does what the extension does.
pub open spec fn is_core(e: Extension, api_version: Version) -> bool {
    e.promoted_to matches Some(v) && api_version.0 >= v.0
}

/// Name of the extension behind `synchronization2`.
pub const SYNCHRONIZATION2: &'static str = "VK_KHR_synchronization2";

/// Name of the extension behind timeline semaphores.
pub const TIMELINE_SEMAPHORE: &'static str = "VK_KHR_timeline_semaphore";

/// Name of the extension that a partial implementation of Vulkan has.
pub const PORTABILITY_SUBSET: &'static str = "VK_KHR_portability_subset";

/// Structure type of the `synchronization2` feature.
pub const SYNCHRONIZATION2_FEATURES: i32 = 1000314007;

/// Structure type of the timeline semaphore feature.
pub const TIMELINE_SEMAPHORE_FEATURES: i32 = 1000207000;

/// An extension by its name.
pub fn extension(name: &str, promoted_to: Option<Version>) -> (r: Extension)
    ensures
        r.name@ == name.spec_bytes(),
        r.promoted_to == promoted_to,
{
    Extension { name: copy_name(name.as_bytes()), promoted_to }
}

/// A family of queues on a physical device.
#[derive(Debug, Clone, Copy, PartialEq, Eq, Structural)]
pub struct QueueFamily {
    pub queue_flags: u32,
    pub queue_count: u32,
}

/// A queue that the device will have.
#[derive(Debug, Clone, Copy, PartialEq, Eq, Structural)]
pub struct DeviceQueueRef {
    pub family: u32,
    pub index: u32,
    pub flags: u32,
}

impl DeviceQueueRef {
    /// The family of the queue.
    pub fn family_index(&self) -> (r: u32)
        ensures
            r == self.family,
    {
        self.family
    }

    /// What the queue can do.
    pub fn flags(&self) -> (r: u32)
        ensures
            r == self.flags,
    {
        self.flags
    }
}

/// Queues of one family that are created with the device. Priorities are
/// given by the bit patterns of floats.
pub struct QueueCreateInfo {
    pub family: u32,
    pub priorities: Vec<u32>,
}

/// Configuration of a device that is to be created.
pub struct DeviceBuilder {
    pub api_version: Version,
    pub features: PhysicalDeviceFeatureMap,
    pub available_extensions: NameMap<Version>,
    /// Whether each enabled extension has commands to be loaded.
    pub enabled_extensions: NameMap<bool>,
    pub queue_info: Vec<QueueFamily>,
    /// How many queues of each family are enabled.
    pub queue_counts: Vec<u32>,
    /// One priority for each queue of the physical device, family by family.
    pub queue_priorities: Vec<u32>,
    pub bindless_enabled: bool,
}

/// How many queues the first `n` families have together.
pub open spec fn queues_before(families: Seq<QueueFamily>, n: nat) -> int
    decreases n,
{
    if n == 0 {
        0
    } else {
        queues_before(families, (n - 1) as nat) + families[n - 1].queue_count
    }
}

proof fn lemma_queues_monotonic(families: Seq<QueueFamily>, i: nat, j: nat)
    requires
        i <= j <= families.len(),
    ensures
        0 <= queues_before(families, i) <= queues_before(families, j),
    decreases j,
{
    if i < j {
        lemma_queues_monotonic(families, i, (j - 1) as nat);
    } else if i > 0 {
        lemma_queues_monotonic(families, (i - 1) as nat, (j - 1) as nat);
    }
}

/// A family has the required abilities and a queue that is not enabled yet.
pub open spec fn is_candidate(b: DeviceBuilder, required: u32, i: int) -> bool {
    &&& 0 <= i < b.queue_info@.len()
    &&& vk::contains(b.queue_info@[i].queue_flags, required)
    &&& b.queue_counts@[i] < b.queue_info@[i].queue_count
}

/// The candidate with the fewest abilities, and of several the first.
pub open spec fn is_best_family(b: DeviceBuilder, required: u32, i: int) -> bool {
    &&& is_candidate(b, required, i)
    &&& forall|j: int|
        #[trigger] is_candidate(b, required, j) ==> bits::bit_count(b.queue_info@[i].queue_flags)
            <= bits::bit_count(b.queue_info@[j].queue_flags)
    &&& forall|j: int|
        #[trigger] is_candidate(b, required, j) && j < i ==> bits::bit_count(
            b.queue_info@[i].queue_flags,
        ) < bits::bit_count(b.queue_info@[j].queue_flags)
}

/// Nothing but the queues of a builder has changed.
pub open spec fn same_settings(before: DeviceBuilder, after: DeviceBuilder) -> bool {
    &&& after.queue_info == before.queue_info
    &&& after.enabled_extensions == before.enabled_extensions
    &&& after.available_extensions == before.available_extensions
    &&& after.api_version == before.api_version
    &&& after.features == before.features
    &&& after.bindless_enabled == before.bindless_enabled
}

/// A queue of the least able family with the required abilities was enabled.
pub open spec fn queue_taken(
    before: DeviceBuilder,
    after: DeviceBuilder,
    required: u32,
    priority: u32,
    q: DeviceQueueRef,
) -> bool {
    let f = q.family as int;
    &&& is_best_family(before, required, f)
    &&& q.index == before.queue_counts@[f]
    &&& q.flags == before.queue_info@[f].queue_flags
    &&& after.queue_counts@ == before.queue_counts@.update(f, (q.index + 1) as u32)
    &&& after.queue_priorities@ == before.queue_priorities@.update(
        before.priority_place(f, q.index as int),
        priority,
    )
}

/// A queue is taken from a family that can do what is asked for and has a queue
/// left, and no family with fewer abilities would do. It is the next queue of
/// its family, with the abilities of the family and the priority that was given;
/// the queues of other families and other priorities stay as they are.
pub proof fn law_queues_are_taken_from_the_least_able_family(
    before: DeviceBuilder,
    after: DeviceBuilder,
    required: u32,
    priority: u32,
    q: DeviceQueueRef,
    other: int,
)
    requires
        before.wf(),
        queue_taken(before, after, required, priority, q),
        0 <= other < before.queue_info@.len(),
    ensures
        q.family < before.queue_info@.len(),
        before.queue_info@[q.family as int].queue_flags & required == required,
        before.queue_counts@[q.family as int] < before.queue_info@[q.family as int].queue_count,
        q.index == before.queue_counts@[q.family as int],
        q.flags == before.queue_info@[q.family as int].queue_flags,
        before.queue_info@[other].queue_flags & required == required && before.queue_counts@[other]
            < before.queue_info@[other].queue_count ==> {
            let ours = bits::bit_count(before.queue_info@[q.family as int].queue_flags);
            let theirs = bits::bit_count(before.queue_info@[other].queue_flags);
            ours < theirs || (ours == theirs && q.family <= other)
        },
        after.queue_counts@[q.family as int] == before.queue_counts@[q.family as int] + 1,
        other != q.family ==> after.queue_counts@[other] == before.queue_counts@[other],
        after.queue_priorities@[before.priority_place(q.family as int, q.index as int)] == priority,
        after.queue_priorities@.len() == before.queue_priorities@.len(),
        forall|p: int|
            0 <= p < before.queue_priorities@.len() && p != before.priority_place(
                q.family as int,
                q.index as int,
            ) ==> #[trigger] after.queue_priorities@[p] == before.queue_priorities@[p],
{
    law_queues_have_their_place(before, q.family as int, q.index as int);
    if is_candidate(before, required, other) {
        assert(is_candidate(before, required, other));
    }
}

/// The priority of a queue is kept behind those of all families before its own,
/// and of the queues before it in its family.
pub proof fn law_queues_have_their_place(b: DeviceBuilder, family: int, index: int)
    requires
        b.wf(),
        0 <= family < b.queue_info@.len(),
        0 <= index < b.queue_info@[family].queue_count,
    ensures
        0 <= b.priority_place(family, index) < b.queue_priorities@.len(),
        b.priority_place(0, index) == index,
        b.priority_place(family + 1, 0) == b.priority_place(family, 0)
            + b.queue_info@[family].queue_count,
        b.priority_place(family, index) == b.priority_place(family, 0) + index,
{
    lemma_queues_monotonic(b.queue_info@, (family + 1) as nat, b.queue_info@.len());
    lemma_queues_monotonic(b.queue_info@, family as nat, b.queue_info@.len());
}

/// The extension of this name is among those of a device, or part of its
/// version of Vulkan.
pub open spec fn is_supported(
    api_version: Version,
    available: Map<Seq<u8>, Version>,
    name: &str,
    promoted_to: u32,
) -> bool {
    api_version.0 >= promoted_to || available.contains_key(name.spec_bytes())
}

/// A device supports what every device needs.
pub open spec fn supports_defaults(
    api_version: Version,
    available: Map<Seq<u8>, Version>,
    synchronization2: u32,
    timeline_semaphore: u32,
) -> bool {
    &&& is_supported(api_version, available, SYNCHRONIZATION2, version::packed(0, 1, 3, 0))
    &&& synchronization2 != vk::FALSE
    &&& is_supported(api_version, available, TIMELINE_SEMAPHORE, version::packed(0, 1, 2, 0))
    &&& timeline_semaphore != vk::FALSE
}

/// Every device needs `synchronization2`, by its extension or by Vulkan 1.3, and
/// timeline semaphores, by their extension or by Vulkan 1.2, and has to report
/// both features.
pub proof fn law_needs_of_every_device(
    api_version: Version,
    available: Map<Seq<u8>, Version>,
    synchronization2: u32,
    timeline_semaphore: u32,
)
    ensures
        supports_defaults(api_version, available, synchronization2, timeline_semaphore) <==> {
            &&& synchronization2 != vk::FALSE
            &&& timeline_semaphore != vk::FALSE
            &&& api_version.0 >= 0x40_3000 || available.contains_key(
                "VK_KHR_synchronization2".spec_bytes(),
            )
            &&& api_version.0 >= 0x40_2000 || available.contains_key(
                "VK_KHR_timeline_semaphore".spec_bytes(),
            )
        },
{
    version::law_variants_are_kept_apart(0, 1, 3, 0);
    version::law_variants_are_kept_apart(0, 1, 2, 0);
}

/// An extension that Vulkan has taken in is there from its version on, and not
/// before; one that it has not taken in never is.
pub proof fn law_extensions_become_core(e: Extension, api_version: Version)
    ensures
        e.promoted_to is None ==> !is_core(e, api_version),
        e.promoted_to matches Some(v) ==> (is_core(e, api_version) <==> api_version.0 >= v.0),
{
}

/// Whether a device supports what every device needs.
pub fn has_default_features(
    api_version: Version,
    available: &NameMap<Version>,
    synchronization2: u32,
    timeline_semaphore: u32,
) -> (r: bool)
    requires
        available.wf(),
    ensures
        r == supports_defaults(api_version, available@, synchronization2, timeline_semaphore),
{
    let synchronization = Version::new(0, 1, 3, 0);
    let semaphores = Version::new(0, 1, 2, 0);
    (api_version.0 >= synchronization.0 || available.contains(SYNCHRONIZATION2.as_bytes()))
        && synchronization2 != vk::FALSE && (api_version.0 >= semaphores.0 || available.contains(
        TIMELINE_SEMAPHORE.as_bytes(),
    )) && timeline_semaphore != vk::FALSE
}

/// `m` with an extension, where that is not part of Vulkan.
pub open spec fn with_extension(
    api_version: Version,
    m: Map<Seq<u8>, bool>,
    name: &str,
    promoted_to: u32,
) -> Map<Seq<u8>, bool> {
    if api_version.0 >= promoted_to {
        m
    } else {
        m.insert(name.spec_bytes(), true)
    }
}

/// The extensions that are enabled with the defaults, on top of those that are
/// enabled already.
pub open spec fn default_extensions(
    api_version: Version,
    available: Map<Seq<u8>, Version>,
    enabled: Map<Seq<u8>, bool>,
    portability: bool,
) -> Map<Seq<u8>, bool> {
    let required = with_extension(
        api_version,
        with_extension(api_version, enabled, SYNCHRONIZATION2, version::packed(0, 1, 3, 0)),
        TIMELINE_SEMAPHORE,
        version::packed(0, 1, 2, 0),
    );
    if portability && available.contains_key(PORTABILITY_SUBSET.spec_bytes()) {
        required.insert(PORTABILITY_SUBSET.spec_bytes(), true)
    } else {
        required
    }
}

/// The extensions of `synchronization2` and of timeline semaphores are enabled
/// where Vulkan does not have them yet, that of partial implementations where the
/// platform is one and the device has it. Nothing else is enabled or disabled.
pub proof fn law_default_extensions(
    api_version: Version,
    available: Map<Seq<u8>, Version>,
    enabled: Map<Seq<u8>, bool>,
    portability: bool,
    name: Seq<u8>,
)
    ensures
        ({
            let r = default_extensions(api_version, available, enabled, portability);
            let first = "VK_KHR_synchronization2".spec_bytes();
            let second = "VK_KHR_timeline_semaphore".spec_bytes();
            let third = "VK_KHR_portability_subset".spec_bytes();
            let added = (api_version.0 < 0x40_3000 && name == first) || (api_version.0 < 0x40_2000
                && name == second) || (portability && available.contains_key(third) && name
                == third);
            &&& added ==> r.contains_key(name) && r[name]
            &&& !added ==> (r.contains_key(name) <==> enabled.contains_key(name))
            &&& !added && enabled.contains_key(name) ==> r[name] == enabled[name]
        }),
{
    version::law_variants_are_kept_apart(0, 1, 3, 0);
    version::law_variants_are_kept_apart(0, 1, 2, 0);
}

impl DeviceBuilder {
    /// No family has more queues enabled than it has, and each queue has a
    /// place for its priority.
    pub open spec fn wf(&self) -> bool {
        &&& self.available_extensions.wf()
        &&& self.enabled_extensions.wf()
        &&& self.queue_counts@.len() == self.queue_info@.len()
        &&& self.queue_info@.len() <= u32::MAX
        &&& forall|i: int|
            0 <= i < self.queue_info@.len() ==> (#[trigger] self.queue_counts@[i])
                <= self.queue_info@[i].queue_count
        &&& queues_before(self.queue_info@, self.queue_info@.len()) <= u32::MAX
        &&& self.queue_priorities@.len() == queues_before(
            self.queue_info@,
            self.queue_info@.len(),
        )
    }

    /// Where the priority of a queue is kept.
    pub open spec fn priority_place(&self, family: int, index: int) -> int {
        queues_before(self.queue_info@, family as nat) + index
    }

    /// The builder for a device with the given extensions and queue families,
    /// with what every device needs enabled: `synchronization2` and timeline
    /// semaphores, each by its extension and its feature, and on platforms with
    /// partial implementations their extension, where it is there. The device
    /// has to support the first two; `synchronization2` and `timeline_semaphore`
    /// are what it reports of them.
    pub fn new(
        api_version: Version,
        available_extensions: NameMap<Version>,
        queue_info: Vec<QueueFamily>,
        synchronization2: u32,
        timeline_semaphore: u32,
        portability: bool,
    ) -> (r: Self)
        requires
            available_extensions.wf(),
            queue_info@.len() <= u32::MAX,
            queues_before(queue_info@, queue_info@.len()) <= u32::MAX,
            supports_defaults(
                api_version,
                available_extensions@,
                synchronization2,
                timeline_semaphore,
            ),
        ensures
            r.wf(),
            r.api_version == api_version,
            r.available_extensions == available_extensions,
            r.enabled_extensions@ == default_extensions(
                api_version,
                available_extensions@,
                Map::empty(),
                portability,
            ),
            physical_device::flags_or(
                r.features.enabled_features@,
                SYNCHRONIZATION2_FEATURES,
                Seq::empty(),
            ) == seq![vk::TRUE],
            physical_device::flags_or(
                r.features.enabled_features@,
                TIMELINE_SEMAPHORE_FEATURES,
                Seq::empty(),
            ) == seq![vk::TRUE],
            forall|k: i32|
                #![trigger r.features.enabled_features@.contains_key(k)]
                #![trigger r.features.available_features@.contains_key(k)]
                k != SYNCHRONIZATION2_FEATURES && k != TIMELINE_SEMAPHORE_FEATURES
                    ==> !r.features.enabled_features@.contains_key(k)
                    && !r.features.available_features@.contains_key(k),
            r.queue_info@ == queue_info@,
            forall|i: int| 0 <= i < r.queue_counts@.len() ==> r.queue_counts@[i] == 0,
            forall|i: int| 0 <= i < r.queue_priorities@.len() ==> r.queue_priorities@[i] == 0,
            !r.bindless_enabled,
    {
        let mut builder = DeviceBuilder::empty(api_version, available_extensions, queue_info);
        let _ = builder.enable_defaults(synchronization2, timeline_semaphore, portability);
        builder
    }

    /// The builder for a device with the given extensions and queue families,
    /// with nothing enabled.
    pub fn empty(
        api_version: Version,
        available_extensions: NameMap<Version>,
        queue_info: Vec<QueueFamily>,
    ) -> (r: Self)
        requires
            available_extensions.wf(),
            queue_info@.len() <= u32::MAX,
            queues_before(queue_info@, queue_info@.len()) <= u32::MAX,
        ensures
            r.wf(),
            r.api_version == api_version,
            r.available_extensions == available_extensions,
            r.enabled_extensions@ == Map::<Seq<u8>, bool>::empty(),
            r.queue_info@ == queue_info@,
            forall|i: int| 0 <= i < r.queue_counts@.len() ==> r.queue_counts@[i] == 0,
            forall|i: int| 0 <= i < r.queue_priorities@.len() ==> r.queue_priorities@[i] == 0,
            r.features.available_features@ == Map::<i32, Vec<u32>>::empty(),
            r.features.enabled_features@ == Map::<i32, Vec<u32>>::empty(),
            !r.bindless_enabled,
    {
        let mut queue_counts: Vec<u32> = Vec::new();
        let mut queue_priorities: Vec<u32> = Vec::new();
        let mut i: usize = 0;
        while i < queue_info.len()
            invariant
                i <= queue_info@.len(),
                queue_counts@.len() == i,
                forall|j: int| 0 <= j < i ==> queue_counts@[j] == 0,
                queue_priorities@.len() == queues_before(queue_info@, i as nat),
                forall|j: int| 0 <= j < queue_priorities@.len() ==> queue_priorities@[j] == 0,
            decreases queue_info@.len() - i,
        {
            queue_counts.push(0);
            let count: u32 = queue_info[i].queue_count;
            let ghost start = queue_priorities@.len();
            let mut k: u32 = 0;
            while k < count
                invariant
                    k <= count,
                    queue_priorities@.len() == start + k,
                    forall|j: int| 0 <= j < queue_priorities@.len() ==> queue_priorities@[j] == 0,
                decreases count - k,
            {
                queue_priorities.push(0);
                k += 1;
            }
            i += 1;
        }
        DeviceBuilder {
            api_version,
            features: PhysicalDeviceFeatureMap::new(),
            available_extensions,
            enabled_extensions: NameMap::new(),
            queue_info,
            queue_counts,
            queue_priorities,
            bindless_enabled: false,
        }
    }

    /// Everything but the enabled extensions is as before.
    pub open spec fn same_but_extensions(&self, other: DeviceBuilder) -> bool {
        &&& self.api_version == other.api_version
        &&& self.features == other.features
        &&& self.available_extensions == other.available_extensions
        &&& self.queue_info == other.queue_info
        &&& self.queue_counts == other.queue_counts
        &&& self.queue_priorities == other.queue_priorities
        &&& self.bindless_enabled == other.bindless_enabled
    }

    /// Enables an extension. One that is part of Vulkan already needs nothing.
    pub fn enable_extension(&mut self, e: &Extension) -> (r: Result<(), MissingFeatureError>)
        requires
            old(self).wf(),
        ensures
            final(self).wf(),
            final(self).same_but_extensions(*old(self)),
            r is Ok <==> is_core(*e, old(self).api_version) || old(self).available_extensions@.contains_key(e.name@),
            r matches Err(MissingFeatureError::Extension(name)) ==> name@ == e.name@,
            r matches Err(err) ==> err is Extension,
            final(self).enabled_extensions@ == (if r is Ok && !is_core(*e, old(self).api_version) {
                old(self).enabled_extensions@.insert(e.name@, true)
            } else {
                old(self).enabled_extensions@
            }),
    {
        match e.promoted_to {
            Some(v) => {
                if self.api_version.at_least(v) {
                    return Ok(());
                }
            },
            None => {},
        }
        if self.available_extensions.contains(e.name.as_slice()) {
            self.enabled_extensions.insert(copy_name(e.name.as_slice()), true);
            Ok(())
        } else {
            Err(MissingFeatureError::Extension(copy_name(e.name.as_slice())))
        }
    }

    /// Enables an extension of which no commands are needed.
    pub fn enable_extension_named(&mut self, name: &[u8]) -> (r: Result<(), MissingFeatureError>)
        requires
            old(self).wf(),
        ensures
            final(self).wf(),
            final(self).same_but_extensions(*old(self)),
            r is Ok <==> old(self).available_extensions@.contains_key(name@),
            r matches Err(MissingFeatureError::Extension(n)) ==> n@ == name@,
            r matches Err(err) ==> err is Extension,
            final(self).enabled_extensions@ == (if r is Ok && !old(self).enabled_extensions@.contains_key(name@) {
                old(self).enabled_extensions@.insert(name@, false)
            } else {
                old(self).enabled_extensions@
            }),
    {
        if self.available_extensions.contains(name) {
            self.enabled_extensions.insert_if_absent(copy_name(name), false);
            Ok(())
        } else {
            Err(MissingFeatureError::Extension(copy_name(name)))
        }
    }

    /// A feature of an extension can be enabled: the extension is enabled, or
    /// part of Vulkan.
    pub open spec fn provides(&self, required: Extension) -> bool {
        is_core(required, self.api_version) || self.enabled_extensions@.contains_key(
            required.name@,
        )
    }

    /// Enables a flag of a feature structure, of which the device reports
    /// `reported`. The extension that the feature belongs to has to be enabled
    /// before, where it is not part of Vulkan.
    pub fn enable_feature(
        &mut self,
        required: &Extension,
        structure: i32,
        field: usize,
        reported: Vec<u32>,
    ) -> (r: Result<(), MissingFeatureError>)
        requires
            old(self).wf(),
            field < reported@.len(),
            old(self).features.fits(structure, reported@.len()),
        ensures
            final(self).wf(),
            r is Ok <==> old(self).provides(*required) && physical_device::flags_or(
                old(self).features.available_features@,
                structure,
                reported@,
            )[field as int] != vk::FALSE,
            r matches Err(e) ==> (e is Extension <==> !old(self).provides(*required)),
            r matches Err(MissingFeatureError::Extension(name)) ==> name@ == required.name@,
            !old(self).provides(*required) ==> final(self).features == old(self).features,
            r is Ok ==> physical_device::flags_or(
                final(self).features.enabled_features@,
                structure,
                Seq::empty(),
            ) == physical_device::flags_or(
                old(self).features.enabled_features@,
                structure,
                physical_device::no_flags(reported@.len()),
            ).update(field as int, vk::TRUE),
            r is Err ==> final(self).features.enabled_features@
                == old(self).features.enabled_features@,
            old(self).provides(*required) ==> physical_device::flags_or(
                final(self).features.available_features@,
                structure,
                Seq::empty(),
            ) == physical_device::flags_or(
                old(self).features.available_features@,
                structure,
                reported@,
            ),
            final(self).features.fits(structure, reported@.len()),
            forall|other: i32, len: nat|
                other != structure && old(self).features.fits(other, len)
                    ==> #[trigger] final(self).features.fits(other, len),
            forall|other: i32|
                other != structure ==> {
                    &&& #[trigger] final(self).features.available_features@.contains_key(other)
                        == old(self).features.available_features@.contains_key(other)
                    &&& final(self).features.available_features@[other]
                        == old(self).features.available_features@[other]
                },
            forall|other: i32|
                other != structure ==> {
                    &&& #[trigger] final(self).features.enabled_features@.contains_key(other)
                        == old(self).features.enabled_features@.contains_key(other)
                    &&& final(self).features.enabled_features@[other]
                        == old(self).features.enabled_features@[other]
                },
            final(self).api_version == old(self).api_version,
            final(self).available_extensions == old(self).available_extensions,
            final(self).enabled_extensions == old(self).enabled_extensions,
            final(self).queue_info == old(self).queue_info,
            final(self).queue_counts == old(self).queue_counts,
            final(self).queue_priorities == old(self).queue_priorities,
            final(self).bindless_enabled == old(self).bindless_enabled,
    {
        let core: bool = match required.promoted_to {
            Some(v) => self.api_version.at_least(v),
            None => false,
        };
        if !core && !self.enabled_extensions.contains(required.name.as_slice()) {
            return Err(MissingFeatureError::Extension(copy_name(required.name.as_slice())));
        }
        self.features.enable_feature(structure, field, reported)
    }

    /// Enables what every device needs: `synchronization2` and timeline
    /// semaphores, each by its extension and its feature, and on platforms
    /// with partial implementations their extension, where it is there. The
    /// first two arguments are what the device reports of the features.
    pub fn enable_defaults(
        &mut self,
        synchronization2: u32,
        timeline_semaphore: u32,
        portability: bool,
    ) -> (r: Result<(), MissingFeatureError>)
        requires
            old(self).wf(),
            old(self).features.available_features@ == Map::<i32, Vec<u32>>::empty(),
            old(self).features.enabled_features@ == Map::<i32, Vec<u32>>::empty(),
        ensures
            final(self).wf(),
            r is Ok <==> supports_defaults(
                old(self).api_version,
                old(self).available_extensions@,
                synchronization2,
                timeline_semaphore,
            ),
            r is Ok ==> physical_device::flags_or(
                final(self).features.enabled_features@,
                TIMELINE_SEMAPHORE_FEATURES,
                Seq::empty(),
            ) == seq![vk::TRUE],
            r is Ok ==> physical_device::flags_or(
                final(self).features.enabled_features@,
                SYNCHRONIZATION2_FEATURES,
                Seq::empty(),
            ) == seq![vk::TRUE],
            r is Ok ==> final(self).enabled_extensions@ == default_extensions(
                old(self).api_version,
                old(self).available_extensions@,
                old(self).enabled_extensions@,
                portability,
            ),
            forall|k: i32|
                #![trigger final(self).features.enabled_features@.contains_key(k)]
                #![trigger final(self).features.available_features@.contains_key(k)]
                k != SYNCHRONIZATION2_FEATURES && k != TIMELINE_SEMAPHORE_FEATURES
                    ==> !final(self).features.enabled_features@.contains_key(k)
                    && !final(self).features.available_features@.contains_key(k),
            final(self).bindless_enabled == old(self).bindless_enabled,
            final(self).queue_info == old(self).queue_info,
            final(self).queue_counts == old(self).queue_counts,
            final(self).queue_priorities == old(self).queue_priorities,
            final(self).available_extensions == old(self).available_extensions,
            final(self).api_version == old(self).api_version,
    {
        let synchronization = extension(SYNCHRONIZATION2, Some(Version::new(0, 1, 3, 0)));
        let semaphores = extension(TIMELINE_SEMAPHORE, Some(Version::new(0, 1, 2, 0)));
        match self.enable_extension(&synchronization) {
            Ok(()) => {},
            Err(e) => {
                return Err(e);
            },
        }
        let mut reported: Vec<u32> = Vec::new();
        reported.push(synchronization2);
        match self.enable_feature(&synchronization, SYNCHRONIZATION2_FEATURES, 0, reported) {
            Ok(()) => {},
            Err(e) => {
                return Err(e);
            },
        }
        match self.enable_extension(&semaphores) {
            Ok(()) => {},
            Err(e) => {
                return Err(e);
            },
        }
        let mut reported: Vec<u32> = Vec::new();
        reported.push(timeline_semaphore);
        proof {
            assert(!self.features.available_features@.contains_key(TIMELINE_SEMAPHORE_FEATURES));
            assert(self.features.fits(TIMELINE_SEMAPHORE_FEATURES, 1));
        }
        match self.enable_feature(&semaphores, TIMELINE_SEMAPHORE_FEATURES, 0, reported) {
            Ok(()) => {},
            Err(e) => {
                return Err(e);
            },
        }
        proof {
            assert(physical_device::no_flags(1).update(0, vk::TRUE) =~= seq![vk::TRUE]);
            assert(self.features.enabled_features@.contains_key(SYNCHRONIZATION2_FEATURES));
        }
        if portability {
            let _ = self.enable_extension(&extension(PORTABILITY_SUBSET, None));
        }
        Ok(())
    }

    /// Enables one more queue of a family; `None` where all are enabled.
    pub fn enable_queue(&mut self, family_index: u32, priority: u32) -> (r: Option<DeviceQueueRef>)
        requires
            old(self).wf(),
            family_index < old(self).queue_info@.len(),
        ensures
            final(self).wf(),
            final(self).queue_info == old(self).queue_info,
            final(self).enabled_extensions == old(self).enabled_extensions,
            final(self).available_extensions == old(self).available_extensions,
            final(self).api_version == old(self).api_version,
            final(self).features == old(self).features,
            final(self).bindless_enabled == old(self).bindless_enabled,
            ({
                let f = family_index as int;
                let used = old(self).queue_counts@[f];
                &&& r is Some <==> used < old(self).queue_info@[f].queue_count
                &&& r is None ==> final(self).queue_counts@ == old(self).queue_counts@ && final(self).queue_priorities@ == old(self).queue_priorities@
                &&& r matches Some(q) ==> {
                    &&& q == (DeviceQueueRef {
                        family: family_index,
                        index: used,
                        flags: old(self).queue_info@[f].queue_flags,
                    })
                    &&& final(self).queue_counts@ == old(self).queue_counts@.update(
                        f,
                        (used + 1) as u32,
                    )
                    &&& final(self).queue_priorities@ == old(self).queue_priorities@.update(
                        old(self).priority_place(f, used as int),
                        priority,
                    )
                }
            }),
    {
        let f: usize = family_index as usize;
        let index: u32 = self.queue_counts[f];
        if index >= self.queue_info[f].queue_count {
            return None;
        }
        let mut offset: u32 = 0;
        let mut i: usize = 0;
        while i < f
            invariant
                i <= f < self.queue_info@.len(),
                self.wf(),
                offset == queues_before(self.queue_info@, i as nat),
            decreases f - i,
        {
            proof {
                lemma_queues_monotonic(self.queue_info@, (i + 1) as nat, self.queue_info@.len());
            }
            offset += self.queue_info[i].queue_count;
            i += 1;
        }
        proof {
            lemma_queues_monotonic(self.queue_info@, (f + 1) as nat, self.queue_info@.len());
            lemma_queues_monotonic(self.queue_info@, f as nat, self.queue_info@.len());
        }
        self.queue_priorities.set(offset as usize + index as usize, priority);
        self.queue_counts.set(f, index + 1);
        Some(
            DeviceQueueRef { family: family_index, index, flags: self.queue_info[f].queue_flags },
        )
    }

    /// The family to take a queue from.
    fn best_family(&self, required: u32) -> (r: Option<usize>)
        requires
            self.wf(),
        ensures
            r is Some <==> exists|i: int| #[trigger] is_candidate(*self, required, i),
            r matches Some(i) ==> is_best_family(*self, required, i as int),
    {
        let mut best: Option<usize> = None;
        let mut best_count: u32 = 0;
        let mut i: usize = 0;
        while i < self.queue_info.len()
            invariant
                self.wf(),
                i <= self.queue_info@.len(),
                best is None ==> forall|j: int| 0 <= j < i ==> !#[trigger] is_candidate(
                    *self,
                    required,
                    j,
                ),
                best matches Some(b) ==> {
                    &&& b < i
                    &&& is_candidate(*self, required, b as int)
                    &&& best_count == bits::bit_count(self.queue_info@[b as int].queue_flags)
                    &&& forall|j: int|
                        0 <= j < i && #[trigger] is_candidate(*self, required, j) ==> best_count
                            <= bits::bit_count(self.queue_info@[j].queue_flags)
                    &&& forall|j: int|
                        0 <= j < b && #[trigger] is_candidate(*self, required, j) ==> best_count
                            < bits::bit_count(self.queue_info@[j].queue_flags)
                },
            decreases self.queue_info@.len() - i,
        {
            let family = self.queue_info[i];
            if vk::has_flags(family.queue_flags, required) && self.queue_counts[i]
                < family.queue_count {
                assert(is_candidate(*self, required, i as int));
                let count: u32 = bits::count_ones(family.queue_flags);
                match best {
                    None => {
                        best = Some(i);
                        best_count = count;
                    },
                    Some(_) => {
                        if count < best_count {
                            best = Some(i);
                            best_count = count;
                        }
                    },
                }
            } else {
                assert(!is_candidate(*self, required, i as int));
            }
            i += 1;
        }
        best
    }

    /// Enables a queue of the least able family that has the required
    /// abilities and a queue left; `None` where there is no such family.
    pub fn enable_queue_with_caps(&mut self, required: u32, priority: u32) -> (r: Option<
        DeviceQueueRef,
    >)
        requires
            old(self).wf(),
        ensures
            final(self).wf(),
            same_settings(*old(self), *final(self)),
            r is Some <==> exists|i: int| #[trigger] is_candidate(*old(self), required, i),
            r is None ==> final(self).queue_counts@ == old(self).queue_counts@,
            r is None ==> final(self).queue_priorities@ == old(self).queue_priorities@,
            r matches Some(q) ==> queue_taken(*old(self), *final(self), required, priority, q),
    {
        match self.best_family(required) {
            None => None,
            Some(i) => self.enable_queue(i as u32, priority),
        }
    }

    /// The queues to be created: of each family that has some enabled, their
    /// priorities.
    pub fn queue_create_infos(&self) -> (r: Vec<QueueCreateInfo>)
        requires
            self.wf(),
        ensures
            is_queue_list(r@, *self, self.queue_info@.len()),
    {
        let mut out: Vec<QueueCreateInfo> = Vec::new();
        let mut offset: u32 = 0;
        let mut i: usize = 0;
        while i < self.queue_info.len()
            invariant
                self.wf(),
                i <= self.queue_info@.len(),
                offset == queues_before(self.queue_info@, i as nat),
                is_queue_list(out@, *self, i as nat),
            decreases self.queue_info@.len() - i,
        {
            let count: u32 = self.queue_counts[i];
            proof {
                lemma_queues_monotonic(self.queue_info@, (i + 1) as nat, self.queue_info@.len());
            }
            if count > 0 {
                let mut priorities: Vec<u32> = Vec::new();
                let mut k: u32 = 0;
                while k < count
                    invariant
                        self.wf(),
                        i < self.queue_info@.len(),
                        k <= count,
                        count <= self.queue_info@[i as int].queue_count,
                        offset == queues_before(self.queue_info@, i as nat),
                        offset + self.queue_info@[i as int].queue_count
                            <= self.queue_priorities@.len(),
                        priorities@ == self.queue_priorities@.subrange(
                            offset as int,
                            offset + k,
                        ),
                    decreases count - k,
                {
                    priorities.push(self.queue_priorities[offset as usize + k as usize]);
                    k += 1;
                    assert(priorities@ =~= self.queue_priorities@.subrange(
                        offset as int,
                        offset + k,
                    ));
                }
                let ghost before = out@;
                out.push(QueueCreateInfo { family: i as u32, priorities });
                assert(out@.drop_last() =~= before);
            }
            offset += self.queue_info[i].queue_count;
            i += 1;
        }
        out
    }

    /// The names of the enabled extensions, in their order.
    pub fn enabled_extension_names(&self) -> (r: Vec<&[u8]>)
        ensures
            r@.len() == self.enabled_extensions.entries@.len(),
            forall|i: int|
                0 <= i < r@.len() ==> (#[trigger] r@[i])@ == self.enabled_extensions.names()[i],
    {
        let mut out: Vec<&[u8]> = Vec::new();
        let mut i: usize = 0;
        while i < self.enabled_extensions.entries.len()
            invariant
                i <= self.enabled_extensions.entries@.len(),
                out@.len() == i,
                forall|j: int|
                    0 <= j < i ==> (#[trigger] out@[j])@ == self.enabled_extensions.names()[j],
            decreases self.enabled_extensions.entries@.len() - i,
        {
            out.push(self.enabled_extensions.entries[i].0.as_slice());
            i += 1;
        }
        out
    }
}

/// `list` describes the enabled queues of the first `n` families.
pub open spec fn is_queue_list(list: Seq<QueueCreateInfo>, b: DeviceBuilder, n: nat) -> bool
    decreases n,
{
    if n == 0 {
        list.len() == 0
    } else if b.queue_counts@[n - 1] == 0 {
        is_queue_list(list, b, (n - 1) as nat)
    } else {
        &&& list.len() > 0
        &&& list.last().family == n - 1
        &&& list.last().priorities@ == b.queue_priorities@.subrange(
            b.priority_place(n - 1, 0),
            b.priority_place(n - 1, b.queue_counts@[n - 1] as int),
        )
        &&& is_queue_list(list.drop_last(), b, (n - 1) as nat)
    }
}

/// A device is created with the queues that are enabled: each family with enabled
/// queues is listed once, in order, with the priorities of its queues.
pub proof fn law_enabled_queues_are_listed(list: Seq<QueueCreateInfo>, b: DeviceBuilder, n: nat)
    requires
        b.wf(),
        n <= b.queue_info@.len(),
        is_queue_list(list, b, n),
    ensures
        forall|i: int|
            0 <= i < list.len() ==> {
                let family = (#[trigger] list[i]).family as int;
                &&& family < n
                &&& b.queue_counts@[family] > 0
                &&& list[i].priorities@.len() == b.queue_counts@[family]
                &&& forall|k: int|
                    0 <= k < b.queue_counts@[family] ==> #[trigger] list[i].priorities@[k]
                        == b.queue_priorities@[b.priority_place(family, k)]
            },
        forall|i: int, j: int|
            0 <= i < j < list.len() ==> (#[trigger] list[i]).family < (#[trigger] list[j]).family,
        forall|family: int|
            0 <= family < n && (#[trigger] b.queue_counts@[family]) > 0 ==> exists|i: int|
                0 <= i < list.len() && (#[trigger] list[i]).family == family,
    decreases n,
{
    if n > 0 {
        let f = n - 1;
        lemma_queues_monotonic(b.queue_info@, n, b.queue_info@.len());
        lemma_queues_monotonic(b.queue_info@, (n - 1) as nat, n);
        assert(b.queue_counts@[f] <= b.queue_info@[f].queue_count);
        if b.queue_counts@[f] == 0 {
            law_enabled_queues_are_listed(list, b, (n - 1) as nat);
        } else {
            let init = list.drop_last();
            law_enabled_queues_are_listed(init, b, (n - 1) as nat);
            assert forall|i: int| 0 <= i < list.len() implies {
                let family = (#[trigger] list[i]).family as int;
                &&& family < n
                &&& b.queue_counts@[family] > 0
                &&& list[i].priorities@.len() == b.queue_counts@[family]
                &&& forall|k: int|
                    0 <= k < b.queue_counts@[family] ==> #[trigger] list[i].priorities@[k]
                        == b.queue_priorities@[b.priority_place(family, k)]
            } by {
                if i < init.len() {
                    assert(init[i] == list[i]);
                }
            }
            assert forall|i: int, j: int| 0 <= i < j < list.len() implies (
            #[trigger] list[i]).family < (#[trigger] list[j]).family by {
                assert(init[i] == list[i]);
                if j < init.len() {
                    assert(init[j] == list[j]);
                }
            }
            assert forall|family: int|
                0 <= family < n && (#[trigger] b.queue_counts@[family]) > 0 implies exists|i: int|
                0 <= i < list.len() && (#[trigger] list[i]).family == family by {
                if family == f {
                    assert(list[list.len() - 1].family == family);
                } else {
                    let i = choose|i: int|
                        0 <= i < init.len() && (#[trigger] init[i]).family == family;
                    assert(list[i] == init[i]);
                }
            }
        }
    }
}

/// The extensions of a created device: those that were enabled, and those that
/// come with the instance, whose commands are always loaded.
pub fn device_extensions(enabled: NameMap<bool>, of_instance: &NameMap<bool>) -> (r: NameMap<bool>)
    requires
        enabled.wf(),
        of_instance.wf(),
    ensures
        r.wf(),
        r@ == merged(enabled@, of_instance.entries@, of_instance.entries@.len()),
{
    let mut out = enabled;
    let mut i: usize = 0;
    while i < of_instance.entries.len()
        invariant
            i <= of_instance.entries@.len(),
            out.wf(),
            out@ == merged(enabled@, of_instance.entries@, i as nat),
        decreases of_instance.entries@.len() - i,
    {
        out.insert(copy_name(of_instance.entries[i].0.as_slice()), true);
        i += 1;
    }
    out
}

/// `base` with the names of the first `n` entries, all with commands.
pub open spec fn merged(
    base: Map<Seq<u8>, bool>,
    entries: Seq<(Vec<u8>, bool)>,
    n: nat,
) -> Map<Seq<u8>, bool>
    decreases n,
{
    if n == 0 {
        base
    } else {
        merged(base, entries, (n - 1) as nat).insert(entries[n - 1].0@, true)
    }
}

/// An extension that comes with the instance is there on its devices, with its
/// commands; what was enabled on a device stays.
pub proof fn law_instance_extensions_reach_devices(
    base: Map<Seq<u8>, bool>,
    entries: Seq<(Vec<u8>, bool)>,
    n: nat,
    name: Seq<u8>,
)
    requires
        n <= entries.len(),
    ensures
        merged(base, entries, n).contains_key(name) <==> base.contains_key(name) || exists|i: int|
            0 <= i < n && (#[trigger] entries[i]).0@ == name,
        (exists|i: int| 0 <= i < n && (#[trigger] entries[i]).0@ == name) ==> merged(
            base,
            entries,
            n,
        )[name],
    decreases n,
{
    if n > 0 {
        law_instance_extensions_reach_devices(base, entries, (n - 1) as nat, name);
        assert(entries[n - 1].0@ == entries[n - 1].0@);
    }
}

/// Whether a device has an extension.
pub fn has_extension_named(extensions: &NameMap<bool>, name: &[u8]) -> (r: bool)
    requires
        extensions.wf(),
    ensures
        r == extensions@.contains_key(name@),
{
    extensions.contains(name)
}

/// Tells whether the commands of an extension can be had from a device or an
/// instance with these extensions. One without commands cannot be asked for.
pub fn get_extension(extensions: &NameMap<bool>, name: &[u8]) -> (r: Result<
    (),
    MissingFeatureError,
>)
    requires
        extensions.wf(),
        extensions@.contains_key(name@) ==> extensions@[name@],
    ensures
        r is Ok <==> extensions@.contains_key(name@),
        r matches Err(e) ==> e matches MissingFeatureError::Extension(n) && n@ == name@,
{
    if extensions.contains(name) {
        Ok(())
    } else {
        Err(MissingFeatureError::Extension(copy_name(name)))
    }
}

/// Bit pattern of the float 1.
pub const FULL_PRIORITY: u32 = 0x3F80_0000;

/// The physical device that default settings take: the first of `count`. With
/// none, an error code.
pub fn system_default_device(count: usize) -> (r: Result<usize, i32>)
    ensures
        r == (if count > 0 {
            Ok::<usize, i32>(0)
        } else {
            Err::<usize, i32>(vk::RESULT_ERROR_INCOMPATIBLE_DRIVER)
        }),
{
    if count > 0 {
        Ok(0)
    } else {
        Err(vk::RESULT_ERROR_INCOMPATIBLE_DRIVER)
    }
}

/// The queue that a device with default settings comes with: one of the first
/// family, at full priority.
pub fn create_system_default(builder: &mut DeviceBuilder) -> (r: Result<DeviceQueueRef, i32>)
    requires
        old(builder).wf(),
        old(builder).queue_info@.len() > 0,
    ensures
        final(builder).wf(),
        final(builder).queue_info == old(builder).queue_info,
        final(builder).enabled_extensions == old(builder).enabled_extensions,
        final(builder).available_extensions == old(builder).available_extensions,
        final(builder).api_version == old(builder).api_version,
        final(builder).features == old(builder).features,
        final(builder).bindless_enabled == old(builder).bindless_enabled,
        ({
            let used = old(builder).queue_counts@[0];
            &&& r is Ok <==> used < old(builder).queue_info@[0].queue_count
            &&& r matches Ok(q) ==> {
                &&& q == (DeviceQueueRef {
                    family: 0,
                    index: used,
                    flags: old(builder).queue_info@[0].queue_flags,
                })
                &&& final(builder).queue_counts@ == old(builder).queue_counts@.update(
                    0,
                    (used + 1) as u32,
                )
                &&& final(builder).queue_priorities@ == old(builder).queue_priorities@.update(
                    old(builder).priority_place(0, used as int),
                    FULL_PRIORITY,
                )
            }
            &&& r matches Err(e) ==> {
                &&& e == vk::RESULT_ERROR_INCOMPATIBLE_DRIVER
                &&& final(builder).queue_counts@ == old(builder).queue_counts@
                &&& final(builder).queue_priorities@ == old(builder).queue_priorities@
            }
        }),
{
    match builder.enable_queue(0, FULL_PRIORITY) {
        Some(q) => Ok(q),
        None => Err(vk::RESULT_ERROR_INCOMPATIBLE_DRIVER),
    }
}

/// No two queues that are handed out share a place for their priority.
pub proof fn law_queues_have_their_own_priority(
    b: DeviceBuilder,
    family: int,
    index: int,
    other_family: int,
    other_index: int,
)
    requires
        b.wf(),
        0 <= family < b.queue_info@.len(),
        0 <= other_family < b.queue_info@.len(),
        0 <= index < b.queue_info@[family].queue_count,
        0 <= other_index < b.queue_info@[other_family].queue_count,
        family != other_family || index != other_index,
    ensures
        b.priority_place(family, index) != b.priority_place(other_family, other_index),
        0 <= b.priority_place(family, index) < b.queue_priorities@.len(),
{
    lemma_queues_monotonic(b.queue_info@, (family + 1) as nat, b.queue_info@.len());
    lemma_queues_monotonic(b.queue_info@, family as nat, b.queue_info@.len());
    if family < other_family {
        lemma_queues_monotonic(b.queue_info@, (family + 1) as nat, other_family as nat);
    } else if other_family < family {
        lemma_queues_monotonic(b.queue_info@, (other_family + 1) as nat, family as nat);
    }
}

} // verus!
