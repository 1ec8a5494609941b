//! Properties and features of a physical device.

use vstd::prelude::*;

use crate::memory::{MemoryHeap, MemoryType, MemoryTypeMap, Strategy};
use crate::memory;
use crate::version::Version;
use crate::vk;
use std::collections::BTreeMap;
use vstd::slice::slice_subrange;

verus! {

/// What is missing on a device.
#[derive(Debug)]
pub enum MissingFeatureError {
    /// The extension of this name.
    Extension(Vec<u8>),
    /// A feature.
    Feature,
}

// ---------------------------------------------------------------------------
// Properties
// ---------------------------------------------------------------------------

/// Memory types and heaps as a device reports them: only the first so many
/// entries of each list count.
pub struct MemoryProperties {
    pub memory_types: Vec<MemoryType>,
    pub memory_type_count: u32,
    pub memory_heaps: Vec<MemoryHeap>,
    pub memory_heap_count: u32,
}

/// Properties of a physical device. Its name ends before the first zero.
/// Extended properties are kept once they have been asked for, by the type of
/// their structure.
pub struct PhysicalDeviceProperties {
    pub device_name: Vec<u8>,
    pub api_version: Version,
    pub driver_version: Version,
    pub device_type: i32,
    pub memory_properties: MemoryProperties,
    pub memory_type_map: MemoryTypeMap,
    pub extended: BTreeMap<i32, u64>,
}

impl MemoryProperties {
    /// The counts lie within the lists.
    pub open spec fn wf(&self) -> bool {
        &&& self.memory_type_count <= self.memory_types@.len()
        &&& self.memory_heap_count <= self.memory_heaps@.len()
    }

    pub open spec fn types(&self) -> Seq<MemoryType> {
        self.memory_types@.take(self.memory_type_count as int)
    }

    pub open spec fn heaps(&self) -> Seq<MemoryHeap> {
        self.memory_heaps@.take(self.memory_heap_count as int)
    }
}

impl PhysicalDeviceProperties {
    /// Gathers the properties of a device.
    pub fn new(
        device_name: Vec<u8>,
        api_version: Version,
        driver_version: Version,
        device_type: i32,
        memory_properties: MemoryProperties,
    ) -> (r: Self)
        requires
            memory_properties.wf(),
            memory::heaps_in_range(memory_properties.types(), memory_properties.heaps()),
            memory::available(Strategy::Private, memory_properties.types()),
            memory::available(Strategy::Host, memory_properties.types()),
            memory::available(Strategy::Dynamic, memory_properties.types()),
        ensures
            r.device_name == device_name,
            r.api_version == api_version,
            r.driver_version == driver_version,
            r.device_type == device_type,
            r.memory_properties == memory_properties,
            r.memory_type_map == memory::memory_type_map(
                memory_properties.types(),
                memory_properties.heaps(),
                device_type,
            ),
            r.extended@ == Map::<i32, u64>::empty(),
    {
        let types = slice_subrange(
            memory_properties.memory_types.as_slice(),
            0,
            memory_properties.memory_type_count as usize,
        );
        let heaps = slice_subrange(
            memory_properties.memory_heaps.as_slice(),
            0,
            memory_properties.memory_heap_count as usize,
        );
        assert(types@ =~= memory_properties.types());
        assert(heaps@ =~= memory_properties.heaps());
        let memory_type_map = MemoryTypeMap::new(types, heaps, device_type);
        PhysicalDeviceProperties {
            device_name,
            api_version,
            driver_version,
            device_type,
            memory_properties,
            memory_type_map,
            extended: BTreeMap::new(),
        }
    }

    /// The extended properties of a type, where they have been asked for.
    pub fn get(&self, structure_type: i32) -> (r: Option<u64>)
        ensures
            r is Some <==> self.extended@.contains_key(structure_type),
            r matches Some(v) ==> v == self.extended@[structure_type],
    {
        broadcast use vstd::std_specs::btree::group_btree_axioms;

        match self.extended.get(&structure_type) {
            Some(v) => Some(*v),
            None => None,
        }
    }

    /// Keeps extended properties that the device has reported.
    pub fn keep(&mut self, structure_type: i32, properties: u64)
        ensures
            final(self).extended@ == old(self).extended@.insert(structure_type, properties),
            final(self).device_name == old(self).device_name,
            final(self).api_version == old(self).api_version,
            final(self).driver_version == old(self).driver_version,
            final(self).device_type == old(self).device_type,
            final(self).memory_properties == old(self).memory_properties,
            final(self).memory_type_map == old(self).memory_type_map,
    {
        broadcast use vstd::std_specs::btree::group_btree_axioms;

        self.extended.insert(structure_type, properties);
    }

    /// The name of the device, without the zero that ends it.
    pub fn device_name(&self) -> (r: &[u8])
        requires
            self.device_name@.contains(0),
        ensures
            r@.is_prefix_of(self.device_name@),
            !r@.contains(0),
            r@.len() < self.device_name@.len(),
            self.device_name@[r@.len() as int] == 0,
    {
        let mut end: usize = 0;
        while self.device_name[end] != 0
            invariant
                self.device_name@.contains(0),
                end < self.device_name@.len(),
                forall|i: int| 0 <= i < end ==> self.device_name@[i] != 0,
            decreases self.device_name@.len() - end,
        {
            proof {
                let at = choose|i: int|
                    0 <= i < self.device_name@.len() && #[trigger] self.device_name@[i] == 0;
                assert(end < at && at < self.device_name@.len());
                assert(self.device_name.len() == self.device_name@.len());
            }
            end += 1;
        }
        let name = slice_subrange(self.device_name.as_slice(), 0, end);
        assert(name@ =~= self.device_name@.take(end as int));
        name
    }

    /// The version of Vulkan that the device supports.
    pub fn api_version(&self) -> (r: Version)
        ensures
            r == self.api_version,
    {
        self.api_version
    }

    /// The version of the driver.
    pub fn driver_version(&self) -> (r: Version)
        ensures
            r == self.driver_version,
    {
        self.driver_version
    }

    /// The memory types of the device.
    pub fn memory_types(&self) -> (r: &[MemoryType])
        requires
            self.memory_properties.wf(),
        ensures
            r@ == self.memory_properties.types(),
    {
        let r = slice_subrange(
            self.memory_properties.memory_types.as_slice(),
            0,
            self.memory_properties.memory_type_count as usize,
        );
        assert(r@ =~= self.memory_properties.types());
        r
    }

    /// The memory heaps of the device.
    pub fn memory_heaps(&self) -> (r: &[MemoryHeap])
        requires
            self.memory_properties.wf(),
        ensures
            r@ == self.memory_properties.heaps(),
    {
        let r = slice_subrange(
            self.memory_properties.memory_heaps.as_slice(),
            0,
            self.memory_properties.memory_heap_count as usize,
        );
        assert(r@ =~= self.memory_properties.heaps());
        r
    }

    /// The memory types for the common allocation strategies.
    pub fn memory_type_map(&self) -> (r: &MemoryTypeMap)
        ensures
            *r == self.memory_type_map,
    {
        &self.memory_type_map
    }
}

// ---------------------------------------------------------------------------
// Features
// ---------------------------------------------------------------------------

/// Features by the type of their structure; a structure is the list of its
/// flags.
pub struct PhysicalDeviceFeatureMap {
    pub available_features: BTreeMap<i32, Vec<u32>>,
    pub enabled_features: BTreeMap<i32, Vec<u32>>,
}

/// The flags of a structure in a map; `fallback` where the map has none.
pub open spec fn flags_or(m: Map<i32, Vec<u32>>, structure: i32, fallback: Seq<u32>) -> Seq<u32> {
    if m.contains_key(structure) {
        m[structure]@
    } else {
        fallback
    }
}

/// A structure of which no flag is set.
pub open spec fn no_flags(len: nat) -> Seq<u32> {
    Seq::new(len, |i: int| vk::FALSE)
}

/// The flags of a structure are those of the map, where it has them. A structure
/// that was not asked for has no flag set.
pub proof fn law_known_flags_count(
    m: Map<i32, Vec<u32>>,
    structure: i32,
    fallback: Seq<u32>,
    len: nat,
)
    ensures
        m.contains_key(structure) ==> flags_or(m, structure, fallback) == m[structure]@,
        !m.contains_key(structure) ==> flags_or(m, structure, fallback) == fallback,
        no_flags(len).len() == len,
        forall|i: int| 0 <= i < len ==> #[trigger] no_flags(len)[i] == 0,
{
}

fn cleared_flags(len: usize) -> (r: Vec<u32>)
    ensures
        r@ == no_flags(len as nat),
{
    let mut out: Vec<u32> = Vec::new();
    let mut i: usize = 0;
    while i < len
        invariant
            i <= len,
            out@ == no_flags(i as nat),
        decreases len - i,
    {
        out.push(vk::FALSE);
        i += 1;
        assert(out@ =~= no_flags(i as nat));
    }
    out
}

impl PhysicalDeviceFeatureMap {
    /// Structures are of the length that the device reports for them.
    pub open spec fn fits(&self, structure: i32, len: nat) -> bool {
        &&& self.available_features@.contains_key(structure)
            ==> self.available_features@[structure]@.len() == len
        &&& self.enabled_features@.contains_key(structure)
            ==> self.enabled_features@[structure]@.len() == len
    }

    /// A map in which nothing is known and nothing enabled.
    pub fn new() -> (r: Self)
        ensures
            r.available_features@ == Map::<i32, Vec<u32>>::empty(),
            r.enabled_features@ == Map::<i32, Vec<u32>>::empty(),
    {
        PhysicalDeviceFeatureMap {
            available_features: BTreeMap::new(),
            enabled_features: BTreeMap::new(),
        }
    }

    /// What the device supports of a structure, as far as it has been asked.
    pub fn available_feature(&self, structure: i32) -> (r: Option<&Vec<u32>>)
        ensures
            r is Some <==> self.available_features@.contains_key(structure),
            r matches Some(v) ==> *v == self.available_features@[structure],
    {
        broadcast use vstd::std_specs::btree::group_btree_axioms;

        self.available_features.get(&structure)
    }

    /// What has been enabled of a structure.
    pub fn enabled_feature(&self, structure: i32) -> (r: Option<&Vec<u32>>)
        ensures
            r is Some <==> self.enabled_features@.contains_key(structure),
            r matches Some(v) ==> *v == self.enabled_features@[structure],
    {
        broadcast use vstd::std_specs::btree::group_btree_axioms;

        self.enabled_features.get(&structure)
    }

    /// Enables flag `field` of a structure, where the device supports it.
    /// `reported` is what the device says of the structure; it is kept, and
    /// later reports are not asked for.
    pub fn enable_feature(&mut self, structure: i32, field: usize, reported: Vec<u32>) -> (r: Result<
        (),
        MissingFeatureError,
    >)
        requires
            field < reported@.len(),
            old(self).fits(structure, reported@.len()),
        ensures
            ({
                let known = flags_or(old(self).available_features@, structure, reported@);
                let enabled = flags_or(
                    old(self).enabled_features@,
                    structure,
                    no_flags(reported@.len()),
                );
                &&& r is Ok <==> known[field as int] != vk::FALSE
                &&& r matches Err(e) ==> e is Feature && final(self).enabled_features@ == old(
                    self,
                ).enabled_features@
                &&& flags_or(final(self).available_features@, structure, Seq::empty()) == known
                &&& r is Ok ==> flags_or(
                    final(self).enabled_features@,
                    structure,
                    Seq::empty(),
                ) == enabled.update(field as int, vk::TRUE)
            }),
            final(self).fits(structure, reported@.len()),
            forall|other: i32|
                other != structure ==> {
                    &&& #[trigger] final(self).available_features@.contains_key(other) == old(
                        self,
                    ).available_features@.contains_key(other)
                    &&& final(self).available_features@[other] == old(
                        self,
                    ).available_features@[other]
                },
            forall|other: i32|
                other != structure ==> {
                    &&& #[trigger] final(self).enabled_features@.contains_key(other) == old(
                        self,
                    ).enabled_features@.contains_key(other)
                    &&& final(self).enabled_features@[other] == old(self).enabled_features@[other]
                },
    {
        broadcast use vstd::std_specs::btree::group_btree_axioms;

        let len: usize = reported.len();
        let supported: u32 = match self.available_features.get(&structure) {
            Some(flags) => flags[field],
            None => {
                let flag: u32 = reported[field];
                self.available_features.insert(structure, reported);
                flag
            },
        };
        if supported == vk::FALSE {
            return Err(MissingFeatureError::Feature);
        }
        let mut flags: Vec<u32> = match self.enabled_features.remove(&structure) {
            Some(flags) => flags,
            None => cleared_flags(len),
        };
        flags.set(field, vk::TRUE);
        self.enabled_features.insert(structure, flags);
        Ok(())
    }
}

// ---------------------------------------------------------------------------
// Image formats
// ---------------------------------------------------------------------------

/// The properties that a query for an image format came back with, `None`
/// where the format is not supported. The query ends in no other way.
pub fn image_format_properties<P>(result: i32, properties: P) -> (r: Option<P>)
    requires
        result == vk::RESULT_SUCCESS || result == vk::RESULT_ERROR_FORMAT_NOT_SUPPORTED,
    ensures
        r == (if result == vk::RESULT_SUCCESS {
            Some(properties)
        } else {
            None
        }),
{
    if result == vk::RESULT_SUCCESS {
        Some(properties)
    } else {
        None
    }
}

} // verus!
