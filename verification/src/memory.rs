//! Choice of memory types for the common allocation strategies.

use vstd::prelude::*;

use crate::vk;

verus! {

/// A memory type on a physical device.
#[derive(Debug, Clone, Copy, PartialEq, Eq, Structural)]
pub struct MemoryType {
    /// Bits describing the memory type's properties.
    pub property_flags: u32,
    /// The index of the heap this memory type belongs to.
    pub heap_index: u32,
}

/// A memory heap on a physical device.
#[derive(Debug, Clone, Copy, PartialEq, Eq, Structural)]
pub struct MemoryHeap {
    /// The size of the heap in bytes.
    pub size: u64,
    /// Bits describing the heap's properties.
    pub flags: u32,
    /// The current memory budget, where the device reports one.
    pub budget: u64,
    /// The current memory usage, where the device reports one.
    pub usage: u64,
}

/// Memory type indices for the common buffer allocation strategies.
#[derive(Debug, Clone, Copy, PartialEq, Eq, Structural)]
pub struct MemoryTypeMap {
    /// GPU-exclusive memory.
    pub private: u32,
    /// Staging memory for CPU-to-GPU transfers.
    pub host: u32,
    /// CPU-readable memory for GPU-to-CPU readback.
    pub dynamic: u32,
    /// Memory for data that the CPU writes and the GPU reads.
    pub upload: u32,
    /// Whether `upload` memory is host-visible, so that no staging copy is needed.
    pub upload_host_visible: bool,
    /// Device-local and host-visible memory for uniform buffers, or `u32::MAX`
    /// where the device has none.
    pub uniform: u32,
}

/// What a memory type is wanted for.
#[derive(Debug, Clone, Copy, PartialEq, Eq, Structural)]
pub enum Strategy {
    /// Fast memory that only the GPU touches.
    Private,
    /// Memory that the CPU writes in sequence.
    Host,
    /// Memory that the CPU reads.
    Dynamic,
    /// GPU memory that the CPU can write directly.
    Direct,
}

/// A heap up to this size is a window into device memory rather than all of it.
pub const SMALL_HEAP_SIZE: u64 = 0x1000_0000;

/// The property bits that a memory type must have to serve `strategy`.
pub open spec fn required_flags(strategy: Strategy) -> u32 {
    match strategy {
        Strategy::Private => vk::MEMORY_PROPERTY_DEVICE_LOCAL,
        Strategy::Host => vk::MEMORY_PROPERTY_HOST_VISIBLE,
        Strategy::Dynamic => vk::MEMORY_PROPERTY_HOST_VISIBLE | vk::MEMORY_PROPERTY_HOST_CACHED,
        Strategy::Direct => vk::MEMORY_PROPERTY_DEVICE_LOCAL | vk::MEMORY_PROPERTY_HOST_VISIBLE,
    }
}

pub open spec fn eligible(strategy: Strategy, mt: MemoryType) -> bool {
    vk::contains(mt.property_flags, required_flags(strategy))
}

pub open spec fn as_bit(b: bool) -> int {
    if b { 1 } else { 0 }
}

/// How well the property bits suit `strategy`; the leading wish weighs most.
pub open spec fn flag_rank(strategy: Strategy, flags: u32) -> int {
    match strategy {
        Strategy::Private => as_bit(!vk::contains(flags, vk::MEMORY_PROPERTY_HOST_VISIBLE)),
        Strategy::Host => 4 * as_bit(vk::contains(flags, vk::MEMORY_PROPERTY_HOST_COHERENT)) + 2
            * as_bit(!vk::contains(flags, vk::MEMORY_PROPERTY_HOST_CACHED)) + as_bit(
            !vk::contains(flags, vk::MEMORY_PROPERTY_DEVICE_LOCAL),
        ),
        Strategy::Dynamic => 2 * as_bit(vk::contains(flags, vk::MEMORY_PROPERTY_DEVICE_LOCAL))
            + as_bit(vk::contains(flags, vk::MEMORY_PROPERTY_HOST_COHERENT)),
        Strategy::Direct => 0,
    }
}

/// The heap size of a memory type.
pub open spec fn heap_size(mt: MemoryType, heaps: Seq<MemoryHeap>) -> u64 {
    heaps[mt.heap_index as int].size
}

/// Whether memory type `a` serves `strategy` better than `b`: by its property
/// bits, and among equals by the size of its heap.
pub open spec fn preferred(
    strategy: Strategy,
    a: MemoryType,
    b: MemoryType,
    heaps: Seq<MemoryHeap>,
) -> bool {
    let ra = flag_rank(strategy, a.property_flags);
    let rb = flag_rank(strategy, b.property_flags);
    ra > rb || (ra == rb && heap_size(a, heaps) > heap_size(b, heaps))
}

/// `i` is the first memory type that no other one is preferred to.
pub open spec fn is_best(
    strategy: Strategy,
    types: Seq<MemoryType>,
    heaps: Seq<MemoryHeap>,
    i: int,
) -> bool {
    &&& 0 <= i < types.len()
    &&& eligible(strategy, types[i])
    &&& forall|j: int|
        0 <= j < types.len() && eligible(strategy, #[trigger] types[j]) ==> !preferred(
            strategy,
            types[j],
            types[i],
            heaps,
        )
    &&& forall|j: int|
        0 <= j < i && eligible(strategy, #[trigger] types[j]) ==> preferred(
            strategy,
            types[i],
            types[j],
            heaps,
        )
}

/// Whether some memory type serves `strategy`.
pub open spec fn available(strategy: Strategy, types: Seq<MemoryType>) -> bool {
    exists|i: int| 0 <= i < types.len() && eligible(strategy, #[trigger] types[i])
}

/// The memory type chosen for `strategy`.
pub open spec fn best(strategy: Strategy, types: Seq<MemoryType>, heaps: Seq<MemoryHeap>) -> int {
    choose|i: int| is_best(strategy, types, heaps, i)
}

/// At most one memory type is the chosen one.
pub proof fn lemma_best_unique(
    strategy: Strategy,
    types: Seq<MemoryType>,
    heaps: Seq<MemoryHeap>,
    i: int,
)
    requires
        is_best(strategy, types, heaps, i),
    ensures
        best(strategy, types, heaps) == i,
{
    let k = best(strategy, types, heaps);
    assert(is_best(strategy, types, heaps, k));
    assert(eligible(strategy, types[i]) && eligible(strategy, types[k]));
}

/// Every memory type that a strategy can pick names a heap of the device.
pub open spec fn heaps_in_range(types: Seq<MemoryType>, heaps: Seq<MemoryHeap>) -> bool {
    forall|i: int|
        0 <= i < types.len() && (eligible(Strategy::Private, #[trigger] types[i]) || eligible(
            Strategy::Host,
            types[i],
        )) ==> types[i].heap_index < heaps.len()
}

/// The memory type chosen for uploads: memory that the CPU can write directly
/// where the device has a large heap of it, the staging memory on other
/// integrated devices, and memory that only the GPU touches elsewhere.
pub open spec fn upload_choice(
    types: Seq<MemoryType>,
    heaps: Seq<MemoryHeap>,
    device_type: i32,
) -> int {
    let direct = best(Strategy::Direct, types, heaps);
    if available(Strategy::Direct, types) && heap_size(types[direct], heaps) > SMALL_HEAP_SIZE {
        direct
    } else if device_type == vk::PHYSICAL_DEVICE_TYPE_INTEGRATED_GPU {
        best(Strategy::Host, types, heaps)
    } else {
        best(Strategy::Private, types, heaps)
    }
}

/// The map that the memory types and heaps of a device give.
pub open spec fn memory_type_map(
    types: Seq<MemoryType>,
    heaps: Seq<MemoryHeap>,
    device_type: i32,
) -> MemoryTypeMap {
    MemoryTypeMap {
        private: best(Strategy::Private, types, heaps) as u32,
        host: best(Strategy::Host, types, heaps) as u32,
        dynamic: best(Strategy::Dynamic, types, heaps) as u32,
        upload: upload_choice(types, heaps, device_type) as u32,
        upload_host_visible: eligible(
            Strategy::Host,
            types[upload_choice(types, heaps, device_type)],
        ),
        uniform: if available(Strategy::Direct, types) {
            best(Strategy::Direct, types, heaps) as u32
        } else {
            u32::MAX
        },
    }
}

/// A type with two property bits has each of them.
proof fn lemma_eligible_single(mt: MemoryType)
    ensures
        eligible(Strategy::Dynamic, mt) ==> eligible(Strategy::Host, mt),
        eligible(Strategy::Direct, mt) <==> eligible(Strategy::Host, mt) && eligible(
            Strategy::Private,
            mt,
        ),
{
    let f = mt.property_flags;
    assert(f & (2u32 | 8u32) == 2u32 | 8u32 ==> f & 2u32 == 2u32) by (bit_vector);
    assert(f & (1u32 | 2u32) == 1u32 | 2u32 <==> f & 2u32 == 2u32 && f & 1u32 == 1u32)
        by (bit_vector);
}

fn bit(b: bool) -> (r: u8)
    ensures
        r == as_bit(b),
{
    if b {
        1
    } else {
        0
    }
}

fn compute_flag_rank(strategy: Strategy, flags: u32) -> (r: u8)
    ensures
        r == flag_rank(strategy, flags),
{
    match strategy {
        Strategy::Private => bit(!vk::has_flags(flags, vk::MEMORY_PROPERTY_HOST_VISIBLE)),
        Strategy::Host => 4 * bit(vk::has_flags(flags, vk::MEMORY_PROPERTY_HOST_COHERENT)) + 2
            * bit(!vk::has_flags(flags, vk::MEMORY_PROPERTY_HOST_CACHED)) + bit(
            !vk::has_flags(flags, vk::MEMORY_PROPERTY_DEVICE_LOCAL),
        ),
        Strategy::Dynamic => 2 * bit(vk::has_flags(flags, vk::MEMORY_PROPERTY_DEVICE_LOCAL)) + bit(
            vk::has_flags(flags, vk::MEMORY_PROPERTY_HOST_COHERENT),
        ),
        Strategy::Direct => 0,
    }
}

fn compute_required_flags(strategy: Strategy) -> (r: u32)
    ensures
        r == required_flags(strategy),
{
    match strategy {
        Strategy::Private => vk::MEMORY_PROPERTY_DEVICE_LOCAL,
        Strategy::Host => vk::MEMORY_PROPERTY_HOST_VISIBLE,
        Strategy::Dynamic => vk::MEMORY_PROPERTY_HOST_VISIBLE | vk::MEMORY_PROPERTY_HOST_CACHED,
        Strategy::Direct => vk::MEMORY_PROPERTY_DEVICE_LOCAL | vk::MEMORY_PROPERTY_HOST_VISIBLE,
    }
}

/// Finds the memory type for `strategy`; `None` where no type is eligible.
pub fn select_memory_type(strategy: Strategy, types: &[MemoryType], heaps: &[MemoryHeap]) -> (r:
    Option<usize>)
    requires
        forall|i: int|
            0 <= i < types@.len() && eligible(strategy, #[trigger] types@[i])
                ==> types@[i].heap_index < heaps@.len(),
    ensures
        r is Some <==> available(strategy, types@),
        r matches Some(i) ==> is_best(strategy, types@, heaps@, i as int) && i == best(
            strategy,
            types@,
            heaps@,
        ),
{
    let required: u32 = compute_required_flags(strategy);
    let mut found: Option<usize> = None;
    let mut i: usize = 0;
    while i < types.len()
        invariant
            i <= types@.len(),
            required == required_flags(strategy),
            forall|i: int|
                0 <= i < types@.len() && eligible(strategy, #[trigger] types@[i])
                    ==> types@[i].heap_index < heaps@.len(),
            found is None <==> !available(strategy, types@.take(i as int)),
            found matches Some(k) ==> k < i && is_best(
                strategy,
                types@.take(i as int),
                heaps@,
                k as int,
            ),
        decreases types@.len() - i,
    {
        let ghost before = types@.take(i as int);
        let ghost after = types@.take(i + 1);
        let mt = types[i];
        proof {
            assert(forall|j: int| 0 <= j < i ==> #[trigger] after[j] == before[j]);
            assert(after[i as int] == mt);
        }
        if vk::has_flags(mt.property_flags, required) {
            assert(available(strategy, after));
            match found {
                None => {
                    assert(forall|j: int| 0 <= j < i ==> !eligible(strategy, #[trigger] before[j]));
                    found = Some(i);
                },
                Some(k) => {
                    let other = types[k];
                    assert(other == before[k as int]);
                    let new_rank: u8 = compute_flag_rank(strategy, mt.property_flags);
                    let old_rank: u8 = compute_flag_rank(strategy, other.property_flags);
                    let new_size: u64 = heaps[mt.heap_index as usize].size;
                    let old_size: u64 = heaps[other.heap_index as usize].size;
                    if new_rank > old_rank || (new_rank == old_rank && new_size > old_size) {
                        found = Some(i);
                    }
                },
            }
        } else {
            proof {
                if available(strategy, after) {
                    let j = choose|j: int| 0 <= j < after.len() && eligible(strategy, after[j]);
                    assert(eligible(strategy, before[j]));
                }
                if available(strategy, before) {
                    let j = choose|j: int| 0 <= j < before.len() && eligible(strategy, before[j]);
                    assert(eligible(strategy, after[j]));
                }
            }
        }
        i += 1;
    }
    proof {
        assert(types@.take(i as int) =~= types@);
        if let Some(k) = found {
            lemma_best_unique(strategy, types@, heaps@, k as int);
        }
    }
    found
}

impl MemoryTypeMap {
    /// Computes the memory type map for a physical device.
    pub fn new(memory_types: &[MemoryType], memory_heaps: &[MemoryHeap], device_type: i32) -> (r:
        Self)
        requires
            heaps_in_range(memory_types@, memory_heaps@),
            available(Strategy::Private, memory_types@),
            available(Strategy::Host, memory_types@),
            available(Strategy::Dynamic, memory_types@),
        ensures
            r == memory_type_map(memory_types@, memory_heaps@, device_type),
    {
        proof {
            assert forall|i: int|
                0 <= i < memory_types@.len() && (eligible(
                    Strategy::Dynamic,
                    #[trigger] memory_types@[i],
                ) || eligible(Strategy::Direct, memory_types@[i])) implies memory_types@[i].heap_index
                < memory_heaps@.len() by {
                lemma_eligible_single(memory_types@[i]);
            }
        }
        let private: usize = select_memory_type(
            Strategy::Private,
            memory_types,
            memory_heaps,
        ).unwrap();
        let host: usize = select_memory_type(Strategy::Host, memory_types, memory_heaps).unwrap();
        let dynamic: usize = select_memory_type(
            Strategy::Dynamic,
            memory_types,
            memory_heaps,
        ).unwrap();
        let direct = select_memory_type(Strategy::Direct, memory_types, memory_heaps);
        let integrated = device_type == vk::PHYSICAL_DEVICE_TYPE_INTEGRATED_GPU;
        let elsewhere: usize = if integrated {
            host
        } else {
            private
        };
        let upload: usize = match direct {
            Some(i) => {
                let size: u64 = memory_heaps[memory_types[i].heap_index as usize].size;
                if size > SMALL_HEAP_SIZE {
                    i
                } else {
                    elsewhere
                }
            },
            None => elsewhere,
        };
        let uniform: u32 = match direct {
            Some(i) => i as u32,
            None => u32::MAX,
        };
        MemoryTypeMap {
            private: private as u32,
            host: host as u32,
            dynamic: dynamic as u32,
            upload: upload as u32,
            upload_host_visible: vk::has_flags(
                memory_types[upload].property_flags,
                vk::MEMORY_PROPERTY_HOST_VISIBLE,
            ),
            uniform,
        }
    }
}

/// Wherever a strategy is available, a memory type is chosen for it.
pub proof fn lemma_best_exists(strategy: Strategy, types: Seq<MemoryType>, heaps: Seq<MemoryHeap>)
    requires
        available(strategy, types),
    ensures
        is_best(strategy, types, heaps, best(strategy, types, heaps)),
    decreases types.len(),
{
    let init = types.drop_last();
    let n = types.len() - 1;
    if available(strategy, init) {
        lemma_best_exists(strategy, init, heaps);
        let k = best(strategy, init, heaps);
        assert(forall|j: int| 0 <= j < n ==> #[trigger] types[j] == init[j]);
        if eligible(strategy, types[n]) && preferred(strategy, types[n], types[k], heaps) {
            assert(is_best(strategy, types, heaps, n));
        } else {
            assert(is_best(strategy, types, heaps, k));
        }
    } else {
        assert(forall|j: int| 0 <= j < n ==> #[trigger] types[j] == init[j]);
        let j = choose|j: int| 0 <= j < types.len() && eligible(strategy, #[trigger] types[j]);
        assert(j < n ==> eligible(strategy, init[j]));
        assert(is_best(strategy, types, heaps, n));
    }
}

/// Each chosen index names a memory type with the properties that its use
/// needs: GPU-exclusive memory is device-local, staging memory host-visible,
/// readback memory host-visible and cached; upload memory is reported as
/// host-visible where it is so, and is GPU-exclusive memory otherwise; and
/// uniform memory is device-local and host-visible
/// wherever the device has such memory.
pub proof fn law_chosen_types_fit(
    types: Seq<MemoryType>,
    heaps: Seq<MemoryHeap>,
    device_type: i32,
)
    requires
        types.len() <= u32::MAX,
        available(Strategy::Private, types),
        available(Strategy::Host, types),
        available(Strategy::Dynamic, types),
    ensures
        ({
            let m = memory_type_map(types, heaps, device_type);
            &&& m.private < types.len()
            &&& m.host < types.len()
            &&& m.dynamic < types.len()
            &&& m.upload < types.len()
            &&& eligible(Strategy::Private, types[m.private as int])
            &&& eligible(Strategy::Host, types[m.host as int])
            &&& eligible(Strategy::Dynamic, types[m.dynamic as int])
            &&& m.upload_host_visible == eligible(Strategy::Host, types[m.upload as int])
            &&& m.upload_host_visible || m.upload == m.private
            &&& available(Strategy::Direct, types) ==> m.uniform < types.len() && eligible(
                Strategy::Direct,
                types[m.uniform as int],
            )
            &&& !available(Strategy::Direct, types) ==> m.uniform == u32::MAX
        }),
{
    lemma_best_exists(Strategy::Private, types, heaps);
    lemma_best_exists(Strategy::Host, types, heaps);
    lemma_best_exists(Strategy::Dynamic, types, heaps);
    if available(Strategy::Direct, types) {
        lemma_best_exists(Strategy::Direct, types, heaps);
        lemma_eligible_single(types[best(Strategy::Direct, types, heaps)]);
    }
}

/// Memory is chosen by its properties, then by the size of its heap. Memory that
/// only the GPU touches is none that the CPU sees, where there is such memory.
/// Staging memory is coherent, where such memory is there, and then not cached.
/// Readback memory lies on the device, where such memory is there, and then is
/// coherent. `i` is any other memory type that would do.
pub proof fn law_memory_is_chosen_by_its_properties(
    types: Seq<MemoryType>,
    heaps: Seq<MemoryHeap>,
    device_type: i32,
    i: int,
)
    requires
        types.len() <= u32::MAX,
        available(Strategy::Private, types),
        available(Strategy::Host, types),
        available(Strategy::Dynamic, types),
        0 <= i < types.len(),
    ensures
        ({
            let m = memory_type_map(types, heaps, device_type);
            let flags = types[i].property_flags;
            let size = heaps[types[i].heap_index as int].size;
            let private = types[m.private as int];
            let host = types[m.host as int];
            let dynamic = types[m.dynamic as int];
            let visible = vk::MEMORY_PROPERTY_HOST_VISIBLE;
            let local = vk::MEMORY_PROPERTY_DEVICE_LOCAL;
            let coherent = vk::MEMORY_PROPERTY_HOST_COHERENT;
            let cached = vk::MEMORY_PROPERTY_HOST_CACHED;
            &&& private.property_flags & local == local
            &&& flags & local == local && flags & visible != visible ==> private.property_flags
                & visible != visible
            &&& flags & local == local && (flags & visible == visible <==> private.property_flags
                & visible == visible) ==> heaps[private.heap_index as int].size >= size
            &&& host.property_flags & visible == visible
            &&& flags & visible == visible && flags & coherent == coherent ==> host.property_flags
                & coherent == coherent
            &&& flags & visible == visible && (flags & coherent == coherent <==> host.property_flags
                & coherent == coherent) && flags & cached != cached ==> host.property_flags & cached
                != cached
            &&& dynamic.property_flags & visible == visible
            &&& dynamic.property_flags & cached == cached
            &&& flags & visible == visible && flags & cached == cached && flags & local == local
                ==> dynamic.property_flags & local == local
            &&& flags & visible == visible && flags & cached == cached && (flags & local == local
                <==> dynamic.property_flags & local == local) && flags & coherent == coherent
                ==> dynamic.property_flags & coherent == coherent
        }),
{
    let m = memory_type_map(types, heaps, device_type);
    lemma_best_exists(Strategy::Private, types, heaps);
    lemma_best_exists(Strategy::Host, types, heaps);
    lemma_best_exists(Strategy::Dynamic, types, heaps);
    let dynamic = types[m.dynamic as int];
    lemma_cached_bits(dynamic.property_flags);
    lemma_cached_bits(types[i].property_flags);
    if eligible(Strategy::Private, types[i]) {
        assert(!preferred(Strategy::Private, types[i], types[m.private as int], heaps));
    }
    if eligible(Strategy::Host, types[i]) {
        assert(!preferred(Strategy::Host, types[i], types[m.host as int], heaps));
    }
    if eligible(Strategy::Dynamic, types[i]) {
        assert(!preferred(Strategy::Dynamic, types[i], types[m.dynamic as int], heaps));
    }
}

proof fn lemma_cached_bits(flags: u32)
    ensures
        flags & (vk::MEMORY_PROPERTY_HOST_VISIBLE | vk::MEMORY_PROPERTY_HOST_CACHED)
            == vk::MEMORY_PROPERTY_HOST_VISIBLE | vk::MEMORY_PROPERTY_HOST_CACHED <==> flags
            & vk::MEMORY_PROPERTY_HOST_VISIBLE == vk::MEMORY_PROPERTY_HOST_VISIBLE && flags
            & vk::MEMORY_PROPERTY_HOST_CACHED == vk::MEMORY_PROPERTY_HOST_CACHED,
{
    assert(flags & (2u32 | 8u32) == 2u32 | 8u32 <==> flags & 2u32 == 2u32 && flags & 8u32 == 8u32)
        by (bit_vector);
}

/// Of memory types that suit a use alike, the one with the largest heap is
/// chosen, and among those the first.
pub proof fn law_the_first_of_the_largest_heaps_is_chosen(
    strategy: Strategy,
    types: Seq<MemoryType>,
    heaps: Seq<MemoryHeap>,
    i: int,
)
    requires
        0 <= i < types.len(),
        eligible(strategy, types[i]),
        types[i].property_flags == types[best(strategy, types, heaps)].property_flags,
    ensures
        ({
            let b = best(strategy, types, heaps);
            let chosen = heaps[types[b].heap_index as int].size;
            let other = heaps[types[i].heap_index as int].size;
            chosen > other || (chosen == other && b <= i)
        }),
{
    assert(available(strategy, types));
    lemma_best_exists(strategy, types, heaps);
    let b = best(strategy, types, heaps);
    assert(!preferred(strategy, types[i], types[b], heaps));
    if i < b {
        assert(preferred(strategy, types[b], types[i], heaps));
    }
}

/// Where memory of the device that the CPU can write is missing or only a small
/// window, uploads go to the staging memory of integrated devices, and into
/// memory that only the GPU touches elsewhere.
pub proof fn law_small_windows_are_not_uploaded_to(
    types: Seq<MemoryType>,
    heaps: Seq<MemoryHeap>,
    device_type: i32,
)
    requires
        forall|i: int|
            0 <= i < types.len() && (#[trigger] types[i]).property_flags & (
            vk::MEMORY_PROPERTY_DEVICE_LOCAL | vk::MEMORY_PROPERTY_HOST_VISIBLE)
                == vk::MEMORY_PROPERTY_DEVICE_LOCAL | vk::MEMORY_PROPERTY_HOST_VISIBLE
                ==> heaps[types[i].heap_index as int].size <= 0x1000_0000,
    ensures
        device_type == vk::PHYSICAL_DEVICE_TYPE_INTEGRATED_GPU ==> memory_type_map(
            types,
            heaps,
            device_type,
        ).upload == memory_type_map(types, heaps, device_type).host,
        device_type != vk::PHYSICAL_DEVICE_TYPE_INTEGRATED_GPU ==> memory_type_map(
            types,
            heaps,
            device_type,
        ).upload == memory_type_map(types, heaps, device_type).private,
{
    if available(Strategy::Direct, types) {
        lemma_best_exists(Strategy::Direct, types, heaps);
        let b = best(Strategy::Direct, types, heaps);
        assert(eligible(Strategy::Direct, types[b]));
    }
}

/// On a device whose directly writable heap is larger than the small-window
/// limit, upload memory is that heap and needs no staging copy.
pub proof fn law_large_window_needs_no_staging(
    types: Seq<MemoryType>,
    heaps: Seq<MemoryHeap>,
    device_type: i32,
)
    requires
        available(Strategy::Direct, types),
        heap_size(types[best(Strategy::Direct, types, heaps)], heaps) > SMALL_HEAP_SIZE,
    ensures
        memory_type_map(types, heaps, device_type).upload_host_visible,
        memory_type_map(types, heaps, device_type).upload == memory_type_map(
            types,
            heaps,
            device_type,
        ).uniform,
{
    lemma_best_exists(Strategy::Direct, types, heaps);
    lemma_eligible_single(types[best(Strategy::Direct, types, heaps)]);
}

/// How well memory suits sequential writes of the CPU, wherever it lies.
pub open spec fn write_rank(flags: u32) -> int {
    2 * as_bit(vk::contains(flags, vk::MEMORY_PROPERTY_HOST_COHERENT)) + as_bit(
        !vk::contains(flags, vk::MEMORY_PROPERTY_HOST_CACHED),
    )
}

/// Staging memory lies in the memory of the system rather than of the device,
/// unless memory of the device is better to write to than any other.
pub proof fn law_staging_memory_is_system_memory(
    types: Seq<MemoryType>,
    heaps: Seq<MemoryHeap>,
    device_type: i32,
    i: int,
)
    requires
        types.len() <= u32::MAX,
        0 <= i < types.len(),
        eligible(Strategy::Host, types[i]),
        !eligible(Strategy::Private, types[i]),
        forall|j: int|
            0 <= j < types.len() && eligible(Strategy::Direct, #[trigger] types[j]) ==> write_rank(
                types[j].property_flags,
            ) <= write_rank(types[i].property_flags),
    ensures
        !eligible(
            Strategy::Private,
            types[memory_type_map(types, heaps, device_type).host as int],
        ),
{
    lemma_best_exists(Strategy::Host, types, heaps);
    let b = best(Strategy::Host, types, heaps);
    assert(!preferred(Strategy::Host, types[i], types[b], heaps));
    lemma_eligible_single(types[b]);
}

} // verus!
