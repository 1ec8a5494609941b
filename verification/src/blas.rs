//! Batches of bottom-level acceleration structure builds, and their
//! compaction.

use vstd::prelude::*;

use crate::align;
use crate::command::Access;
use crate::command::MemoryBarrier;
use crate::rtx::AccelStruct;
use crate::vk;
use std::collections::VecDeque;

verus! {

/// How many entities are built in one batch where the builder does not say.
pub const DEFAULT_BATCH_SIZE: usize = 32;

/// A piece of geometry to build a structure for; buffers are given by their
/// addresses.
#[derive(Debug, Clone, Copy, PartialEq, Eq, Structural)]
pub enum BLASBuildGeometry {
    Triangles {
        vertex_format: i32,
        vertex_address: u64,
        vertex_stride: u64,
        max_vertex: u32,
        index_type: i32,
        index_address: u64,
        flags: u32,
        primitive_count: u32,
    },
    Aabbs { address: u64, stride: u64, flags: u32, primitive_count: u32 },
}

/// A piece of geometry as the device reads it. Fields that its type does not
/// have are zero.
#[derive(Debug, Clone, Copy, PartialEq, Eq, Structural)]
pub struct GeometryInfo {
    pub geometry_type: i32,
    pub vertex_format: i32,
    pub data_address: u64,
    pub stride: u64,
    pub max_vertex: u32,
    pub index_type: i32,
    pub index_address: u64,
    pub flags: u32,
}

/// One entity to build a structure for. `size` and `scratch_size` are what the
/// device asks for.
pub struct BuildRequest {
    pub entity: u64,
    pub flags: u32,
    pub geometries: Vec<BLASBuildGeometry>,
    pub size: u64,
    pub scratch_size: u64,
}

/// One build of a batch: where its geometry begins, and its place in the
/// scratch buffer.
#[derive(Debug, Clone, Copy, PartialEq, Eq, Structural)]
pub struct BuildInfo {
    pub entity: u64,
    pub flags: u32,
    pub first_geometry: u32,
    pub geometry_count: u32,
    pub scratch_offset: u64,
    pub size: u64,
}

/// A batch of builds that are recorded together.
pub struct BuildBatch {
    pub geometries: Vec<GeometryInfo>,
    /// The number of primitives of each geometry.
    pub primitive_counts: Vec<u32>,
    pub builds: Vec<BuildInfo>,
    pub scratch_size: u64,
    /// The builds whose compacted size is queried, in the order of the
    /// queries.
    pub compaction: Vec<usize>,
}

/// The build flags of an entity whose builder does not say.
pub fn default_build_flags() -> (r: u32)
    ensures
        r == vk::BUILD_ACCELERATION_STRUCTURE_PREFER_FAST_TRACE
            | vk::BUILD_ACCELERATION_STRUCTURE_ALLOW_COMPACTION,
{
    vk::BUILD_ACCELERATION_STRUCTURE_PREFER_FAST_TRACE
        | vk::BUILD_ACCELERATION_STRUCTURE_ALLOW_COMPACTION
}

/// How many of `waiting` entities go into the next batch; `None` where nothing
/// is submitted.
pub fn next_batch(waiting: usize, ready: bool, batch_size: usize) -> (r: Option<usize>)
    ensures
        r is Some <==> waiting > 0 && ready,
        r matches Some(n) ==> n == (if waiting <= batch_size {
            waiting
        } else {
            batch_size
        }),
{
    if waiting == 0 || !ready {
        None
    } else if waiting <= batch_size {
        Some(waiting)
    } else {
        Some(batch_size)
    }
}

pub open spec fn geometry_of(g: BLASBuildGeometry) -> GeometryInfo {
    match g {
        BLASBuildGeometry::Triangles {
            vertex_format,
            vertex_address,
            vertex_stride,
            max_vertex,
            index_type,
            index_address,
            flags,
            primitive_count,
        } => GeometryInfo {
            geometry_type: vk::GEOMETRY_TYPE_TRIANGLES,
            vertex_format,
            data_address: vertex_address,
            stride: vertex_stride,
            max_vertex,
            index_type,
            index_address,
            flags,
        },
        BLASBuildGeometry::Aabbs { address, stride, flags, primitive_count } => GeometryInfo {
            geometry_type: vk::GEOMETRY_TYPE_AABBS,
            vertex_format: 0,
            data_address: address,
            stride,
            max_vertex: 0,
            index_type: 0,
            index_address: 0,
            flags,
        },
    }
}

pub open spec fn primitive_count_of(g: BLASBuildGeometry) -> u32 {
    match g {
        BLASBuildGeometry::Triangles { primitive_count, .. } => primitive_count,
        BLASBuildGeometry::Aabbs { primitive_count, .. } => primitive_count,
    }
}

/// A piece of geometry as the device reads it, and its number of primitives.
pub fn geometry_info(g: &BLASBuildGeometry) -> (r: (GeometryInfo, u32))
    ensures
        r.0 == geometry_of(*g),
        r.1 == primitive_count_of(*g),
{
    match *g {
        BLASBuildGeometry::Triangles {
            vertex_format,
            vertex_address,
            vertex_stride,
            max_vertex,
            index_type,
            index_address,
            flags,
            primitive_count,
        } => (
            GeometryInfo {
                geometry_type: vk::GEOMETRY_TYPE_TRIANGLES,
                vertex_format,
                data_address: vertex_address,
                stride: vertex_stride,
                max_vertex,
                index_type,
                index_address,
                flags,
            },
            primitive_count,
        ),
        BLASBuildGeometry::Aabbs { address, stride, flags, primitive_count } => (
            GeometryInfo {
                geometry_type: vk::GEOMETRY_TYPE_AABBS,
                vertex_format: 0,
                data_address: address,
                stride,
                max_vertex: 0,
                index_type: 0,
                index_address: 0,
                flags,
            },
            primitive_count,
        ),
    }
}

/// All geometry of the requests, one request after the other.
pub open spec fn all_geometries(requests: Seq<BuildRequest>) -> Seq<BLASBuildGeometry>
    decreases requests.len(),
{
    if requests.len() == 0 {
        Seq::empty()
    } else {
        all_geometries(requests.drop_last()) + requests.last().geometries@
    }
}

/// Where the scratch memory of the requests ends.
pub open spec fn scratch_end(requests: Seq<BuildRequest>, alignment: u32) -> int
    decreases requests.len(),
{
    if requests.len() == 0 {
        0
    } else {
        align::round_up(scratch_end(requests.drop_last(), alignment), alignment as int)
            + requests.last().scratch_size
    }
}

/// Where the scratch memory of request `i` begins: at the next multiple of the
/// alignment behind that of the requests before it.
pub open spec fn scratch_begin(requests: Seq<BuildRequest>, alignment: u32, i: int) -> int {
    align::round_up(scratch_end(requests.take(i), alignment), alignment as int)
}

pub open spec fn build_of(requests: Seq<BuildRequest>, alignment: u32, i: int) -> BuildInfo {
    BuildInfo {
        entity: requests[i].entity,
        flags: requests[i].flags,
        first_geometry: all_geometries(requests.take(i)).len() as u32,
        geometry_count: requests[i].geometries@.len() as u32,
        scratch_offset: scratch_begin(requests, alignment, i) as u64,
        size: requests[i].size,
    }
}

pub open spec fn compactable(flags: u32) -> bool {
    vk::contains(flags, vk::BUILD_ACCELERATION_STRUCTURE_ALLOW_COMPACTION)
}

/// The places of those flags that allow compaction, in order.
pub open spec fn compaction_list(flags: Seq<u32>) -> Seq<usize>
    decreases flags.len(),
{
    if flags.len() == 0 {
        Seq::empty()
    } else {
        let before = compaction_list(flags.drop_last());
        if compactable(flags.last()) {
            before.push((flags.len() - 1) as usize)
        } else {
            before
        }
    }
}

pub open spec fn request_flags(requests: Seq<BuildRequest>) -> Seq<u32> {
    requests.map_values(|r: BuildRequest| r.flags)
}

pub open spec fn is_batch(batch: BuildBatch, requests: Seq<BuildRequest>, alignment: u32) -> bool {
    &&& batch.geometries@ == all_geometries(requests).map_values(|g: BLASBuildGeometry| geometry_of(g))
    &&& batch.primitive_counts@ == all_geometries(requests).map_values(
        |g: BLASBuildGeometry| primitive_count_of(g),
    )
    &&& batch.builds@.len() == requests.len()
    &&& forall|i: int|
        0 <= i < requests.len() ==> #[trigger] batch.builds@[i] == build_of(requests, alignment, i)
    &&& batch.scratch_size == scratch_end(requests, alignment)
    &&& batch.compaction@ == compaction_list(request_flags(requests))
}

/// Sizes and counts only grow with the number of requests.
proof fn lemma_prefix_bounds(requests: Seq<BuildRequest>, alignment: u32, i: int)
    requires
        alignment > 0,
        0 <= i <= requests.len(),
    ensures
        0 <= scratch_end(requests.take(i), alignment) <= scratch_end(requests, alignment),
        i < requests.len() ==> scratch_end(requests.take(i), alignment) <= scratch_begin(
            requests,
            alignment,
            i,
        ),
        i < requests.len() ==> scratch_begin(requests, alignment, i) + requests[i].scratch_size
            == scratch_end(requests.take(i + 1), alignment),
        i < requests.len() ==> scratch_end(requests.take(i + 1), alignment) <= scratch_end(
            requests,
            alignment,
        ),
        all_geometries(requests.take(i)).len() <= all_geometries(requests).len(),
        i < requests.len() ==> all_geometries(requests.take(i)).len()
            + requests[i].geometries@.len() <= all_geometries(requests).len(),
    decreases requests.len() - i,
{
    lemma_scratch_end_nonnegative(requests.take(i), alignment);
    if i == requests.len() {
        assert(requests.take(i) =~= requests);
    } else {
        let next = requests.take(i + 1);
        assert(next.drop_last() =~= requests.take(i));
        lemma_prefix_bounds(requests, alignment, i + 1);
        align::lemma_round_up(scratch_end(requests.take(i), alignment), alignment as int);
    }
}

proof fn lemma_scratch_end_nonnegative(requests: Seq<BuildRequest>, alignment: u32)
    requires
        alignment > 0,
    ensures
        scratch_end(requests, alignment) >= 0,
    decreases requests.len(),
{
    if requests.len() > 0 {
        lemma_scratch_end_nonnegative(requests.drop_last(), alignment);
        align::lemma_round_up(
            scratch_end(requests.drop_last(), alignment),
            alignment as int,
        );
    }
}

/// Lays out a batch of builds. `alignment` is what the device asks of scratch
/// offsets.
pub fn plan_batch(requests: &Vec<BuildRequest>, alignment: u32) -> (batch: BuildBatch)
    requires
        alignment > 0,
        scratch_end(requests@, alignment) <= u64::MAX,
        all_geometries(requests@).len() <= u32::MAX,
    ensures
        is_batch(batch, requests@, alignment),
{
    let mut geometries: Vec<GeometryInfo> = Vec::new();
    let mut primitive_counts: Vec<u32> = Vec::new();
    let mut builds: Vec<BuildInfo> = Vec::new();
    let mut scratch_size: u64 = 0;
    let mut compaction: Vec<usize> = Vec::new();
    let mut i: usize = 0;
    proof {
        assert(requests@.take(0) =~= Seq::empty());
        assert(request_flags(requests@.take(0)) =~= Seq::empty());
        assert(all_geometries(requests@.take(0)).map_values(|g: BLASBuildGeometry| geometry_of(g))
            =~= Seq::empty());
        assert(all_geometries(requests@.take(0)).map_values(
            |g: BLASBuildGeometry| primitive_count_of(g),
        ) =~= Seq::empty());
    }
    while i < requests.len()
        invariant
            i <= requests@.len(),
            alignment > 0,
            scratch_end(requests@, alignment) <= u64::MAX,
            all_geometries(requests@).len() <= u32::MAX,
            geometries@ == all_geometries(requests@.take(i as int)).map_values(
                |g: BLASBuildGeometry| geometry_of(g),
            ),
            primitive_counts@ == all_geometries(requests@.take(i as int)).map_values(
                |g: BLASBuildGeometry| primitive_count_of(g),
            ),
            builds@.len() == i,
            forall|j: int|
                0 <= j < i ==> #[trigger] builds@[j] == build_of(requests@, alignment, j),
            scratch_size == scratch_end(requests@.take(i as int), alignment),
            compaction@ == compaction_list(request_flags(requests@.take(i as int))),
        decreases requests@.len() - i,
    {
        let request = &requests[i];
        let ghost before = all_geometries(requests@.take(i as int));
        let ghost next = requests@.take(i + 1);
        proof {
            lemma_prefix_bounds(requests@, alignment, i as int);
            assert(next.drop_last() =~= requests@.take(i as int));
            assert(request_flags(next).drop_last() =~= request_flags(requests@.take(i as int)));
            assert(request_flags(next).last() == request.flags);
        }
        let first_geometry: u32 = geometries.len() as u32;
        let mut k: usize = 0;
        while k < request.geometries.len()
            invariant
                k <= request.geometries@.len(),
                geometries@ == (before + request.geometries@.take(k as int)).map_values(
                    |g: BLASBuildGeometry| geometry_of(g),
                ),
                primitive_counts@ == (before + request.geometries@.take(k as int)).map_values(
                    |g: BLASBuildGeometry| primitive_count_of(g),
                ),
            decreases request.geometries@.len() - k,
        {
            let (info, count): (GeometryInfo, u32) = geometry_info(&request.geometries[k]);
            geometries.push(info);
            primitive_counts.push(count);
            k += 1;
            assert(geometries@ =~= (before + request.geometries@.take(k as int)).map_values(
                |g: BLASBuildGeometry| geometry_of(g),
            ));
            assert(primitive_counts@ =~= (before + request.geometries@.take(k as int)).map_values(
                |g: BLASBuildGeometry| primitive_count_of(g),
            ));
        }
        assert(request.geometries@.take(k as int) =~= request.geometries@);
        let scratch_offset: u64 = align::next_multiple_of(scratch_size, alignment as u64);
        scratch_size = scratch_offset + request.scratch_size;
        builds.push(
            BuildInfo {
                entity: request.entity,
                flags: request.flags,
                first_geometry,
                geometry_count: request.geometries.len() as u32,
                scratch_offset,
                size: request.size,
            },
        );
        if vk::has_flags(request.flags, vk::BUILD_ACCELERATION_STRUCTURE_ALLOW_COMPACTION) {
            compaction.push(i);
        }
        i += 1;
    }
    proof {
        assert(requests@.take(i as int) =~= requests@);
    }
    BuildBatch { geometries, primitive_counts, builds, scratch_size, compaction }
}

/// The scratch address of each build, once the scratch buffer has an address.
pub fn scratch_addresses(batch: &BuildBatch, base: u64) -> (r: Vec<u64>)
    requires
        forall|i: int|
            0 <= i < batch.builds@.len() ==> base + (
            #[trigger] batch.builds@[i]).scratch_offset <= u64::MAX,
    ensures
        r@.len() == batch.builds@.len(),
        forall|i: int|
            0 <= i < r@.len() ==> #[trigger] r@[i] == base + batch.builds@[i].scratch_offset,
{
    let mut out: Vec<u64> = Vec::new();
    let mut i: usize = 0;
    while i < batch.builds.len()
        invariant
            i <= batch.builds@.len(),
            out@.len() == i,
            forall|i: int|
                0 <= i < batch.builds@.len() ==> base + (
                #[trigger] batch.builds@[i]).scratch_offset <= u64::MAX,
            forall|j: int|
                0 <= j < i ==> #[trigger] out@[j] == base + batch.builds@[j].scratch_offset,
        decreases batch.builds@.len() - i,
    {
        assert(base + batch.builds@[i as int].scratch_offset <= u64::MAX);
        out.push(base + batch.builds[i].scratch_offset);
        i += 1;
    }
    out
}

/// Each build of a batch has scratch memory of its own: it begins at a
/// multiple of the alignment, and ends before that of any later build and
/// within the scratch buffer.
pub proof fn law_scratch_ranges_are_disjoint(
    batch: BuildBatch,
    requests: Seq<BuildRequest>,
    alignment: u32,
    i: int,
    j: int,
)
    requires
        alignment > 0,
        is_batch(batch, requests, alignment),
        0 <= i < j < requests.len(),
    ensures
        batch.builds@[i].scratch_offset % alignment as u64 == 0,
        batch.builds@[i].scratch_offset + requests[i].scratch_size
            <= batch.builds@[j].scratch_offset,
        batch.builds@[j].scratch_offset + requests[j].scratch_size <= batch.scratch_size,
{
    lemma_prefix_bounds(requests, alignment, i);
    lemma_prefix_bounds(requests, alignment, j);
    lemma_scratch_end_nonnegative(requests.take(i), alignment);
    align::lemma_round_up(scratch_end(requests.take(i), alignment), alignment as int);
    lemma_prefix_bounds(requests.take(j), alignment, i + 1);
    assert(requests.take(j).take(i + 1) =~= requests.take(i + 1));
    lemma_scratch_end_nonnegative(requests.take(j), alignment);
    align::lemma_round_up(scratch_end(requests.take(j), alignment), alignment as int);
    assert(batch.builds@[i] == build_of(requests, alignment, i));
    assert(batch.builds@[j] == build_of(requests, alignment, j));
}

/// The geometry of each build is what its request gave.
pub proof fn law_builds_cover_their_geometry(
    batch: BuildBatch,
    requests: Seq<BuildRequest>,
    alignment: u32,
    i: int,
    k: int,
)
    requires
        alignment > 0,
        is_batch(batch, requests, alignment),
        all_geometries(requests).len() <= u32::MAX,
        0 <= i < requests.len(),
        0 <= k < requests[i].geometries@.len(),
    ensures
        ({
            let b = batch.builds@[i];
            &&& b.geometry_count == requests[i].geometries@.len()
            &&& b.first_geometry + k < batch.geometries@.len()
            &&& batch.geometries@[b.first_geometry + k] == geometry_of(requests[i].geometries@[k])
            &&& batch.primitive_counts@[b.first_geometry + k] == primitive_count_of(
                requests[i].geometries@[k],
            )
        }),
{
    lemma_prefix_bounds(requests, alignment, i);
    lemma_geometry_place(requests, i, k);
    assert(batch.builds@[i] == build_of(requests, alignment, i));
}

/// The device reads each piece of geometry as its request gave it: its data at
/// the address of the vertices or of the boxes, its indices at theirs, and
/// every other property under its own name. Each build is of the entity, with
/// the flags and of the size that were asked for.
pub proof fn law_geometry_is_read_as_given(
    batch: BuildBatch,
    requests: Seq<BuildRequest>,
    alignment: u32,
    i: int,
    k: int,
)
    requires
        alignment > 0,
        is_batch(batch, requests, alignment),
        all_geometries(requests).len() <= u32::MAX,
        0 <= i < requests.len(),
        0 <= k < requests[i].geometries@.len(),
    ensures
        batch.builds@[i].first_geometry + k < batch.geometries@.len(),
        batch.geometries@.len() == batch.primitive_counts@.len(),
        ({
            let at = batch.builds@[i].first_geometry + k;
            let read = batch.geometries@[at];
            match requests[i].geometries@[k] {
                BLASBuildGeometry::Triangles {
                    vertex_format,
                    vertex_address,
                    vertex_stride,
                    max_vertex,
                    index_type,
                    index_address,
                    flags,
                    primitive_count,
                } => {
                    &&& read.geometry_type == vk::GEOMETRY_TYPE_TRIANGLES
                    &&& read.data_address == vertex_address
                    &&& read.vertex_format == vertex_format
                    &&& read.stride == vertex_stride
                    &&& read.max_vertex == max_vertex
                    &&& read.index_type == index_type
                    &&& read.index_address == index_address
                    &&& read.flags == flags
                    &&& batch.primitive_counts@[at] == primitive_count
                },
                BLASBuildGeometry::Aabbs { address, stride, flags, primitive_count } => {
                    &&& read.geometry_type == vk::GEOMETRY_TYPE_AABBS
                    &&& read.data_address == address
                    &&& read.stride == stride
                    &&& read.flags == flags
                    &&& read.vertex_format == 0
                    &&& read.max_vertex == 0
                    &&& read.index_type == 0
                    &&& read.index_address == 0
                    &&& batch.primitive_counts@[at] == primitive_count
                },
            }
        }),
{
    law_builds_cover_their_geometry(batch, requests, alignment, i, k);
}

/// There is one build for each request, in their order, of the entity, with the
/// flags and of the size that were asked for. The geometry of the builds lies
/// one behind the other, from the first to the last.
pub proof fn law_builds_are_as_requested(
    batch: BuildBatch,
    requests: Seq<BuildRequest>,
    alignment: u32,
    i: int,
)
    requires
        alignment > 0,
        is_batch(batch, requests, alignment),
        all_geometries(requests).len() <= u32::MAX,
        0 <= i < requests.len(),
    ensures
        batch.builds@.len() == requests.len(),
        batch.builds@[i].entity == requests[i].entity,
        batch.builds@[i].flags == requests[i].flags,
        batch.builds@[i].size == requests[i].size,
        batch.builds@[i].geometry_count == requests[i].geometries@.len(),
        batch.builds@[0].first_geometry == 0,
        i + 1 < requests.len() ==> batch.builds@[i + 1].first_geometry
            == batch.builds@[i].first_geometry + requests[i].geometries@.len(),
        i + 1 == requests.len() ==> batch.geometries@.len() == batch.builds@[i].first_geometry
            + requests[i].geometries@.len(),
{
    lemma_prefix_bounds(requests, alignment, i);
    assert(batch.builds@[i] == build_of(requests, alignment, i));
    assert(batch.builds@[0] == build_of(requests, alignment, 0));
    assert(requests.take(i + 1).drop_last() =~= requests.take(i));
    if i + 1 < requests.len() {
        lemma_prefix_bounds(requests, alignment, i + 1);
        assert(batch.builds@[i + 1] == build_of(requests, alignment, i + 1));
    } else {
        assert(requests.take(i + 1) =~= requests);
    }
}

/// No scratch memory is wasted but for the alignment: the first build scratches
/// at the start of the buffer, each further one less than one step of the
/// alignment behind the one before it, and the buffer ends with the last.
pub proof fn law_scratch_memory_is_tight(
    batch: BuildBatch,
    requests: Seq<BuildRequest>,
    alignment: u32,
    i: int,
)
    requires
        alignment > 0,
        is_batch(batch, requests, alignment),
        0 <= i < requests.len(),
    ensures
        batch.builds@[0].scratch_offset == 0,
        i + 1 < requests.len() ==> batch.builds@[i + 1].scratch_offset
            < batch.builds@[i].scratch_offset + requests[i].scratch_size + alignment,
        i + 1 == requests.len() ==> batch.scratch_size == batch.builds@[i].scratch_offset
            + requests[i].scratch_size,
{
    lemma_prefix_bounds(requests, alignment, i);
    lemma_scratch_end_nonnegative(requests.take(i), alignment);
    assert(batch.builds@[i] == build_of(requests, alignment, i));
    assert(batch.builds@[0] == build_of(requests, alignment, 0));
    assert(scratch_end(requests.take(0), alignment) == 0);
    align::lemma_round_up(0, alignment as int);
    vstd::arithmetic::div_mod::lemma_small_mod(0, alignment as nat);
    if i + 1 < requests.len() {
        lemma_prefix_bounds(requests, alignment, i + 1);
        lemma_scratch_end_nonnegative(requests.take(i + 1), alignment);
        align::lemma_round_up(scratch_end(requests.take(i + 1), alignment), alignment as int);
        assert(batch.builds@[i + 1] == build_of(requests, alignment, i + 1));
    } else {
        assert(requests.take(i + 1) =~= requests);
    }
}

/// The compacted size is queried of the builds whose flags allow compaction, of
/// each once and in their order, and of no others.
pub proof fn law_queries_follow_the_flags(
    batch: BuildBatch,
    requests: Seq<BuildRequest>,
    alignment: u32,
)
    requires
        is_batch(batch, requests, alignment),
        requests.len() <= usize::MAX,
    ensures
        forall|q: int|
            0 <= q < batch.compaction@.len() ==> (#[trigger] batch.compaction@[q])
                < requests.len() && requests[batch.compaction@[q] as int].flags
                & vk::BUILD_ACCELERATION_STRUCTURE_ALLOW_COMPACTION
                == vk::BUILD_ACCELERATION_STRUCTURE_ALLOW_COMPACTION,
        forall|q: int, p: int|
            0 <= q < p < batch.compaction@.len() ==> (#[trigger] batch.compaction@[q]) < (
            #[trigger] batch.compaction@[p]),
        forall|i: int|
            0 <= i < requests.len() && (#[trigger] requests[i]).flags
                & vk::BUILD_ACCELERATION_STRUCTURE_ALLOW_COMPACTION
                == vk::BUILD_ACCELERATION_STRUCTURE_ALLOW_COMPACTION ==> batch.compaction@.contains(
                i as usize,
            ),
{
    let flags = request_flags(requests);
    lemma_compaction_list(flags);
    assert forall|i: int|
        0 <= i < requests.len() && (#[trigger] requests[i]).flags
            & vk::BUILD_ACCELERATION_STRUCTURE_ALLOW_COMPACTION
            == vk::BUILD_ACCELERATION_STRUCTURE_ALLOW_COMPACTION implies batch.compaction@.contains(
        i as usize,
    ) by {
        assert(flags[i] == requests[i].flags);
    }
    assert forall|q: int| 0 <= q < batch.compaction@.len() implies (
    #[trigger] batch.compaction@[q]) < requests.len() && requests[batch.compaction@[q] as int].flags
        & vk::BUILD_ACCELERATION_STRUCTURE_ALLOW_COMPACTION
        == vk::BUILD_ACCELERATION_STRUCTURE_ALLOW_COMPACTION by {
        assert(flags[batch.compaction@[q] as int] == requests[batch.compaction@[q] as int].flags);
    }
}

proof fn lemma_compaction_list(flags: Seq<u32>)
    requires
        flags.len() <= usize::MAX,
    ensures
        forall|q: int|
            0 <= q < compaction_list(flags).len() ==> (#[trigger] compaction_list(flags)[q])
                < flags.len() && compactable(flags[compaction_list(flags)[q] as int]),
        forall|q: int, p: int|
            0 <= q < p < compaction_list(flags).len() ==> (#[trigger] compaction_list(flags)[q]) < (
            #[trigger] compaction_list(flags)[p]),
        forall|i: int|
            0 <= i < flags.len() && compactable(#[trigger] flags[i]) ==> compaction_list(
                flags,
            ).contains(i as usize),
    decreases flags.len(),
{
    if flags.len() > 0 {
        let init = flags.drop_last();
        lemma_compaction_list(init);
        let before = compaction_list(init);
        let now = compaction_list(flags);
        assert forall|i: int| 0 <= i < flags.len() && compactable(#[trigger] flags[i]) implies now
            .contains(i as usize) by {
            if i < flags.len() - 1 {
                assert(init[i] == flags[i]);
                let q = before.index_of(i as usize);
                assert(before.contains(i as usize));
                assert(now[q] == i as usize);
            } else {
                assert(now[before.len() as int] == i as usize);
            }
        }
        assert forall|q: int| 0 <= q < now.len() implies (#[trigger] now[q]) < flags.len()
            && compactable(flags[now[q] as int]) by {
            if q < before.len() {
                assert(now[q] == before[q]);
                assert(init[before[q] as int] == flags[before[q] as int]);
            }
        }
        assert forall|q: int, p: int| 0 <= q < p < now.len() implies (#[trigger] now[q]) < (
        #[trigger] now[p]) by {
            assert(now[q] == before[q]);
            if p < before.len() {
                assert(now[p] == before[p]);
            }
        }
    }
}

proof fn lemma_geometry_place(requests: Seq<BuildRequest>, i: int, k: int)
    requires
        0 <= i < requests.len(),
        0 <= k < requests[i].geometries@.len(),
    ensures
        all_geometries(requests.take(i)).len() + k < all_geometries(requests).len(),
        all_geometries(requests)[all_geometries(requests.take(i)).len() + k]
            == requests[i].geometries@[k],
    decreases requests.len(),
{
    if i == requests.len() - 1 {
        assert(requests.drop_last() =~= requests.take(i));
    } else {
        let init = requests.drop_last();
        lemma_geometry_place(init, i, k);
        assert(init.take(i) =~= requests.take(i));
    }
}

// ---------------------------------------------------------------------------
// Finished builds
// ---------------------------------------------------------------------------

/// The compacted size of each structure of a finished batch: those that allow
/// compaction take the queried sizes in order, the others have none.
pub fn drain_built(flags: &Vec<u32>, sizes: &Vec<u64>) -> (r: Vec<Option<u64>>)
    requires
        sizes@.len() >= compaction_list(flags@).len(),
    ensures
        r@.len() == flags@.len(),
        forall|i: int|
            0 <= i < r@.len() ==> #[trigger] r@[i] == compacted_size(flags@, sizes@, i),
{
    let mut out: Vec<Option<u64>> = Vec::new();
    let mut next: usize = 0;
    let mut i: usize = 0;
    while i < flags.len()
        invariant
            i <= flags@.len(),
            out@.len() == i,
            next == compaction_list(flags@.take(i as int)).len(),
            sizes@.len() >= compaction_list(flags@).len(),
            forall|j: int|
                0 <= j < i ==> #[trigger] out@[j] == compacted_size(flags@, sizes@, j),
        decreases flags@.len() - i,
    {
        assert(flags@.take(i + 1).drop_last() =~= flags@.take(i as int));
        if vk::has_flags(flags[i], vk::BUILD_ACCELERATION_STRUCTURE_ALLOW_COMPACTION) {
            proof {
                lemma_compaction_prefix(flags@, i + 1);
            }
            assert(next < sizes.len());
            out.push(Some(sizes[next]));
            next += 1;
        } else {
            out.push(None);
        }
        i += 1;
    }
    out
}

pub open spec fn compacted_size(flags: Seq<u32>, sizes: Seq<u64>, i: int) -> Option<u64> {
    if compactable(flags[i]) {
        Some(sizes[compaction_list(flags.take(i)).len() as int])
    } else {
        None
    }
}

proof fn lemma_compaction_prefix(flags: Seq<u32>, n: int)
    requires
        0 <= n <= flags.len(),
    ensures
        compaction_list(flags.take(n)).len() <= compaction_list(flags).len(),
        forall|k: int|
            0 <= k < compaction_list(flags.take(n)).len() ==> #[trigger] compaction_list(flags)[k]
                == compaction_list(flags.take(n))[k],
    decreases flags.len() - n,
{
    if n == flags.len() {
        assert(flags.take(n) =~= flags);
    } else {
        assert(flags.take(n + 1).drop_last() =~= flags.take(n));
        lemma_compaction_prefix(flags, n + 1);
    }
}

/// Each structure that allows compaction takes the size that was queried for
/// it, and no other.
pub proof fn law_compacted_sizes_match(
    batch: BuildBatch,
    requests: Seq<BuildRequest>,
    alignment: u32,
    sizes: Seq<u64>,
    i: int,
)
    requires
        is_batch(batch, requests, alignment),
        sizes.len() == batch.compaction@.len(),
        requests.len() <= usize::MAX,
        0 <= i < requests.len(),
        compactable(requests[i].flags),
    ensures
        exists|q: int|
            0 <= q < sizes.len() && #[trigger] batch.compaction@[q] == i && compacted_size(
                request_flags(requests),
                sizes,
                i,
            ) == Some(sizes[q]),
{
    let flags = request_flags(requests);
    let q = compaction_list(flags.take(i)).len() as int;
    assert(flags.take(i + 1).drop_last() =~= flags.take(i));
    lemma_compaction_prefix(flags, i + 1);
    assert(batch.compaction@[q] == i);
}

/// A structure that does not allow compaction has no compacted size.
pub proof fn law_other_structures_are_not_compacted(flags: Seq<u32>, sizes: Seq<u64>, i: int)
    requires
        0 <= i < flags.len(),
        flags[i] & vk::BUILD_ACCELERATION_STRUCTURE_ALLOW_COMPACTION
            != vk::BUILD_ACCELERATION_STRUCTURE_ALLOW_COMPACTION,
    ensures
        compacted_size(flags, sizes, i) is None,
{
}

// ---------------------------------------------------------------------------
// Compaction
// ---------------------------------------------------------------------------

/// A structure that is to be compacted.
#[derive(Debug, Clone, Copy, PartialEq, Eq, Structural)]
pub struct CompactionRequest {
    pub entity: u64,
    pub source: u64,
    pub flags: u32,
    pub compacted_size: u64,
}

/// A copy into a new structure of the given size and flags.
#[derive(Debug, Clone, Copy, PartialEq, Eq, Structural)]
pub struct CompactionCopy {
    pub entity: u64,
    pub source: u64,
    pub size: u64,
    pub flags: u32,
    pub mode: i32,
}

pub open spec fn copy_of(r: CompactionRequest) -> CompactionCopy {
    CompactionCopy {
        entity: r.entity,
        source: r.source,
        size: r.compacted_size,
        flags: r.flags,
        mode: vk::COPY_ACCELERATION_STRUCTURE_MODE_COMPACT,
    }
}

/// The copies of one submission; `None` where there is nothing to compact.
pub fn plan_compaction(requests: &Vec<CompactionRequest>) -> (r: Option<Vec<CompactionCopy>>)
    ensures
        r is Some <==> requests@.len() > 0,
        r matches Some(v) ==> v@ == requests@.map_values(|r: CompactionRequest| copy_of(r)),
{
    if requests.len() == 0 {
        return None;
    }
    let mut out: Vec<CompactionCopy> = Vec::new();
    let mut i: usize = 0;
    while i < requests.len()
        invariant
            i <= requests@.len(),
            out@ == requests@.take(i as int).map_values(|r: CompactionRequest| copy_of(r)),
        decreases requests@.len() - i,
    {
        let r = requests[i];
        out.push(
            CompactionCopy {
                entity: r.entity,
                source: r.source,
                size: r.compacted_size,
                flags: r.flags,
                mode: vk::COPY_ACCELERATION_STRUCTURE_MODE_COMPACT,
            },
        );
        i += 1;
        assert(out@ =~= requests@.take(i as int).map_values(|r: CompactionRequest| copy_of(r)));
    }
    assert(requests@.take(i as int) =~= requests@);
    Some(out)
}

/// A compacting copy is of the structure that was named, for the same entity,
/// with the flags it was built with, and as large as its compacted size.
pub proof fn law_copies_are_of_the_request(r: CompactionRequest)
    ensures
        copy_of(r).entity == r.entity,
        copy_of(r).source == r.source,
        copy_of(r).size == r.compacted_size,
        copy_of(r).flags == r.flags,
        copy_of(r).mode == vk::COPY_ACCELERATION_STRUCTURE_MODE_COMPACT,
{
}

// ---------------------------------------------------------------------------
// Work in flight
// ---------------------------------------------------------------------------

/// Usage of the buffer that builds scratch in.
pub const SCRATCH_BUFFER_USAGE: u32 = vk::BUFFER_USAGE_SHADER_DEVICE_ADDRESS
    | vk::BUFFER_USAGE_STORAGE_BUFFER;

/// The number of queries for compacted sizes; with none there is no pool.
pub fn compaction_queries(batch: &BuildBatch) -> (r: Option<usize>)
    ensures
        r == (if batch.compaction@.len() > 0 {
            Some(batch.compaction@.len() as usize)
        } else {
            None
        }),
{
    if batch.compaction.len() > 0 {
        Some(batch.compaction.len())
    } else {
        None
    }
}

/// The barriers of a batch.
#[derive(Debug, Clone, Copy, PartialEq, Eq)]
pub struct BuildBarriers {
    /// Between the transfers of the geometry and the builds.
    pub before_builds: MemoryBarrier,
    /// Between the builds and the queries for compacted sizes, if there are any.
    pub before_queries: Option<MemoryBarrier>,
}

/// The barriers of a batch: the builds read what all commands before have
/// written, and the queries read the structures that the builds have written.
pub fn build_barriers(batch: &BuildBatch) -> (r: BuildBarriers)
    ensures
        r.before_builds == (MemoryBarrier {
            from: Access::AllCommands,
            to: Access::AccelerationStructureBuildRead,
        }),
        r.before_queries == (if batch.compaction@.len() > 0 {
            Some(
                MemoryBarrier {
                    from: Access::Masks {
                        stage: vk::PIPELINE_STAGE_2_ACCELERATION_STRUCTURE_BUILD_KHR,
                        access: vk::ACCESS_2_ACCELERATION_STRUCTURE_WRITE_KHR,
                    },
                    to: Access::Masks {
                        stage: vk::PIPELINE_STAGE_2_ACCELERATION_STRUCTURE_BUILD_KHR,
                        access: vk::ACCESS_2_ACCELERATION_STRUCTURE_READ_KHR,
                    },
                },
            )
        } else {
            None
        }),
{
    let before_queries = if batch.compaction.len() > 0 {
        Some(
            MemoryBarrier {
                from: Access::Masks {
                    stage: vk::PIPELINE_STAGE_2_ACCELERATION_STRUCTURE_BUILD_KHR,
                    access: vk::ACCESS_2_ACCELERATION_STRUCTURE_WRITE_KHR,
                },
                to: Access::Masks {
                    stage: vk::PIPELINE_STAGE_2_ACCELERATION_STRUCTURE_BUILD_KHR,
                    access: vk::ACCESS_2_ACCELERATION_STRUCTURE_READ_KHR,
                },
            },
        )
    } else {
        None
    };
    BuildBarriers {
        before_builds: MemoryBarrier {
            from: Access::AllCommands,
            to: Access::AccelerationStructureBuildRead,
        },
        before_queries,
    }
}

/// Work that was submitted, the oldest first.
pub struct WorkQueue<B> {
    queued: VecDeque<B>,
}

impl<B> View for WorkQueue<B> {
    type V = Seq<B>;

    closed spec fn view(&self) -> Seq<B> {
        self.queued@
    }
}

/// How many come before the first that is not finished.
pub open spec fn finished_count(finished: Seq<bool>) -> nat
    decreases finished.len(),
{
    if finished.len() == 0 || !finished[0] {
        0
    } else {
        1 + finished_count(finished.skip(1))
    }
}

/// What is taken out of a queue is finished, and what then stands first is not.
pub proof fn law_finished_work_comes_first(finished: Seq<bool>)
    ensures
        finished_count(finished) <= finished.len(),
        forall|i: int| 0 <= i < finished_count(finished) ==> #[trigger] finished[i],
        finished_count(finished) < finished.len() ==> !finished[finished_count(finished) as int],
    decreases finished.len(),
{
    if finished.len() > 0 && finished[0] {
        law_finished_work_comes_first(finished.skip(1));
        let n = finished_count(finished.skip(1));
        assert forall|i: int| 0 <= i < n + 1 implies #[trigger] finished[i] by {
            if i > 0 {
                assert(finished.skip(1)[i - 1] == finished[i]);
            }
        }
    }
}

impl<B> WorkQueue<B> {
    /// No work.
    pub fn new() -> (r: Self)
        ensures
            r@ == Seq::<B>::empty(),
    {
        WorkQueue { queued: VecDeque::new() }
    }

    /// Adds what was submitted last.
    pub fn push(&mut self, work: B)
        ensures
            final(self)@ == old(self)@.push(work),
    {
        self.queued.push_back(work);
    }

    /// Takes out what is finished, up to the first that is not: later work is
    /// left alone even where it is finished. `finished` tells of each piece of
    /// work whether it is.
    pub fn drain(&mut self, finished: &[bool]) -> (r: Vec<B>)
        requires
            finished@.len() == old(self)@.len(),
        ensures
            finished_count(finished@) <= old(self)@.len(),
            r@ == old(self)@.take(finished_count(finished@) as int),
            final(self)@ == old(self)@.skip(finished_count(finished@) as int),
    {
        let ghost start = self@;
        let mut out: Vec<B> = Vec::new();
        let mut i: usize = 0;
        assert(finished@.skip(0) =~= finished@);
        while i < finished.len() && finished[i]
            invariant
                i <= finished@.len(),
                finished@.len() == start.len(),
                start == old(self)@,
                out@ == start.take(i as int),
                self@ == start.skip(i as int),
                finished_count(finished@) == i + finished_count(finished@.skip(i as int)),
            decreases finished@.len() - i,
        {
            assert(finished@.skip(i as int).skip(1) =~= finished@.skip(i + 1));
            match self.queued.pop_front() {
                Some(work) => {
                    out.push(work);
                    assert(out@ =~= start.take(i + 1));
                    assert(self@ =~= start.skip(i + 1));
                },
                None => {},
            }
            i += 1;
        }
        out
    }
}

// ---------------------------------------------------------------------------
// Entities
// ---------------------------------------------------------------------------

/// The structure of an entity can be replaced by a copy of this size.
#[derive(Debug, Clone, Copy, PartialEq, Eq, Structural)]
pub struct BLASNeedsCompaction {
    pub compacted_size: u64,
}

/// How far the structure of an entity has come.
#[derive(Debug, Clone, Copy, PartialEq, Eq, Structural)]
pub struct EntityBlas {
    pub blas: Option<AccelStruct>,
    /// A build for the entity is in flight.
    pub build_pending: bool,
    pub needs_compaction: Option<BLASNeedsCompaction>,
}

impl EntityBlas {
    /// A build can be submitted.
    pub open spec fn buildable(&self) -> bool {
        !self.build_pending
    }

    /// A compaction can be submitted.
    pub open spec fn compactable(&self) -> bool {
        self.blas is Some && self.needs_compaction is Some && !self.build_pending
    }

    /// The state once a build was submitted.
    pub open spec fn submitted(&self) -> EntityBlas {
        EntityBlas { build_pending: true, ..*self }
    }

    /// The state once a build has come to its end. What was known of an earlier
    /// compaction stays where the new structure does not allow one.
    pub open spec fn built(&self, structure: AccelStruct, compacted_size: u64) -> EntityBlas {
        EntityBlas {
            blas: Some(structure),
            build_pending: false,
            needs_compaction: if compactable(structure.flags) {
                Some(BLASNeedsCompaction { compacted_size })
            } else {
                self.needs_compaction
            },
        }
    }

    /// The state once a compaction was submitted.
    pub open spec fn compacting(&self) -> EntityBlas {
        EntityBlas { needs_compaction: None, ..*self }
    }

    /// The state once a compaction has come to its end.
    pub open spec fn compacted(&self, structure: AccelStruct) -> EntityBlas {
        EntityBlas { blas: Some(structure), ..*self }
    }

    /// An entity without a structure.
    pub fn new() -> (r: Self)
        ensures
            r == (EntityBlas { blas: None, build_pending: false, needs_compaction: None }),
    {
        EntityBlas { blas: None, build_pending: false, needs_compaction: None }
    }

    /// Whether a build can be submitted.
    pub fn can_build(&self) -> (r: bool)
        ensures
            r == self.buildable(),
    {
        !self.build_pending
    }

    /// Notes that a build was submitted.
    pub fn submit_build(&mut self)
        requires
            old(self).buildable(),
        ensures
            *final(self) == old(self).submitted(),
    {
        self.build_pending = true;
    }

    /// Notes that a build has come to its end.
    pub fn finish_build(&mut self, structure: AccelStruct, compacted_size: u64)
        requires
            old(self).build_pending,
        ensures
            *final(self) == old(self).built(structure, compacted_size),
    {
        if vk::has_flags(structure.flags, vk::BUILD_ACCELERATION_STRUCTURE_ALLOW_COMPACTION) {
            self.needs_compaction = Some(BLASNeedsCompaction { compacted_size });
        }
        self.blas = Some(structure);
        self.build_pending = false;
    }

    /// The structure that is to be compacted, and the size of its copy.
    pub fn compaction(&self) -> (r: Option<(AccelStruct, u64)>)
        ensures
            r == (if self.compactable() {
                Some((self.blas->0, self.needs_compaction->0.compacted_size))
            } else {
                None
            }),
    {
        match (self.blas, self.needs_compaction) {
            (Some(structure), Some(needs)) => {
                if self.build_pending {
                    None
                } else {
                    Some((structure, needs.compacted_size))
                }
            },
            _ => None,
        }
    }

    /// Notes that a compaction was submitted.
    pub fn submit_compaction(&mut self)
        requires
            old(self).compactable(),
        ensures
            *final(self) == old(self).compacting(),
    {
        self.needs_compaction = None;
    }

    /// Notes that a compaction has come to its end.
    pub fn finish_compaction(&mut self, structure: AccelStruct)
        ensures
            *final(self) == old(self).compacted(structure),
    {
        self.blas = Some(structure);
    }
}

/// While a build for an entity is in flight, no other build and no compaction
/// is submitted for it. A structure that allows compaction is compacted once,
/// with the size that was reported for it.
pub proof fn law_entities_are_built_one_at_a_time(
    e: EntityBlas,
    structure: AccelStruct,
    compacted_size: u64,
)
    ensures
        !e.submitted().buildable(),
        !e.submitted().compactable(),
        e.submitted().built(structure, compacted_size).buildable(),
        e.submitted().built(structure, compacted_size).blas == Some(structure),
        compactable(structure.flags) ==> {
            let built = e.submitted().built(structure, compacted_size);
            &&& built.compactable()
            &&& built.needs_compaction->0.compacted_size == compacted_size
            &&& !built.compacting().compactable()
        },
        !e.compacting().compactable(),
        !e.compacting().compacted(structure).compactable(),
        e.compacting().compacted(structure).blas == Some(structure),
{
}

/// A step of an entity changes nothing but what it is about: submitting a build
/// or a compaction keeps the structure, a build that allows no compaction keeps
/// what was known of an earlier one, and the end of a compaction says nothing
/// of builds.
pub proof fn law_steps_keep_the_rest(e: EntityBlas, structure: AccelStruct, compacted_size: u64)
    ensures
        e.buildable() <==> !e.build_pending,
        e.compactable() <==> e.blas is Some && e.needs_compaction is Some && !e.build_pending,
        e.submitted().blas == e.blas,
        e.submitted().needs_compaction == e.needs_compaction,
        e.compacting().blas == e.blas,
        e.compacting().build_pending == e.build_pending,
        e.compacting().needs_compaction is None,
        e.compacted(structure).build_pending == e.build_pending,
        e.compacted(structure).needs_compaction == e.needs_compaction,
        structure.flags & vk::BUILD_ACCELERATION_STRUCTURE_ALLOW_COMPACTION
            == vk::BUILD_ACCELERATION_STRUCTURE_ALLOW_COMPACTION ==> e.built(
            structure,
            compacted_size,
        ).needs_compaction == Some(BLASNeedsCompaction { compacted_size }),
        structure.flags & vk::BUILD_ACCELERATION_STRUCTURE_ALLOW_COMPACTION
            != vk::BUILD_ACCELERATION_STRUCTURE_ALLOW_COMPACTION ==> e.built(
            structure,
            compacted_size,
        ).needs_compaction == e.needs_compaction,
{
}

} // verus!
