//! Pools of queries.

use crate::command::Command;
use crate::command::CommandEncoder;
use crate::command::IndexRange;
use vstd::prelude::*;

verus! {

/// A pool of queries, which are referred to by their places.
#[derive(Debug, Clone, Copy, PartialEq, Eq, Structural)]
pub struct QueryPool {
    pub handle: u64,
    pub query_type: i32,
    pub count: u32,
}

/// Queries of a pool that follow each other.
#[derive(Debug, Clone, Copy, PartialEq, Eq, Structural)]
pub struct QueryRange {
    pub first: u32,
    pub count: u32,
}

impl QueryPool {
    /// A pool of `count` queries of a type.
    pub fn new(handle: u64, query_type: i32, count: u32) -> (r: Self)
        ensures
            r == (QueryPool { handle, query_type, count }),
    {
        QueryPool { handle, query_type, count }
    }

    /// The type of the queries.
    pub fn ty(&self) -> (r: i32)
        ensures
            r == self.query_type,
    {
        self.query_type
    }

    /// The number of queries.
    pub fn len(&self) -> (r: u32)
        ensures
            r == self.count,
    {
        self.count
    }

    /// Whether `count` queries from `first` on are in the pool.
    pub fn holds(&self, first: u32, count: usize) -> (r: bool)
        ensures
            r == (first + count <= self.count),
    {
        first <= self.count && count <= (self.count - first) as usize
    }

    /// The queries that are reset for a range of places in the pool.
    pub fn host_reset(&self, range: IndexRange) -> (r: QueryRange)
        requires
            range.wf(),
            range.end <= self.count,
        ensures
            r == (QueryRange { first: range.start, count: (range.end - range.start) as u32 }),
    {
        QueryRange { first: range.start, count: range.end - range.start }
    }

    /// The queries that are read for `count` results from `first_query` on.
    pub fn get_results(&self, first_query: u32, count: usize) -> (r: QueryRange)
        requires
            first_query + count <= self.count,
        ensures
            r == (QueryRange { first: first_query, count: count as u32 }),
    {
        QueryRange { first: first_query, count: count as u32 }
    }
}

impl CommandEncoder {
    /// Records that queries are reset.
    pub fn reset_query_pool(&mut self, pool: &QueryPool, range: IndexRange)
        requires
            range.wf(),
            range.end <= pool.count,
        ensures
            final(self).commands@ == old(self).commands@.push(
                Command::ResetQueryPool {
                    pool: pool.handle,
                    first: range.start,
                    count: (range.end - range.start) as u32,
                },
            ),
            final(self).state == old(self).state,
            final(self).features == old(self).features,
    {
        self.commands.push(
            Command::ResetQueryPool {
                pool: pool.handle,
                first: range.start,
                count: range.end - range.start,
            },
        );
    }

    /// Records that properties of acceleration structures are written into
    /// queries, from `first_query` on.
    pub fn write_acceleration_structures_properties(
        &mut self,
        acceleration_structures: Vec<u64>,
        pool: &QueryPool,
        first_query: u32,
    )
        requires
            first_query + acceleration_structures@.len() <= pool.count,
        ensures
            final(self).commands@ == old(self).commands@.push(
                Command::WriteAccelerationStructuresProperties {
                    structures: acceleration_structures,
                    ty: pool.query_type,
                    pool: pool.handle,
                    first: first_query,
                },
            ),
            final(self).state == old(self).state,
            final(self).features == old(self).features,
    {
        self.commands.push(
            Command::WriteAccelerationStructuresProperties {
                structures: acceleration_structures,
                ty: pool.query_type,
                pool: pool.handle,
                first: first_query,
            },
        );
    }
}

} // verus!
