//! Which device queue serves which purpose.

use vstd::prelude::*;

use crate::bits;
use crate::device::{DeviceBuilder, DeviceQueueRef};
use crate::device;
use crate::vk;
use std::collections::BTreeMap;

verus! {

/// A registered queue. The priority is given by the bit pattern of a float.
#[derive(Debug, Clone, Copy)]
pub struct QueueInfo {
    pub flags: u32,
    pub family_index: u32,
    pub priority: u32,
    pub name: &'static str,
}

/// A queue that is still to be fetched from the device.
#[derive(Debug, Clone, Copy)]
pub struct PendingQueue {
    pub component: usize,
    pub queue: DeviceQueueRef,
    pub name: &'static str,
}

/// The queues of a device by the purposes they serve. A purpose is known by a
/// number of its own; so is a queue, the number of its component.
pub struct QueueConfiguration {
    pub mapping: BTreeMap<u64, usize>,
    /// The queues in ascending order of their components.
    pub queues: Vec<(usize, QueueInfo)>,
    pub queues_to_initialize: Vec<PendingQueue>,
}

/// The queue of a component exists.
pub open spec fn is_registered(queues: Seq<(usize, QueueInfo)>, component: usize) -> bool {
    exists|i: int| 0 <= i < queues.len() && (#[trigger] queues[i]).0 == component
}

pub open spec fn queue_place(queues: Seq<(usize, QueueInfo)>, component: usize) -> int {
    choose|i: int| 0 <= i < queues.len() && (#[trigger] queues[i]).0 == component
}

/// Queue `i` has the required abilities.
pub open spec fn can_alias(queues: Seq<(usize, QueueInfo)>, required: u32, i: int) -> bool {
    0 <= i < queues.len() && vk::contains(queues[i].1.flags, required)
}

/// Whether queue `i` is to be preferred to queue `j`: it has fewer abilities,
/// or as many and a priority that is closer to the wanted one.
pub open spec fn closer(
    queues: Seq<(usize, QueueInfo)>,
    distances: Seq<u64>,
    i: int,
    j: int,
) -> bool {
    let a = bits::bit_count(queues[i].1.flags);
    let b = bits::bit_count(queues[j].1.flags);
    a < b || (a == b && distances[i] < distances[j])
}

/// Queue `i` is the first of those to which none is preferred.
pub open spec fn is_best_alias(
    queues: Seq<(usize, QueueInfo)>,
    required: u32,
    distances: Seq<u64>,
    i: int,
) -> bool {
    &&& can_alias(queues, required, i)
    &&& forall|j: int|
        #[trigger] can_alias(queues, required, j) ==> !closer(queues, distances, j, i)
    &&& forall|j: int|
        #[trigger] can_alias(queues, required, j) && j < i ==> closer(queues, distances, i, j)
}

/// A queue that takes over a purpose can do what is asked for. No other such queue
/// has fewer abilities; of those with as many none has a priority that is closer
/// to the wanted one, and of equals it is the first.
pub proof fn law_the_least_able_queue_takes_over(
    queues: Seq<(usize, QueueInfo)>,
    required: u32,
    distances: Seq<u64>,
    i: int,
    j: int,
)
    requires
        is_best_alias(queues, required, distances, i),
        0 <= j < queues.len(),
        queues[j].1.flags & required == required,
    ensures
        0 <= i < queues.len(),
        queues[i].1.flags & required == required,
        bits::bit_count(queues[i].1.flags) <= bits::bit_count(queues[j].1.flags),
        bits::bit_count(queues[i].1.flags) == bits::bit_count(queues[j].1.flags)
            ==> distances[i] <= distances[j],
        bits::bit_count(queues[i].1.flags) == bits::bit_count(queues[j].1.flags) && distances[i]
            == distances[j] ==> i <= j,
{
    assert(can_alias(queues, required, j));
}

/// The list with the queue of a component, in its place.
pub open spec fn with_queue(
    queues: Seq<(usize, QueueInfo)>,
    component: usize,
    info: QueueInfo,
    result: Seq<(usize, QueueInfo)>,
) -> bool {
    &&& is_registered(result, component)
    &&& result[queue_place(result, component)].1 == info
    &&& forall|other: usize|
        other != component ==> #[trigger] is_registered(result, other) == is_registered(
            queues,
            other,
        )
    &&& forall|other: usize|
        other != component && is_registered(queues, other) ==> result[#[trigger] queue_place(
            result,
            other,
        )].1 == queues[queue_place(queues, other)].1
}

pub open spec fn ordered(queues: Seq<(usize, QueueInfo)>) -> bool {
    forall|i: int, j: int|
        0 <= i < j < queues.len() ==> (#[trigger] queues[i]).0 < (#[trigger] queues[j]).0
}

proof fn lemma_with_queue(
    before: Seq<(usize, QueueInfo)>,
    after: Seq<(usize, QueueInfo)>,
    at: int,
    component: usize,
    info: QueueInfo,
    found: bool,
)
    requires
        0 <= at <= before.len(),
        ordered(before),
        ordered(after),
        found ==> at < before.len() && before[at].0 == component && after == before.update(
            at,
            (component, info),
        ),
        !found ==> after == before.insert(at, (component, info)),
    ensures
        with_queue(before, component, info, after),
{
    assert(after[at] == (component, info));
    assert(queue_place(after, component) == at);
    assert forall|other: usize| other != component implies #[trigger] is_registered(after, other)
        == is_registered(before, other) by {
        if is_registered(before, other) {
            let i = queue_place(before, other);
            let j = if found || i < at { i } else { i + 1 };
            assert(after[j] == before[i]);
        }
        if is_registered(after, other) {
            let j = queue_place(after, other);
            let i = if found || j < at { j } else { j - 1 };
            assert(after[j] == before[i]);
        }
    }
    assert forall|other: usize| other != component && is_registered(before, other) implies after[
        #[trigger] queue_place(after, other)
    ].1 == before[queue_place(before, other)].1 by {
        let i = queue_place(before, other);
        let j = if found || i < at { i } else { i + 1 };
        assert(after[j] == before[i]);
        assert(queue_place(after, other) == j);
    }
}

impl QueueConfiguration {
    /// The queues are ordered, and every purpose is served by one of them.
    pub open spec fn wf(&self) -> bool {
        &&& ordered(self.queues@)
        &&& forall|t: u64| #[trigger]
            self.mapping@.contains_key(t) ==> is_registered(self.queues@, self.mapping@[t])
    }

    /// A configuration without queues.
    pub fn new() -> (r: Self)
        ensures
            r.wf(),
            r.mapping@ == Map::<u64, usize>::empty(),
            r.queues@.len() == 0,
            r.queues_to_initialize@.len() == 0,
    {
        QueueConfiguration {
            mapping: BTreeMap::new(),
            queues: Vec::new(),
            queues_to_initialize: Vec::new(),
        }
    }

    /// The component of the queue that serves a purpose.
    pub fn component_id_of_queue(&self, purpose: u64) -> (r: Option<usize>)
        ensures
            r is Some <==> self.mapping@.contains_key(purpose),
            r matches Some(c) ==> c == self.mapping@[purpose],
    {
        broadcast use vstd::std_specs::btree::group_btree_axioms;

        match self.mapping.get(&purpose) {
            Some(c) => Some(*c),
            None => None,
        }
    }

    /// The queue that serves a purpose.
    pub fn queue_info(&self, purpose: u64) -> (r: Option<QueueInfo>)
        requires
            self.wf(),
        ensures
            r is Some <==> self.mapping@.contains_key(purpose),
            r matches Some(info) ==> info == self.queues@[queue_place(
                self.queues@,
                self.mapping@[purpose],
            )].1,
    {
        let component: usize = match self.component_id_of_queue(purpose) {
            Some(c) => c,
            None => {
                return None;
            },
        };
        let (found, at): (bool, usize) = self.find(component);
        if found {
            Some(self.queues[at].1)
        } else {
            None
        }
    }

    fn find(&self, component: usize) -> (r: (bool, usize))
        requires
            ordered(self.queues@),
        ensures
            r.0 == is_registered(self.queues@, component),
            r.1 <= self.queues@.len(),
            r.0 ==> r.1 < self.queues@.len() && self.queues@[r.1 as int].0 == component && r.1
                == queue_place(self.queues@, component),
            forall|i: int| 0 <= i < r.1 ==> (#[trigger] self.queues@[i]).0 < component,
            !r.0 ==> forall|i: int|
                r.1 <= i < self.queues@.len() ==> (#[trigger] self.queues@[i]).0 > component,
    {
        let mut i: usize = 0;
        while i < self.queues.len() && self.queues[i].0 < component
            invariant
                i <= self.queues@.len(),
                forall|j: int| 0 <= j < i ==> (#[trigger] self.queues@[j]).0 < component,
            decreases self.queues@.len() - i,
        {
            i += 1;
        }
        if i < self.queues.len() && self.queues[i].0 == component {
            assert(self.queues@[i as int].0 == component);
            (true, i)
        } else {
            (false, i)
        }
    }

    /// Registers a queue of the device for a purpose that has none.
    pub fn register_queue(
        &mut self,
        purpose: u64,
        component: usize,
        queue: DeviceQueueRef,
        priority: u32,
        name: &'static str,
        full_name: &'static str,
    )
        requires
            old(self).wf(),
            !old(self).mapping@.contains_key(purpose),
        ensures
            final(self).wf(),
            final(self).mapping@ == old(self).mapping@.insert(purpose, component),
            with_queue(
                old(self).queues@,
                component,
                QueueInfo { flags: queue.flags, family_index: queue.family, priority, name },
                final(self).queues@,
            ),
            final(self).queues_to_initialize@ == old(self).queues_to_initialize@.push(
                PendingQueue { component, queue, name: full_name },
            ),
    {
        broadcast use vstd::std_specs::btree::group_btree_axioms;

        let info = QueueInfo {
            flags: queue.flags(),
            family_index: queue.family_index(),
            priority,
            name,
        };
        let (found, at): (bool, usize) = self.find(component);
        let ghost before = self.queues@;
        if found {
            self.queues.set(at, (component, info));
        } else {
            self.queues.insert(at, (component, info));
        }
        proof {
            let after = self.queues@;
            assert(ordered(after)) by {
                assert forall|i: int, j: int| 0 <= i < j < after.len() implies (
                #[trigger] after[i]).0 < (#[trigger] after[j]).0 by {
                    if found {
                        assert(after[i].0 == before[i].0);
                        assert(after[j].0 == before[j].0);
                    } else {
                        let a = if i < at { i } else { i - 1 };
                        let b = if j < at { j } else { j - 1 };
                        assert(i != at ==> after[i] == before[a]);
                        assert(j != at ==> after[j] == before[b]);
                    }
                }
            }
            lemma_with_queue(before, after, at as int, component, info, found);
        }
        self.mapping.insert(purpose, component);
        self.queues_to_initialize.push(PendingQueue { component, queue, name: full_name });
        proof {
            assert forall|t: u64| #[trigger] self.mapping@.contains_key(t) implies is_registered(
                self.queues@,
                self.mapping@[t],
            ) by {
                if t != purpose {
                    assert(old(self).mapping@.contains_key(t));
                    assert(is_registered(before, self.mapping@[t]));
                }
            }
        }
    }

    /// Lets an existing queue with the required abilities serve a purpose that
    /// has none: the least able one, and of those the one whose priority is
    /// closest. `distances` says for each queue how far its priority is from
    /// the wanted one. `None` where no queue has the abilities.
    pub fn alias_queue(&mut self, purpose: u64, required: u32, distances: &Vec<u64>) -> (r: Option<
        QueueInfo,
    >)
        requires
            old(self).wf(),
            distances@.len() == old(self).queues@.len(),
            (exists|i: int| #[trigger] can_alias(old(self).queues@, required, i)) ==> !old(self).mapping@.contains_key(purpose),
        ensures
            final(self).wf(),
            final(self).queues@ == old(self).queues@,
            final(self).queues_to_initialize@ == old(self).queues_to_initialize@,
            r is Some <==> exists|i: int| #[trigger] can_alias(old(self).queues@, required, i),
            r is None ==> final(self).mapping@ == old(self).mapping@,
            r matches Some(info) ==> exists|i: int| #[trigger]
                is_best_alias(old(self).queues@, required, distances@, i) && info == old(self).queues@[i].1 && final(self).mapping@ == old(self).mapping@.insert(
                    purpose,
                    old(self).queues@[i].0,
                ),
    {
        broadcast use vstd::std_specs::btree::group_btree_axioms;

        let mut best: Option<usize> = None;
        let mut i: usize = 0;
        while i < self.queues.len()
            invariant
                i <= self.queues@.len(),
                *self == *old(self),
                distances@.len() == self.queues@.len(),
                best is None ==> forall|j: int| 0 <= j < i ==> !#[trigger] can_alias(
                    self.queues@,
                    required,
                    j,
                ),
                best matches Some(b) ==> {
                    &&& b < i
                    &&& can_alias(self.queues@, required, b as int)
                    &&& forall|j: int|
                        0 <= j < i && #[trigger] can_alias(self.queues@, required, j) ==> !closer(
                            self.queues@,
                            distances@,
                            j,
                            b as int,
                        )
                    &&& forall|j: int|
                        0 <= j < b && #[trigger] can_alias(self.queues@, required, j) ==> closer(
                            self.queues@,
                            distances@,
                            b as int,
                            j,
                        )
                },
            decreases self.queues@.len() - i,
        {
            let flags: u32 = self.queues[i].1.flags;
            if vk::has_flags(flags, required) {
                assert(can_alias(self.queues@, required, i as int));
                match best {
                    None => {
                        best = Some(i);
                    },
                    Some(b) => {
                        let new_count: u32 = bits::count_ones(flags);
                        let old_count: u32 = bits::count_ones(self.queues[b].1.flags);
                        if new_count < old_count || (new_count == old_count && distances[i]
                            < distances[b]) {
                            best = Some(i);
                        }
                    },
                }
            } else {
                assert(!can_alias(self.queues@, required, i as int));
            }
            i += 1;
        }
        match best {
            None => None,
            Some(b) => {
                let (component, info): (usize, QueueInfo) = self.queues[b];
                assert(is_best_alias(self.queues@, required, distances@, b as int));
                self.mapping.insert(purpose, component);
                proof {
                    assert forall|t: u64| #[trigger]
                        self.mapping@.contains_key(t) implies is_registered(
                        self.queues@,
                        self.mapping@[t],
                    ) by {
                        if t == purpose {
                            assert(self.queues@[b as int].0 == component);
                        } else {
                            assert(old(self).mapping@.contains_key(t));
                        }
                    }
                }
                Some(info)
            },
        }
    }

    /// Hands out the queues that are still to be fetched, each once.
    pub fn init_queues(&mut self) -> (r: Vec<PendingQueue>)
        requires
            old(self).wf(),
        ensures
            final(self).wf(),
            r@ == old(self).queues_to_initialize@,
            final(self).queues_to_initialize@.len() == 0,
            final(self).mapping@ == old(self).mapping@,
            final(self).queues@ == old(self).queues@,
    {
        let mut out: Vec<PendingQueue> = Vec::new();
        out.append(&mut self.queues_to_initialize);
        assert(out@ =~= old(self).queues_to_initialize@);
        out
    }
}

/// The queue that serves a purpose.
pub open spec fn serving(config: QueueConfiguration, purpose: u64) -> QueueInfo {
    config.queues@[queue_place(config.queues@, config.mapping@[purpose])].1
}

/// A purpose is served by a queue with the required abilities.
pub open spec fn serves(config: QueueConfiguration, purpose: u64, required: u32) -> bool {
    &&& config.mapping@.contains_key(purpose)
    &&& vk::contains(serving(config, purpose).flags, required)
}

/// A purpose is served where some queue is registered for it and can do all that
/// is asked for.
pub proof fn law_served_purposes_have_able_queues(
    config: QueueConfiguration,
    purpose: u64,
    required: u32,
)
    requires
        config.wf(),
        serves(config, purpose, required),
    ensures
        exists|i: int|
            0 <= i < config.queues@.len() && (#[trigger] config.queues@[i]).0
                == config.mapping@[purpose] && config.queues@[i].1.flags & required == required
                && config.queues@[i].1 == serving(config, purpose),
{
    assert(is_registered(config.queues@, config.mapping@[purpose]));
    let i = queue_place(config.queues@, config.mapping@[purpose]);
    assert(config.queues@[i].0 == config.mapping@[purpose]);
}

/// A new queue, under a component of its own, leaves the other purposes with
/// the queues that serve them.
pub proof fn law_served_purposes_stay(
    before: QueueConfiguration,
    after: QueueConfiguration,
    component: usize,
    info: QueueInfo,
    purpose: u64,
    other: u64,
)
    requires
        before.wf(),
        !is_registered(before.queues@, component),
        with_queue(before.queues@, component, info, after.queues@),
        after.mapping@ == before.mapping@.insert(purpose, component),
        before.mapping@.contains_key(other),
        other != purpose,
    ensures
        after.mapping@.contains_key(other),
        serving(after, other) == serving(before, other),
        serving(after, purpose) == info,
{
    assert(is_registered(before.queues@, before.mapping@[other]));
    assert(is_registered(after.queues@, before.mapping@[other]));
}

/// No device queue can serve the purpose.
#[derive(Debug, Clone, Copy, PartialEq, Eq, Structural)]
pub struct QueueNotFoundError;

/// Provides a queue with the required abilities for a purpose that has none: a
/// new one where the device has one left, else an existing one. `priority` is
/// that of a new queue, `component` its component; `name` is what it is listed
/// under, `full_name` what it is labelled with once it is fetched.
pub fn init_device_queue_with_caps(
    builder: &mut DeviceBuilder,
    config: &mut QueueConfiguration,
    purpose: u64,
    component: usize,
    required: u32,
    priority: u32,
    distances: &Vec<u64>,
    name: &'static str,
    full_name: &'static str,
) -> (r: Result<(), QueueNotFoundError>)
    requires
        old(builder).wf(),
        old(config).wf(),
        !old(config).mapping@.contains_key(purpose),
        distances@.len() == old(config).queues@.len(),
    ensures
        final(builder).wf(),
        final(config).wf(),
        device::same_settings(*old(builder), *final(builder)),
        r is Ok <==> {
            ||| exists|i: int| #[trigger] device::is_candidate(*old(builder), required, i)
            ||| exists|i: int| #[trigger] can_alias(old(config).queues@, required, i)
        },
        r is Ok ==> serves(*final(config), purpose, required),
        r is Err ==> final(config).mapping@ == old(config).mapping@,
        if exists|i: int| #[trigger] device::is_candidate(*old(builder), required, i) {
            &&& final(config).mapping@ == old(config).mapping@.insert(purpose, component)
            &&& exists|q: DeviceQueueRef|
                {
                    &&& #[trigger] device::queue_taken(
                        *old(builder),
                        *final(builder),
                        required,
                        priority,
                        q,
                    )
                    &&& final(config).queues_to_initialize@
                        == old(config).queues_to_initialize@.push(
                        PendingQueue { component, queue: q, name: full_name },
                    )
                    &&& with_queue(
                        old(config).queues@,
                        component,
                        QueueInfo { flags: q.flags, family_index: q.family, priority, name },
                        final(config).queues@,
                    )
                }
        } else {
            &&& final(config).queues@ == old(config).queues@
            &&& final(config).queues_to_initialize@ == old(config).queues_to_initialize@
            &&& final(builder).queue_counts@ == old(builder).queue_counts@
            &&& final(builder).queue_priorities@ == old(builder).queue_priorities@
            &&& r is Ok ==> exists|i: int|
                {
                    &&& #[trigger] is_best_alias(old(config).queues@, required, distances@, i)
                    &&& final(config).mapping@ == old(config).mapping@.insert(
                        purpose,
                        old(config).queues@[i].0,
                    )
                }
        },
{
    match builder.enable_queue_with_caps(required, priority) {
        Some(queue) => {
            config.register_queue(purpose, component, queue, priority, name, full_name);
            Ok(())
        },
        None => {
            match config.alias_queue(purpose, required, distances) {
                Some(_) => Ok(()),
                None => Err(QueueNotFoundError),
            }
        },
    }
}

} // verus!
