//! Maps from names to values, in the order of the names.

use vstd::prelude::*;

verus! {

/// Whether name `a` comes before name `b`: byte by byte, and a beginning
/// before what it begins.
pub open spec fn precedes(a: Seq<u8>, b: Seq<u8>) -> bool
    decreases a.len(),
{
    if b.len() == 0 {
        false
    } else if a.len() == 0 {
        true
    } else if a[0] != b[0] {
        a[0] < b[0]
    } else {
        precedes(a.skip(1), b.skip(1))
    }
}

/// Names are ordered by the first byte in which they differ, and where they do
/// not, the shorter one comes first.
pub proof fn law_names_are_compared_byte_by_byte(a: Seq<u8>, b: Seq<u8>, k: int)
    requires
        0 <= k <= a.len(),
        k <= b.len(),
        forall|i: int| 0 <= i < k ==> #[trigger] a[i] == b[i],
    ensures
        k < a.len() && k < b.len() && a[k] < b[k] ==> precedes(a, b) && !precedes(b, a),
        k == a.len() && k < b.len() ==> precedes(a, b) && !precedes(b, a),
        k == a.len() && k == b.len() ==> !precedes(a, b),
    decreases k,
{
    if k > 0 {
        let (s, t) = (a.skip(1), b.skip(1));
        assert(a[0] == b[0]);
        assert forall|i: int| 0 <= i < k - 1 implies #[trigger] s[i] == t[i] by {
            assert(a[i + 1] == b[i + 1]);
        }
        law_names_are_compared_byte_by_byte(s, t, k - 1);
    }
}

proof fn lemma_precedes_irreflexive(a: Seq<u8>)
    ensures
        !precedes(a, a),
    decreases a.len(),
{
    if a.len() > 0 {
        lemma_precedes_irreflexive(a.skip(1));
    }
}

proof fn lemma_precedes_transitive(a: Seq<u8>, b: Seq<u8>, c: Seq<u8>)
    requires
        precedes(a, b),
        precedes(b, c),
    ensures
        precedes(a, c),
    decreases a.len(),
{
    if a.len() > 0 && a[0] == b[0] && b[0] == c[0] {
        lemma_precedes_transitive(a.skip(1), b.skip(1), c.skip(1));
    }
}

proof fn lemma_precedes_total(a: Seq<u8>, b: Seq<u8>)
    ensures
        a == b || precedes(a, b) || precedes(b, a),
    decreases a.len(),
{
    if a.len() == 0 || b.len() == 0 {
        if a.len() == 0 && b.len() == 0 {
            assert(a =~= b);
        }
    } else if a[0] == b[0] {
        lemma_precedes_total(a.skip(1), b.skip(1));
        if a.skip(1) == b.skip(1) {
            assert(a =~= b) by {
                assert forall|i: int| 0 <= i < a.len() implies a[i] == b[i] by {
                    if i > 0 {
                        assert(a.skip(1)[i - 1] == b.skip(1)[i - 1]);
                    }
                }
                assert(a.skip(1).len() == b.skip(1).len());
            }
        }
    }
}

/// How two names stand to each other.
#[derive(Debug, Clone, Copy, PartialEq, Eq, Structural)]
pub enum NameOrder {
    Before,
    Same,
    After,
}

/// Compares two names.
pub fn order_names(a: &[u8], b: &[u8]) -> (r: NameOrder)
    ensures
        r == NameOrder::Before <==> precedes(a@, b@),
        r == NameOrder::Same <==> a@ == b@,
        r == NameOrder::After <==> precedes(b@, a@),
{
    let mut i: usize = 0;
    proof {
        assert(a@.skip(0) =~= a@);
        assert(b@.skip(0) =~= b@);
        lemma_precedes_total(a@, b@);
        lemma_precedes_irreflexive(a@);
        lemma_precedes_irreflexive(b@);
        if precedes(a@, b@) && precedes(b@, a@) {
            lemma_precedes_transitive(a@, b@, a@);
        }
    }
    while i < a.len() && i < b.len() && a[i] == b[i]
        invariant
            i <= a@.len(),
            i <= b@.len(),
            forall|j: int| 0 <= j < i ==> a@[j] == b@[j],
            precedes(a@, b@) == precedes(a@.skip(i as int), b@.skip(i as int)),
            precedes(b@, a@) == precedes(b@.skip(i as int), a@.skip(i as int)),
        decreases a@.len() - i,
    {
        proof {
            assert(a@.skip(i as int).skip(1) =~= a@.skip(i + 1));
            assert(b@.skip(i as int).skip(1) =~= b@.skip(i + 1));
        }
        i += 1;
    }
    if i == a.len() {
        if i == b.len() {
            assert(a@ =~= b@);
            NameOrder::Same
        } else {
            NameOrder::Before
        }
    } else if i == b.len() {
        NameOrder::After
    } else if a[i] < b[i] {
        NameOrder::Before
    } else {
        NameOrder::After
    }
}

/// A map holds its entries: each name leads to the value that stands with it, and
/// a name that stands nowhere leads to none.
pub proof fn law_names_lead_to_their_values<V>(m: NameMap<V>, name: Seq<u8>)
    requires
        m.wf(),
    ensures
        forall|i: int|
            0 <= i < m.entries@.len() && (#[trigger] m.entries@[i]).0@ == name
                ==> m@.contains_key(name) && m@[name] == m.entries@[i].1,
        (forall|i: int| 0 <= i < m.entries@.len() ==> (#[trigger] m.entries@[i]).0@ != name)
            ==> !m@.contains_key(name),
{
    lemma_precedes_irreflexive(name);
    if has_name(m.entries@, name) {
        let k = place_of(m.entries@, name);
        assert(0 <= k < m.entries@.len() && m.entries@[k].0@ == name);
    }
}

/// A copy of a name.
pub fn copy_name(name: &[u8]) -> (r: Vec<u8>)
    ensures
        r@ == name@,
{
    let mut out: Vec<u8> = Vec::new();
    out.extend_from_slice(name);
    assert(out@ =~= name@);
    out
}

/// A map from names to values.
pub struct NameMap<V> {
    pub entries: Vec<(Vec<u8>, V)>,
}

/// Some entry has the name.
pub open spec fn has_name<V>(entries: Seq<(Vec<u8>, V)>, name: Seq<u8>) -> bool {
    exists|i: int| 0 <= i < entries.len() && (#[trigger] entries[i]).0@ == name
}

pub open spec fn place_of<V>(entries: Seq<(Vec<u8>, V)>, name: Seq<u8>) -> int {
    choose|i: int| 0 <= i < entries.len() && (#[trigger] entries[i]).0@ == name
}

impl<V> View for NameMap<V> {
    type V = Map<Seq<u8>, V>;

    open spec fn view(&self) -> Map<Seq<u8>, V> {
        Map::new(
            |name: Seq<u8>| has_name(self.entries@, name),
            |name: Seq<u8>| self.entries@[place_of(self.entries@, name)].1,
        )
    }
}

impl<V> NameMap<V> {
    /// The entries stand in the order of their names, none of which occurs
    /// twice.
    pub open spec fn wf(&self) -> bool {
        forall|i: int, j: int|
            0 <= i < j < self.entries@.len() ==> precedes(
                (#[trigger] self.entries@[i]).0@,
                (#[trigger] self.entries@[j]).0@,
            )
    }

    /// The names in their order.
    pub open spec fn names(&self) -> Seq<Seq<u8>> {
        self.entries@.map_values(|e: (Vec<u8>, V)| e.0@)
    }

    /// An empty map.
    pub fn new() -> (r: Self)
        ensures
            r.wf(),
            r@ == Map::<Seq<u8>, V>::empty(),
    {
        let r = NameMap { entries: Vec::new() };
        assert(r@ =~= Map::<Seq<u8>, V>::empty());
        r
    }

    /// Where the entry of a name is, or where it would go.
    fn find(&self, name: &[u8]) -> (r: (bool, usize))
        requires
            self.wf(),
        ensures
            r.0 == self@.contains_key(name@),
            r.1 <= self.entries@.len(),
            r.0 ==> r.1 < self.entries@.len() && self.entries@[r.1 as int].0@ == name@
                && self@[name@] == self.entries@[r.1 as int].1,
            forall|i: int| 0 <= i < r.1 ==> precedes((#[trigger] self.entries@[i]).0@, name@),
            !r.0 ==> forall|i: int|
                r.1 <= i < self.entries@.len() ==> precedes(
                    name@,
                    (#[trigger] self.entries@[i]).0@,
                ),
    {
        let mut i: usize = 0;
        while i < self.entries.len()
            invariant
                self.wf(),
                i <= self.entries@.len(),
                forall|j: int| 0 <= j < i ==> precedes((#[trigger] self.entries@[j]).0@, name@),
            decreases self.entries@.len() - i,
        {
            match order_names(self.entries[i].0.as_slice(), name) {
                NameOrder::Before => {},
                NameOrder::Same => {
                    proof {
                        assert(self.entries@[i as int].0@ == name@);
                        let k = place_of(self.entries@, name@);
                        lemma_precedes_irreflexive(name@);
                        assert(k == i);
                    }
                    return (true, i);
                },
                NameOrder::After => {
                    proof {
                        assert forall|j: int| i <= j < self.entries@.len() implies precedes(
                            name@,
                            (#[trigger] self.entries@[j]).0@,
                        ) by {
                            if j > i {
                                lemma_precedes_transitive(
                                    name@,
                                    self.entries@[i as int].0@,
                                    self.entries@[j].0@,
                                );
                            }
                        }
                        lemma_precedes_irreflexive(name@);
                        assert(!has_name(self.entries@, name@));
                    }
                    return (false, i);
                },
            }
            i += 1;
        }
        proof {
            lemma_precedes_irreflexive(name@);
            assert(!has_name(self.entries@, name@));
        }
        (false, i)
    }

    /// Whether the map has an entry for a name.
    pub fn contains(&self, name: &[u8]) -> (r: bool)
        requires
            self.wf(),
        ensures
            r == self@.contains_key(name@),
    {
        self.find(name).0
    }

    /// The value of a name.
    pub fn get(&self, name: &[u8]) -> (r: Option<&V>)
        requires
            self.wf(),
        ensures
            r is Some <==> self@.contains_key(name@),
            r matches Some(v) ==> *v == self@[name@],
    {
        let (found, at): (bool, usize) = self.find(name);
        if found {
            Some(&self.entries[at].1)
        } else {
            None
        }
    }

    /// Sets the value of a name.
    pub fn insert(&mut self, name: Vec<u8>, value: V)
        requires
            old(self).wf(),
        ensures
            final(self).wf(),
            final(self)@ == old(self)@.insert(name@, value),
    {
        let (found, at): (bool, usize) = self.find(name.as_slice());
        let ghost before = self.entries@;
        let ghost entry = (name, value);
        if found {
            self.entries.set(at, (name, value));
        } else {
            self.entries.insert(at, (name, value));
        }
        proof {
            let after = self.entries@;
            if found {
                assert(after == before.update(at as int, entry));
                assert forall|i: int, j: int| 0 <= i < j < after.len() implies precedes(
                    (#[trigger] after[i]).0@,
                    (#[trigger] after[j]).0@,
                ) by {
                    assert(after[i].0@ == before[i].0@);
                    assert(after[j].0@ == before[j].0@);
                }
            } else {
                assert(after == before.insert(at as int, entry));
                assert forall|i: int, j: int| 0 <= i < j < after.len() implies precedes(
                    (#[trigger] after[i]).0@,
                    (#[trigger] after[j]).0@,
                ) by {
                    let a = if i < at { i } else { i - 1 };
                    let b = if j < at { j } else { j - 1 };
                    assert(i != at ==> after[i] == before[a]);
                    assert(j != at ==> after[j] == before[b]);
                }
            }
            lemma_insert_view(before, after, at as int, entry, found);
            assert(self@ =~= old(self)@.insert(entry.0@, value));
        }
    }

    /// Sets the value of a name that has none.
    pub fn insert_if_absent(&mut self, name: Vec<u8>, value: V)
        requires
            old(self).wf(),
        ensures
            final(self).wf(),
            final(self)@ == (if old(self)@.contains_key(name@) {
                old(self)@
            } else {
                old(self)@.insert(name@, value)
            }),
    {
        if !self.contains(name.as_slice()) {
            self.insert(name, value);
        }
    }
}

/// Entries under other names are not touched.
proof fn lemma_insert_view<V>(
    before: Seq<(Vec<u8>, V)>,
    after: Seq<(Vec<u8>, V)>,
    at: int,
    entry: (Vec<u8>, V),
    found: bool,
)
    requires
        0 <= at <= before.len(),
        found ==> at < before.len() && before[at].0@ == entry.0@ && after == before.update(
            at,
            entry,
        ),
        !found ==> after == before.insert(at, entry),
        forall|i: int, j: int|
            0 <= i < j < after.len() ==> precedes(
                (#[trigger] after[i]).0@,
                (#[trigger] after[j]).0@,
            ),
        forall|i: int, j: int|
            0 <= i < j < before.len() ==> precedes(
                (#[trigger] before[i]).0@,
                (#[trigger] before[j]).0@,
            ),
    ensures
        after[at] == entry,
        has_name(after, entry.0@),
        place_of(after, entry.0@) == at,
        forall|name: Seq<u8>|
            name != entry.0@ ==> #[trigger] has_name(after, name) == has_name(before, name),
        forall|name: Seq<u8>|
            name != entry.0@ && has_name(before, name) ==> after[#[trigger] place_of(
                after,
                name,
            )].1 == before[place_of(before, name)].1,
{
    assert(after[at] == entry);
    let k = place_of(after, entry.0@);
    assert(after[k].0@ == entry.0@);
    lemma_precedes_irreflexive(entry.0@);
    assert(k == at);
    assert forall|name: Seq<u8>| name != entry.0@ implies #[trigger] has_name(after, name)
        == has_name(before, name) by {
        if has_name(before, name) {
            let i = place_of(before, name);
            let j = if found || i < at { i } else { i + 1 };
            assert(after[j] == before[i]);
        }
        if has_name(after, name) {
            let j = place_of(after, name);
            let i = if found || j < at { j } else { j - 1 };
            assert(after[j] == before[i]);
        }
    }
    assert forall|name: Seq<u8>| name != entry.0@ && has_name(before, name) implies after[
        #[trigger] place_of(after, name)
    ].1 == before[place_of(before, name)].1 by {
        let i = place_of(before, name);
        let j = if found || i < at { i } else { i + 1 };
        assert(after[j] == before[i]);
        let p = place_of(after, name);
        assert(after[p].0@ == name);
        lemma_precedes_irreflexive(name);
        assert(p == j);
    }
}

/// The names of a map come in their order, each once.
pub proof fn law_names_are_ordered<V>(m: NameMap<V>, i: int, j: int)
    requires
        m.wf(),
        0 <= i < j < m.names().len(),
    ensures
        precedes(m.names()[i], m.names()[j]),
        m.names()[i] != m.names()[j],
        m@.contains_key(m.names()[i]),
{
    assert(precedes(m.entries@[i].0@, m.entries@[j].0@));
    lemma_precedes_irreflexive(m.names()[i]);
}

} // verus!
