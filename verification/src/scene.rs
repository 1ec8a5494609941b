//! Models, their primitives, and the keys of vertex attributes.

use vstd::prelude::*;

use crate::gltf_document::Semantic;
use crate::vk;
use std::collections::BTreeMap;

verus! {

/// A type whose values map to unique 64-bit keys.
pub trait PrimitiveKey: Sized {
    /// The key of a value.
    spec fn key(&self) -> u64;

    /// Whether `key` stands for a value.
    spec fn is_key(key: u64) -> bool;

    /// The value that a key stands for.
    fn from_u64(key: u64) -> (r: Self)
        requires
            Self::is_key(key),
        ensures
            forall|v: Self| #[trigger] v.key() == key ==> v == r,
    ;

    /// The key of this value.
    fn to_u64(&self) -> (r: u64)
        ensures
            r == self.key(),
            Self::is_key(r),
    ;
}

/// The kind of a semantic, in the upper half of its key.
pub open spec fn semantic_kind(s: Semantic) -> u32 {
    match s {
        Semantic::Positions => 0,
        Semantic::Normals => 1,
        Semantic::Tangents => 2,
        Semantic::Colors(_) => 3,
        Semantic::TexCoords(_) => 4,
        Semantic::Joints(_) => 5,
        Semantic::Weights(_) => 6,
    }
}

/// The set number of a semantic, in the lower half of its key.
pub open spec fn semantic_set(s: Semantic) -> u32 {
    match s {
        Semantic::Positions | Semantic::Normals | Semantic::Tangents => 0,
        Semantic::Colors(v) => v,
        Semantic::TexCoords(v) => v,
        Semantic::Joints(v) => v,
        Semantic::Weights(v) => v,
    }
}

/// The semantic of a kind and a set number.
pub open spec fn semantic_of(kind: u32, set: u32) -> Semantic {
    if kind == 0 {
        Semantic::Positions
    } else if kind == 1 {
        Semantic::Normals
    } else if kind == 2 {
        Semantic::Tangents
    } else if kind == 3 {
        Semantic::Colors(set)
    } else if kind == 4 {
        Semantic::TexCoords(set)
    } else if kind == 5 {
        Semantic::Joints(set)
    } else {
        Semantic::Weights(set)
    }
}

proof fn lemma_key_halves(kind: u32, set: u32)
    ensures
        ((((kind as u64) << 32) | set as u64) >> 32) as u32 == kind,
        (((kind as u64) << 32) | set as u64) as u32 == set,
{
    assert(((((kind as u64) << 32) | set as u64) >> 32) as u32 == kind) by (bit_vector);
    assert((((kind as u64) << 32) | set as u64) as u32 == set) by (bit_vector);
}

impl PrimitiveKey for Semantic {
    open spec fn key(&self) -> u64 {
        ((semantic_kind(*self) as u64) << 32) | semantic_set(*self) as u64
    }

    open spec fn is_key(key: u64) -> bool {
        (key >> 32) as u32 <= 6
    }

    fn from_u64(key: u64) -> (r: Self)
        ensures
            r == semantic_of((key >> 32) as u32, key as u32),
    {
        let set: u32 = key as u32;
        let kind: u32 = (key >> 32) as u32;
        proof {
            assert forall|v: Semantic| #[trigger] v.key() == key implies v == semantic_of(
                kind,
                set,
            ) by {
                lemma_key_halves(semantic_kind(v), semantic_set(v));
            }
        }
        match kind {
            0 => Semantic::Positions,
            1 => Semantic::Normals,
            2 => Semantic::Tangents,
            3 => Semantic::Colors(set),
            4 => Semantic::TexCoords(set),
            5 => Semantic::Joints(set),
            _ => Semantic::Weights(set),
        }
    }

    fn to_u64(&self) -> (r: u64) {
        let (kind, set): (u32, u32) = match self {
            Semantic::Positions => (0, 0),
            Semantic::Normals => (1, 0),
            Semantic::Tangents => (2, 0),
            Semantic::Colors(v) => (3, *v),
            Semantic::TexCoords(v) => (4, *v),
            Semantic::Joints(v) => (5, *v),
            Semantic::Weights(v) => (6, *v),
        };
        proof {
            lemma_key_halves(kind, set);
        }
        ((kind as u64) << 32) | set as u64
    }
}

/// A semantic is read back from its key, and so no two share one.
pub proof fn law_semantic_key_round_trip(a: Semantic, b: Semantic)
    ensures
        Semantic::is_key(a.key()),
        semantic_of((a.key() >> 32) as u32, a.key() as u32) == a,
        a.key() == b.key() ==> a == b,
{
    lemma_key_halves(semantic_kind(a), semantic_set(a));
    lemma_key_halves(semantic_kind(b), semantic_set(b));
}

/// Keys are ordered by what an attribute holds: positions first, then normals,
/// tangents, colors, texture coordinates, joints and weights, and those of one
/// kind by their sets.
pub proof fn law_semantic_keys_are_numbered(set: u32)
    ensures
        Semantic::Positions.key() == 0,
        Semantic::Normals.key() == 0x1_0000_0000,
        Semantic::Tangents.key() == 0x2_0000_0000,
        Semantic::Colors(set).key() == 0x3_0000_0000 + set,
        Semantic::TexCoords(set).key() == 0x4_0000_0000 + set,
        Semantic::Joints(set).key() == 0x5_0000_0000 + set,
        Semantic::Weights(set).key() == 0x6_0000_0000 + set,
{
    lemma_key_number(0, 0);
    lemma_key_number(1, 0);
    lemma_key_number(2, 0);
    lemma_key_number(3, set);
    lemma_key_number(4, set);
    lemma_key_number(5, set);
    lemma_key_number(6, set);
}

proof fn lemma_key_number(kind: u32, set: u32)
    ensures
        ((kind as u64) << 32) | set as u64 == kind * 0x1_0000_0000 + set,
{
    assert(((kind as u64) << 32) | set as u64 == kind * 0x1_0000_0000 + set) by (bit_vector);
}

/// Where the values of a vertex attribute lie: `buffer` names a GPU buffer.
#[derive(Debug, Clone, Copy, PartialEq, Eq, Structural)]
pub struct Attribute {
    pub buffer: usize,
    pub offset: u64,
}

/// A piece of a model that is drawn with one material.
pub struct Primitive {
    pub topology: i32,
    pub index_count: u32,
    pub index_type: i32,
    pub index_buffer: Option<usize>,
    pub index_buffer_offset: u64,
    pub attributes: BTreeMap<u64, Attribute>,
    /// The material, or `None` where none is set yet.
    pub material: Option<usize>,
}

impl Default for Primitive {
    fn default() -> (r: Self)
        ensures
            r.topology == vk::PRIMITIVE_TOPOLOGY_POINT_LIST,
            r.index_count == 0,
            r.index_type == vk::INDEX_TYPE_UINT16,
            r.index_buffer is None,
            r.index_buffer_offset == 0,
            r.attributes@ == Map::<u64, Attribute>::empty(),
            r.material is None,
    {
        Primitive {
            topology: vk::PRIMITIVE_TOPOLOGY_POINT_LIST,
            index_count: 0,
            index_type: vk::INDEX_TYPE_UINT16,
            index_buffer: None,
            index_buffer_offset: 0,
            attributes: BTreeMap::new(),
            material: None,
        }
    }
}

impl Primitive {
    /// The attribute under a key.
    pub fn attribute<K: PrimitiveKey>(&self, key: K) -> (r: Option<&Attribute>)
        ensures
            r is Some <==> self.attributes@.contains_key(key.key()),
            r matches Some(a) ==> *a == self.attributes@[key.key()],
    {
        broadcast use vstd::std_specs::btree::group_btree_axioms;

        self.attributes.get(&key.to_u64())
    }

    /// The GPU address of an attribute, or 0 where the primitive has none
    /// under the key. `addresses` gives the address of each buffer.
    pub fn attribute_gpuva<K: PrimitiveKey>(&self, key: K, addresses: &[u64]) -> (r: u64)
        requires
            self.attributes@.contains_key(key.key()) ==> {
                let a = self.attributes@[key.key()];
                a.buffer < addresses@.len() && addresses@[a.buffer as int] + a.offset <= u64::MAX
            },
        ensures
            self.attributes@.contains_key(key.key()) ==> r == addresses@[
                self.attributes@[key.key()].buffer as int
            ] + self.attributes@[key.key()].offset,
            !self.attributes@.contains_key(key.key()) ==> r == 0,
    {
        match self.attribute(key) {
            Some(a) => addresses[a.buffer] + a.offset,
            None => 0,
        }
    }

    /// Sets the attribute under a key.
    pub fn set_attribute<K: PrimitiveKey>(&mut self, key: K, attribute: Attribute)
        ensures
            final(self).attributes@ == old(self).attributes@.insert(key.key(), attribute),
            final(self).topology == old(self).topology,
            final(self).index_count == old(self).index_count,
            final(self).index_type == old(self).index_type,
            final(self).index_buffer == old(self).index_buffer,
            final(self).index_buffer_offset == old(self).index_buffer_offset,
            final(self).material == old(self).material,
    {
        broadcast use vstd::std_specs::btree::group_btree_axioms;

        self.attributes.insert(key.to_u64(), attribute);
    }
}

/// The primitives of a mesh.
pub struct Model {
    pub primitives: Vec<Primitive>,
}

/// The entities that show a model.
pub struct ModelInstances {
    pub entities: Vec<u64>,
}

impl ModelInstances {
    /// How many instances there are.
    pub fn len(&self) -> (r: usize)
        ensures
            r == self.entities@.len(),
    {
        self.entities.len()
    }

    /// The instances, in order.
    pub fn iter(&self) -> (r: &[u64])
        ensures
            r@ == self.entities@,
    {
        self.entities.as_slice()
    }
}

/// A spawned scene: the models it uses and the entities it consists of, each
/// list in ascending order.
pub struct Scene {
    pub models: Vec<u64>,
    pub instances: Vec<u64>,
}

impl Scene {
    /// Whether both lists are in ascending order.
    pub open spec fn wf(&self) -> bool {
        &&& ascending(self.models@)
        &&& ascending(self.instances@)
    }

    /// A scene of the given entities, whose lists are put in order.
    pub fn new(models: Vec<u64>, instances: Vec<u64>) -> (r: Self)
        ensures
            r.wf(),
            r.models@.to_multiset() == models@.to_multiset(),
            r.instances@.to_multiset() == instances@.to_multiset(),
    {
        Scene { models: sort(models), instances: sort(instances) }
    }

    pub fn models(&self) -> (r: &[u64])
        ensures
            r@ == self.models@,
    {
        self.models.as_slice()
    }

    pub fn instances(&self) -> (r: &[u64])
        ensures
            r@ == self.instances@,
    {
        self.instances.as_slice()
    }
}

pub open spec fn ascending(s: Seq<u64>) -> bool {
    forall|i: int, j: int| 0 <= i <= j < s.len() ==> s[i] <= s[j]
}

/// Puts a list in ascending order.
fn sort(items: Vec<u64>) -> (r: Vec<u64>)
    ensures
        ascending(r@),
        r@.to_multiset() == items@.to_multiset(),
{
    let mut out: Vec<u64> = Vec::new();
    let mut i: usize = 0;
    proof {
        assert(items@.take(0) =~= out@);
    }
    while i < items.len()
        invariant
            i <= items@.len(),
            ascending(out@),
            out@.len() == i,
            out@.to_multiset() == items@.take(i as int).to_multiset(),
        decreases items@.len() - i,
    {
        let item: u64 = items[i];
        let mut at: usize = 0;
        while at < out.len() && out[at] <= item
            invariant
                at <= out@.len(),
                forall|j: int| 0 <= j < at ==> out@[j] <= item,
            decreases out@.len() - at,
        {
            at += 1;
        }
        let ghost before = out@;
        out.insert(at, item);
        proof {
            broadcast use vstd::seq_lib::group_to_multiset_ensures;

            assert(out@ == before.insert(at as int, item));
            vstd::seq_lib::to_multiset_insert(before, at as int, item);
            assert(items@.take(i + 1) =~= items@.take(i as int).push(item));
            assert(ascending(out@)) by {
                assert forall|a: int, b: int| 0 <= a <= b < out@.len() implies out@[a]
                    <= out@[b] by {
                    if at < before.len() {
                        assert(item <= before[at as int]);
                    }
                }
            }
        }
        i += 1;
    }
    assert(items@.take(i as int) =~= items@);
    out
}

} // verus!
