//! Shader binding tables, and the descriptions of ray tracing pipelines.

use vstd::prelude::*;

use crate::align;
use crate::command::{BufferRegion, Command, CommandEncoder};
use crate::shader::ShaderGroup;
use crate::text;
use crate::vk;
use vstd::slice::slice_subrange;

verus! {

// ---------------------------------------------------------------------------
// Shader group handles
// ---------------------------------------------------------------------------

/// The shader group handles of a pipeline, tightly packed: those of ray
/// generation shaders, miss shaders, callable shaders and hit groups.
pub struct SbtHandles {
    pub data: Vec<u8>,
    pub handle_size: u32,
    pub num_raygen: u8,
    pub num_miss: u8,
    pub num_callable: u8,
    pub num_hitgroup: u8,
}

impl SbtHandles {
    /// How many handles there are.
    pub open spec fn count(&self) -> int {
        self.num_raygen + self.num_miss + self.num_callable + self.num_hitgroup
    }

    /// The data holds one handle for each group, and can be addressed.
    pub open spec fn wf(&self) -> bool {
        &&& self.data@.len() == self.handle_size * self.count()
        &&& self.handle_size * self.count() <= u32::MAX
    }

    /// Handle number `i`.
    pub open spec fn handle(&self, i: int) -> Seq<u8> {
        self.data@.subrange(self.handle_size * i, self.handle_size * (i + 1))
    }

    /// Wraps the handles that a device hands out.
    pub fn new(
        data: Vec<u8>,
        handle_size: u32,
        num_raygen: u8,
        num_miss: u8,
        num_callable: u8,
        num_hitgroup: u8,
    ) -> (r: Self)
        requires
            data@.len() == handle_size * (num_raygen + num_miss + num_callable + num_hitgroup),
            handle_size * (num_raygen + num_miss + num_callable + num_hitgroup) <= u32::MAX,
        ensures
            r.wf(),
            r.data@ == data@,
            r.handle_size == handle_size,
            r.num_raygen == num_raygen,
            r.num_miss == num_miss,
            r.num_callable == num_callable,
            r.num_hitgroup == num_hitgroup,
    {
        SbtHandles { data, handle_size, num_raygen, num_miss, num_callable, num_hitgroup }
    }

    fn at(&self, i: u32) -> (r: &[u8])
        requires
            self.wf(),
            i < self.count(),
        ensures
            r@ == self.handle(i as int),
            r@.len() == self.handle_size,
    {
        proof {
            lemma_handle_range(self.handle_size as int, i as int, self.count());
        }
        let start: u32 = self.handle_size * i;
        let end: u32 = start + self.handle_size;
        slice_subrange(self.data.as_slice(), start as usize, end as usize)
    }

    /// The handle of a ray generation shader.
    pub fn rgen(&self, index: u32) -> (r: &[u8])
        requires
            self.wf(),
            index < self.num_raygen,
        ensures
            r@ == self.handle(index as int),
            r@.len() == self.handle_size,
    {
        self.at(index)
    }

    /// The handle of a miss shader.
    pub fn rmiss(&self, index: u32) -> (r: &[u8])
        requires
            self.wf(),
            index < self.num_miss,
        ensures
            r@ == self.handle(self.num_raygen + index),
            r@.len() == self.handle_size,
    {
        self.at(index + self.num_raygen as u32)
    }

    /// The handle of a callable shader.
    pub fn callable(&self, index: u32) -> (r: &[u8])
        requires
            self.wf(),
            index < self.num_callable,
        ensures
            r@ == self.handle(self.num_raygen + self.num_miss + index),
            r@.len() == self.handle_size,
    {
        self.at(index + self.num_raygen as u32 + self.num_miss as u32)
    }

    /// The handle of a hit group.
    pub fn hitgroup(&self, index: u32) -> (r: &[u8])
        requires
            self.wf(),
            index < self.num_hitgroup,
        ensures
            r@ == self.handle(self.num_raygen + self.num_miss + self.num_callable + index),
            r@.len() == self.handle_size,
    {
        self.at(
            index + self.num_miss as u32 + self.num_callable as u32 + self.num_raygen as u32,
        )
    }
}

proof fn lemma_handle_range(size: int, i: int, count: int)
    requires
        size >= 0,
        0 <= i < count,
    ensures
        0 <= size * i,
        size * i + size == size * (i + 1),
        size * (i + 1) <= size * count,
{
    assert(0 <= size * i) by (nonlinear_arith)
        requires
            size >= 0,
            0 <= i,
    ;
    assert(size * i + size == size * (i + 1)) by (nonlinear_arith);
    assert(size * (i + 1) <= size * count) by (nonlinear_arith)
        requires
            size >= 0,
            i + 1 <= count,
    ;
}

/// No two groups share a byte of the handles.
pub proof fn law_handles_are_disjoint(h: SbtHandles, i: int, j: int)
    requires
        h.wf(),
        0 <= i < j < h.count(),
    ensures
        0 <= h.handle_size * i,
        h.handle_size * (i + 1) <= h.handle_size * j,
        h.handle_size * (j + 1) <= h.data@.len(),
        h.handle(i).len() == h.handle_size,
{
    lemma_handle_range(h.handle_size as int, i, j);
    lemma_handle_range(h.handle_size as int, i, h.count());
    lemma_handle_range(h.handle_size as int, j, h.count());
}

// ---------------------------------------------------------------------------
// Description of the handles
// ---------------------------------------------------------------------------

/// The first `n` bytes as hexadecimal numbers, one after the other.
pub open spec fn hex_digits(bytes: Seq<u8>, n: nat) -> Seq<char>
    decreases n,
{
    if n == 0 {
        Seq::empty()
    } else {
        hex_digits(bytes, (n - 1) as nat) + text::digits(bytes[n - 1] as nat, 16)
    }
}

/// A handle as it is described.
pub open spec fn handle_text(bytes: Seq<u8>) -> Seq<char> {
    "0x"@ + hex_digits(bytes, bytes.len())
}

proof fn lemma_hex_of_beginning(a: Seq<u8>, b: Seq<u8>, n: nat)
    requires
        n <= a.len(),
        n <= b.len(),
        forall|i: int| 0 <= i < n ==> a[i] == b[i],
    ensures
        hex_digits(a, n) == hex_digits(b, n),
    decreases n,
{
    if n > 0 {
        lemma_hex_of_beginning(a, b, (n - 1) as nat);
    }
}

/// A handle is described by its bytes in their order, each as a hexadecimal
/// number: one byte more is one number more at the end.
pub proof fn law_handles_are_described_byte_by_byte(bytes: Seq<u8>, last: u8)
    ensures
        handle_text(Seq::empty()) == seq!['0', 'x'],
        handle_text(bytes.push(last)) == handle_text(bytes) + text::digits(last as nat, 16),
{
    reveal_strlit("0x");
    assert(handle_text(Seq::empty()) =~= seq!['0', 'x']);
    lemma_hex_of_beginning(bytes.push(last), bytes, bytes.len());
    assert(handle_text(bytes.push(last)) =~= handle_text(bytes) + text::digits(last as nat, 16));
}

/// Descriptions of handles follow each other in the order of the handles, with a
/// comma and a space between them.
pub proof fn law_descriptions_follow_the_handles(h: SbtHandles, first: int, n: nat, m: nat)
    requires
        n > 0,
        m > 0,
    ensures
        h.handle_list(first, 1) == handle_text(h.handle(first)),
        h.handle_list(first, n + m) == h.handle_list(first, n) + seq![',', ' '] + h.handle_list(
            first + n,
            m,
        ),
    decreases m,
{
    reveal_strlit(", ");
    assert(", "@ =~= seq![',', ' ']);
    let sep = seq![',', ' '];
    if m == 1 {
        assert((n + m - 1) as nat == n);
        assert(first + (n + m) - 1 == first + n);
        assert(h.handle_list(first, n + m) == h.handle_list(first, n) + sep + handle_text(
            h.handle(first + n),
        ));
    } else {
        let k = (m - 1) as nat;
        law_descriptions_follow_the_handles(h, first, n, k);
        let last = handle_text(h.handle(first + n + m - 1));
        assert((n + m - 1) as nat == n + k);
        assert(first + (n + m) - 1 == first + n + m - 1);
        assert(h.handle_list(first, n + m) == h.handle_list(first, n + k) + sep + last);
        assert(h.handle_list(first + n, m) == h.handle_list(first + n, k) + sep + last);
        assert(h.handle_list(first, n + m) =~= h.handle_list(first, n) + sep + h.handle_list(
            first + n,
            m,
        ));
    }
}

impl SbtHandles {
    /// The descriptions of `n` handles, the first of which is number `first`.
    pub open spec fn handle_list(&self, first: int, n: nat) -> Seq<char>
        decreases n,
    {
        if n == 0 {
            Seq::empty()
        } else if n == 1 {
            handle_text(self.handle(first))
        } else {
            self.handle_list(first, (n - 1) as nat) + ", "@ + handle_text(
                self.handle(first + n - 1),
            )
        }
    }

    /// What `debug_text` returns.
    pub open spec fn description(&self) -> Seq<char> {
        "SbtHandles { handle_size: "@ + text::digits(self.handle_size as nat, 10) + ", raygen: ["@
            + self.handle_list(0, self.num_raygen as nat) + "], miss: ["@ + self.handle_list(
            self.num_raygen as int,
            self.num_miss as nat,
        ) + "], callable: ["@ + self.handle_list(
            self.num_raygen + self.num_miss,
            self.num_callable as nat,
        ) + "], hitgroup: ["@ + self.handle_list(
            self.num_raygen + self.num_miss + self.num_callable,
            self.num_hitgroup as nat,
        ) + "]"@
    }

    fn push_handles(&self, out: &mut String, first: u32, n: u32)
        requires
            self.wf(),
            first + n <= self.count(),
        ensures
            final(out)@ == old(out)@ + self.handle_list(first as int, n as nat),
    {
        let ghost before = out@;
        let mut i: u32 = 0;
        while i < n
            invariant
                self.wf(),
                i <= n,
                first + n <= self.count(),
                out@ == before + self.handle_list(first as int, i as nat),
            decreases n - i,
        {
            if i > 0 {
                out.append(", ");
            }
            out.append("0x");
            let handle = self.at(first + i);
            let ghost head = out@;
            let mut j: usize = 0;
            while j < handle.len()
                invariant
                    j <= handle@.len(),
                    out@ == head + hex_digits(handle@, j as nat),
                decreases handle@.len() - j,
            {
                text::push_digits(out, handle[j] as u64, 16);
                j += 1;
                assert(out@ =~= head + hex_digits(handle@, j as nat));
            }
            i += 1;
            assert(out@ =~= before + self.handle_list(first as int, i as nat));
        }
    }

    /// The handles of each kind as hexadecimal numbers.
    pub fn debug_text(&self) -> (r: String)
        requires
            self.wf(),
        ensures
            r@ == self.description(),
    {
        let rgen: u32 = self.num_raygen as u32;
        let miss: u32 = self.num_miss as u32;
        let callable: u32 = self.num_callable as u32;
        let mut out = "SbtHandles { handle_size: ".to_owned();
        text::push_digits(&mut out, self.handle_size as u64, 10);
        out.append(", raygen: [");
        self.push_handles(&mut out, 0, rgen);
        out.append("], miss: [");
        self.push_handles(&mut out, rgen, miss);
        out.append("], callable: [");
        self.push_handles(&mut out, rgen + miss, callable);
        out.append("], hitgroup: [");
        self.push_handles(&mut out, rgen + miss + callable, self.num_hitgroup as u32);
        out.append("]");
        out
    }
}

// ---------------------------------------------------------------------------
// Layout
// ---------------------------------------------------------------------------

/// Layout of one shader stage of a binding table.
#[derive(Debug, Clone, Copy, PartialEq, Eq, Structural)]
pub struct SbtLayoutStage {
    /// Size of the inline data of an entry.
    pub param_size: u32,
    /// Number of shaders in this stage.
    pub count: u8,
}

impl Default for SbtLayoutStage {
    fn default() -> (r: Self)
        ensures
            r == (SbtLayoutStage { param_size: 0, count: 0 }),
    {
        SbtLayoutStage { param_size: 0, count: 0 }
    }
}

/// Size and alignment of a piece of memory.
#[derive(Debug, Clone, Copy, PartialEq, Eq, Structural)]
pub struct EntryLayout {
    pub size: usize,
    pub align: usize,
}

/// Layout of a shader binding table.
#[derive(Debug, Clone, Copy, PartialEq, Eq, Structural)]
pub struct SbtLayout {
    /// Size of a shader group handle.
    pub handle_size: u32,
    /// Alignment of the table and of each of its stages.
    pub base_aligment: u32,
    /// Alignment of the entries within a stage.
    pub entry_alignment: u32,
    pub raygen: SbtLayoutStage,
    pub miss: SbtLayoutStage,
    pub callable: SbtLayoutStage,
    pub hitgroup: SbtLayoutStage,
}

/// Size of an entry with its padding.
pub open spec fn stride_of(handle_size: u32, param_size: u32, align: u32) -> int {
    align::round_up(handle_size + param_size, align as int)
}

impl SbtLayout {
    /// An alignment is given, and entries can be addressed.
    pub open spec fn wf(&self) -> bool {
        &&& self.base_aligment > 0
        &&& self.entry_alignment > 0
        &&& self.raygen_stride() <= u32::MAX
        &&& self.miss_stride() <= u32::MAX
        &&& self.callable_stride() <= u32::MAX
        &&& self.hitgroup_stride() <= u32::MAX
    }

    /// Ray generation entries are aligned like a table, since each is handed
    /// to the device by its own address.
    pub open spec fn raygen_stride(&self) -> int {
        stride_of(self.handle_size, self.raygen.param_size, self.base_aligment)
    }

    pub open spec fn miss_stride(&self) -> int {
        stride_of(self.handle_size, self.miss.param_size, self.entry_alignment)
    }

    pub open spec fn callable_stride(&self) -> int {
        stride_of(self.handle_size, self.callable.param_size, self.entry_alignment)
    }

    pub open spec fn hitgroup_stride(&self) -> int {
        stride_of(self.handle_size, self.hitgroup.param_size, self.entry_alignment)
    }

    /// The layout of an empty table on a device with the given properties.
    pub fn new(handle_size: u32, base_aligment: u32, entry_alignment: u32) -> (r: Self)
        ensures
            r.handle_size == handle_size,
            r.base_aligment == base_aligment,
            r.entry_alignment == entry_alignment,
            r.raygen == (SbtLayoutStage { param_size: 0, count: 0 }),
            r.miss == (SbtLayoutStage { param_size: 0, count: 0 }),
            r.callable == (SbtLayoutStage { param_size: 0, count: 0 }),
            r.hitgroup == (SbtLayoutStage { param_size: 0, count: 0 }),
    {
        SbtLayout {
            handle_size,
            base_aligment,
            entry_alignment,
            raygen: SbtLayoutStage::default(),
            miss: SbtLayoutStage::default(),
            callable: SbtLayoutStage::default(),
            hitgroup: SbtLayoutStage::default(),
        }
    }

    /// Layout of a ray generation entry.
    pub fn raygen_layout(&self) -> (r: EntryLayout)
        requires
            self.handle_size + self.raygen.param_size <= u32::MAX,
        ensures
            r.size == self.handle_size + self.raygen.param_size,
            r.align == self.base_aligment,
    {
        EntryLayout {
            size: (self.handle_size + self.raygen.param_size) as usize,
            align: self.base_aligment as usize,
        }
    }

    /// Layout of a miss entry.
    pub fn miss_layout(&self) -> (r: EntryLayout)
        requires
            self.handle_size + self.miss.param_size <= u32::MAX,
        ensures
            r.size == self.handle_size + self.miss.param_size,
            r.align == self.entry_alignment,
    {
        EntryLayout {
            size: (self.handle_size + self.miss.param_size) as usize,
            align: self.entry_alignment as usize,
        }
    }

    /// Layout of a callable entry.
    pub fn callable_layout(&self) -> (r: EntryLayout)
        requires
            self.handle_size + self.callable.param_size <= u32::MAX,
        ensures
            r.size == self.handle_size + self.callable.param_size,
            r.align == self.entry_alignment,
    {
        EntryLayout {
            size: (self.handle_size + self.callable.param_size) as usize,
            align: self.entry_alignment as usize,
        }
    }

    /// Layout of a hit group entry.
    pub fn hitgroup_layout(&self) -> (r: EntryLayout)
        requires
            self.handle_size + self.hitgroup.param_size <= u32::MAX,
        ensures
            r.size == self.handle_size + self.hitgroup.param_size,
            r.align == self.entry_alignment,
    {
        EntryLayout {
            size: (self.handle_size + self.hitgroup.param_size) as usize,
            align: self.entry_alignment as usize,
        }
    }
}

/// Entries have room for a handle and their inline data. They begin at multiples
/// of an alignment, of the table for ray generation and of entries otherwise, and
/// waste less than one step of it.
pub proof fn law_entries_have_room_and_are_aligned(layout: SbtLayout)
    requires
        layout.base_aligment > 0,
        layout.entry_alignment > 0,
    ensures
        layout.raygen_stride() % layout.base_aligment as int == 0,
        layout.miss_stride() % layout.entry_alignment as int == 0,
        layout.callable_stride() % layout.entry_alignment as int == 0,
        layout.hitgroup_stride() % layout.entry_alignment as int == 0,
        layout.handle_size + layout.raygen.param_size <= layout.raygen_stride()
            < layout.handle_size + layout.raygen.param_size + layout.base_aligment,
        layout.handle_size + layout.miss.param_size <= layout.miss_stride() < layout.handle_size
            + layout.miss.param_size + layout.entry_alignment,
        layout.handle_size + layout.callable.param_size <= layout.callable_stride()
            < layout.handle_size + layout.callable.param_size + layout.entry_alignment,
        layout.handle_size + layout.hitgroup.param_size <= layout.hitgroup_stride()
            < layout.handle_size + layout.hitgroup.param_size + layout.entry_alignment,
{
    align::lemma_round_up(
        layout.handle_size + layout.raygen.param_size,
        layout.base_aligment as int,
    );
    align::lemma_round_up(
        layout.handle_size + layout.miss.param_size,
        layout.entry_alignment as int,
    );
    align::lemma_round_up(
        layout.handle_size + layout.callable.param_size,
        layout.entry_alignment as int,
    );
    align::lemma_round_up(
        layout.handle_size + layout.hitgroup.param_size,
        layout.entry_alignment as int,
    );
}

// ---------------------------------------------------------------------------
// Recording a table
// ---------------------------------------------------------------------------

/// How far one stage of a table has been recorded.
#[derive(Debug, Clone, Copy, PartialEq, Eq, Structural)]
pub enum ShaderBindingTableState {
    NotSet,
    Recording { base_offset: u64, index: u32 },
    Recorded { base_offset: u64, index: u32 },
}

/// `buffer` with zeros up to the next multiple of `alignment`.
pub open spec fn padded(buffer: Seq<u8>, alignment: u32) -> Seq<u8> {
    buffer + Seq::new(
        (align::round_up(buffer.len() as int, alignment as int) - buffer.len()) as nat,
        |i: int| 0u8,
    )
}

impl ShaderBindingTableState {
    pub open spec fn index_of(self) -> u32 {
        match self {
            ShaderBindingTableState::NotSet => 0,
            ShaderBindingTableState::Recording { base_offset, index } => index,
            ShaderBindingTableState::Recorded { base_offset, index } => index,
        }
    }

    pub open spec fn base_of(self) -> u64 {
        match self {
            ShaderBindingTableState::NotSet => 0,
            ShaderBindingTableState::Recording { base_offset, index } => base_offset,
            ShaderBindingTableState::Recorded { base_offset, index } => base_offset,
        }
    }

    /// The state after one more entry. The first fixes the offset.
    pub open spec fn incremented(self, base_offset: u64) -> ShaderBindingTableState {
        match self {
            ShaderBindingTableState::NotSet => ShaderBindingTableState::Recording {
                base_offset,
                index: 1,
            },
            ShaderBindingTableState::Recording { base_offset: base, index } =>
                ShaderBindingTableState::Recording {
                    base_offset: base,
                    index: (index + 1) as u32,
                },
            ShaderBindingTableState::Recorded { base_offset: base, index } => self,
        }
    }

    /// The state once another stage is recorded.
    pub open spec fn ended(self) -> ShaderBindingTableState {
        match self {
            ShaderBindingTableState::Recording { base_offset, index } =>
                ShaderBindingTableState::Recorded { base_offset, index },
            _ => self,
        }
    }

    /// The table once another stage is recorded: zeros end the entries of a
    /// stage that is being recorded.
    pub open spec fn closed(self, buffer: Seq<u8>, alignment: u32) -> Seq<u8> {
        if self is Recording {
            padded(buffer, alignment)
        } else {
            buffer
        }
    }

    /// Counts one more entry and returns its index. Entries of a stage must be
    /// recorded one after the other.
    pub fn increment(&mut self, base_offset: u64) -> (r: u32)
        requires
            !(*old(self) is Recorded),
            old(self).index_of() < u32::MAX,
        ensures
            r == old(self).index_of(),
            *final(self) == old(self).incremented(base_offset),
    {
        match *self {
            ShaderBindingTableState::NotSet => {
                *self = ShaderBindingTableState::Recording { base_offset, index: 1 };
                0
            },
            ShaderBindingTableState::Recording { base_offset: base, index } => {
                *self = ShaderBindingTableState::Recording { base_offset: base, index: index + 1 };
                index
            },
            ShaderBindingTableState::Recorded { base_offset: _, index } => index,
        }
    }

    /// Ends the stage if it is being recorded, and pads the table.
    pub fn end(&mut self, buffer: &mut Vec<u8>, alignment: u32)
        requires
            alignment > 0,
            *old(self) is Recording ==> align::round_up(
                old(buffer)@.len() as int,
                alignment as int,
            ) <= usize::MAX,
        ensures
            *final(self) == old(self).ended(),
            final(buffer)@ == old(self).closed(old(buffer)@, alignment),
    {
        match *self {
            ShaderBindingTableState::Recording { base_offset, index } => {
                pad(buffer, alignment);
                *self = ShaderBindingTableState::Recorded { base_offset, index };
            },
            _ => {},
        }
    }

    /// How many entries the stage has.
    pub fn index(&self) -> (r: u32)
        ensures
            r == self.index_of(),
    {
        match *self {
            ShaderBindingTableState::NotSet => 0,
            ShaderBindingTableState::Recording { base_offset: _, index } => index,
            ShaderBindingTableState::Recorded { base_offset: _, index } => index,
        }
    }

    /// Where the stage begins.
    pub fn base_offset(&self) -> (r: u64)
        ensures
            r == self.base_of(),
    {
        match *self {
            ShaderBindingTableState::NotSet => 0,
            ShaderBindingTableState::Recording { base_offset, index: _ } => base_offset,
            ShaderBindingTableState::Recorded { base_offset, index: _ } => base_offset,
        }
    }
}

/// A stage is closed once and for all. Closing one that is not being recorded
/// changes nothing, so closing it again does not, and closing never changes how
/// many entries the stage has, where it begins, or the bytes of the table.
pub proof fn law_stages_are_closed_once(s: ShaderBindingTableState, buffer: Seq<u8>, alignment: u32)
    requires
        alignment > 0,
    ensures
        !(s is Recording) ==> s.ended() == s && s.closed(buffer, alignment) == buffer,
        s.ended().ended() == s.ended(),
        s.ended().closed(s.closed(buffer, alignment), alignment) == s.closed(buffer, alignment),
        s.ended().index_of() == s.index_of(),
        s.ended().base_of() == s.base_of(),
        buffer.len() <= s.closed(buffer, alignment).len(),
        s.closed(buffer, alignment).take(buffer.len() as int) == buffer,
{
    align::lemma_round_up(buffer.len() as int, alignment as int);
    assert(s.closed(buffer, alignment).take(buffer.len() as int) =~= buffer);
}

/// Appends zeros until the buffer has the given length.
fn extend_with_zeros(buffer: &mut Vec<u8>, len: usize)
    requires
        old(buffer)@.len() <= len,
    ensures
        final(buffer)@ == old(buffer)@ + Seq::new(
            (len - old(buffer)@.len()) as nat,
            |i: int| 0u8,
        ),
{
    let ghost start = buffer@;
    assert(start + Seq::new(0, |i: int| 0u8) =~= start);
    while buffer.len() < len
        invariant
            start.len() <= buffer@.len() <= len,
            buffer@ == start + Seq::new((buffer@.len() - start.len()) as nat, |i: int| 0u8),
        decreases len - buffer@.len(),
    {
        buffer.push(0);
        assert(buffer@ =~= start + Seq::new((buffer@.len() - start.len()) as nat, |i: int| 0u8));
    }
}

fn pad(buffer: &mut Vec<u8>, alignment: u32)
    requires
        alignment > 0,
        align::round_up(old(buffer)@.len() as int, alignment as int) <= usize::MAX,
    ensures
        final(buffer)@ == padded(old(buffer)@, alignment),
{
    let len: usize = align::next_multiple_of_usize(buffer.len(), alignment as usize);
    proof {
        align::lemma_round_up(buffer@.len() as int, alignment as int);
    }
    extend_with_zeros(buffer, len);
}

/// An entry: a handle, inline data, and zeros up to `stride`.
pub open spec fn entry(handle: Seq<u8>, inline_data: Seq<u8>, stride: int) -> Seq<u8> {
    handle + inline_data + Seq::new(
        (stride - handle.len() - inline_data.len()) as nat,
        |i: int| 0u8,
    )
}

/// A shader binding table. The entries of a stage are recorded one after the
/// other: once another stage has been begun, a stage takes no more entries.
pub struct ShaderBindingTable {
    pub hitgroup_id_mapper: u64,
    pub handles: SbtHandles,
    pub layout: SbtLayout,
    pub buffer: Vec<u8>,
    pub raygen_index: ShaderBindingTableState,
    pub miss_index: ShaderBindingTableState,
    pub callable_index: ShaderBindingTableState,
    pub hitgroup_index: ShaderBindingTableState,
}

/// A stage of a table: it begins at a multiple of the base alignment, its
/// entries lie one after the other, and while it is recorded they end the
/// table.
pub open spec fn stage_wf(s: ShaderBindingTableState, stride: int, align: u32, len: int) -> bool {
    match s {
        ShaderBindingTableState::NotSet => true,
        ShaderBindingTableState::Recording { base_offset, index } => {
            &&& base_offset as int % align as int == 0
            &&& base_offset + index * stride == len
        },
        ShaderBindingTableState::Recorded { base_offset, index } => {
            &&& base_offset as int % align as int == 0
            &&& base_offset + index * stride <= len
        },
    }
}

pub open spec fn recording(s: ShaderBindingTableState) -> int {
    if s is Recording {
        1
    } else {
        0
    }
}

/// The shader that id `id` stands for: hit groups that `mapper` leaves out are
/// not counted.
pub open spec fn mapped_id(mapper: u64, id: nat) -> nat
    decreases id,
{
    if id == 0 {
        0
    } else {
        mapped_id(mapper, (id - 1) as nat) + (if (mapper >> ((id - 1) as u64)) & 1 == 1 {
            1nat
        } else {
            0nat
        })
    }
}

fn map_id(mapper: u64, id: u32) -> (r: u32)
    requires
        id < 64,
    ensures
        r == mapped_id(mapper, id as nat),
        r <= id,
{
    let mut n: u32 = 0;
    let mut i: u32 = 0;
    while i < id
        invariant
            i <= id < 64,
            n == mapped_id(mapper, i as nat),
            n <= i,
        decreases id - i,
    {
        if (mapper >> (i as u64)) & 1 == 1 {
            n += 1;
        }
        i += 1;
    }
    n
}

/// A mapper with every bit set leaves ids as they are.
pub proof fn law_full_mapper_keeps_ids(id: nat)
    requires
        id <= 64,
    ensures
        mapped_id(u64::MAX, id) == id,
    decreases id,
{
    if id > 0 {
        law_full_mapper_keeps_ids((id - 1) as nat);
        let k = (id - 1) as u64;
        assert((0xFFFF_FFFF_FFFF_FFFFu64 >> k) & 1 == 1) by (bit_vector)
            requires
                k < 64,
        ;
    }
}

/// Ids of hit groups are mapped in order: an id is mapped one further than the
/// one before it where the mapper lets that one through, and otherwise to the
/// same. So ids of groups that exist are told apart.
pub proof fn law_ids_are_mapped_in_order(mapper: u64, a: nat, b: nat)
    requires
        a < b <= 64,
    ensures
        mapped_id(mapper, 0) == 0,
        mapped_id(mapper, a) <= mapped_id(mapper, b) <= b,
        (mapper >> (a as u64)) & 1 == 1 ==> mapped_id(mapper, a) < mapped_id(mapper, b),
        b == a + 1 && (mapper >> (a as u64)) & 1 != 1 ==> mapped_id(mapper, a) == mapped_id(
            mapper,
            b,
        ),
        b == a + 1 && (mapper >> (a as u64)) & 1 == 1 ==> mapped_id(mapper, a) + 1 == mapped_id(
            mapper,
            b,
        ),
    decreases b,
{
    if b == a + 1 {
        if a > 0 {
            law_ids_are_mapped_in_order(mapper, (a - 1) as nat, a);
        }
    } else {
        law_ids_are_mapped_in_order(mapper, a, (b - 1) as nat);
    }
}

impl ShaderBindingTable {
    pub open spec fn wf(&self) -> bool {
        &&& self.handles.wf()
        &&& self.layout.wf()
        &&& self.handles.handle_size == self.layout.handle_size
        &&& stage_wf(
            self.raygen_index,
            self.layout.raygen_stride(),
            self.layout.base_aligment,
            self.buffer@.len() as int,
        )
        &&& stage_wf(
            self.miss_index,
            self.layout.miss_stride(),
            self.layout.base_aligment,
            self.buffer@.len() as int,
        )
        &&& stage_wf(
            self.callable_index,
            self.layout.callable_stride(),
            self.layout.base_aligment,
            self.buffer@.len() as int,
        )
        &&& stage_wf(
            self.hitgroup_index,
            self.layout.hitgroup_stride(),
            self.layout.base_aligment,
            self.buffer@.len() as int,
        )
        &&& recording(self.raygen_index) + recording(self.miss_index) + recording(
            self.callable_index,
        ) + recording(self.hitgroup_index) <= 1
        &&& recording(self.raygen_index) + recording(self.miss_index) + recording(
            self.callable_index,
        ) + recording(self.hitgroup_index) == 0 ==> self.buffer@.len() as int
            % self.layout.base_aligment as int == 0
    }

    /// Nothing has been recorded.
    pub open spec fn is_fresh(&self) -> bool {
        &&& self.buffer@.len() == 0
        &&& self.raygen_index is NotSet
        &&& self.miss_index is NotSet
        &&& self.callable_index is NotSet
        &&& self.hitgroup_index is NotSet
    }

    /// An empty table for the given handles.
    pub fn new(handles: SbtHandles, layout: SbtLayout) -> (r: Self)
        requires
            handles.wf(),
            layout.wf(),
            handles.handle_size == layout.handle_size,
        ensures
            r.wf(),
            r.is_fresh(),
            r.handles == handles,
            r.layout == layout,
            r.hitgroup_id_mapper == u64::MAX,
    {
        ShaderBindingTable {
            hitgroup_id_mapper: u64::MAX,
            handles,
            layout,
            buffer: Vec::new(),
            raygen_index: ShaderBindingTableState::NotSet,
            miss_index: ShaderBindingTableState::NotSet,
            callable_index: ShaderBindingTableState::NotSet,
            hitgroup_index: ShaderBindingTableState::NotSet,
        }
    }

    /// An empty table for the given handles, of which `mapper` says which hit
    /// groups exist. The memory of an old table is used again.
    pub fn new_with_mapper(
        handles: SbtHandles,
        layout: SbtLayout,
        mapper: u64,
        reusing_old_sbt: Option<ShaderBindingTable>,
    ) -> (r: Self)
        requires
            handles.wf(),
            layout.wf(),
            handles.handle_size == layout.handle_size,
        ensures
            r.wf(),
            r.is_fresh(),
            r.handles == handles,
            r.layout == layout,
            r.hitgroup_id_mapper == mapper,
    {
        let buffer: Vec<u8> = match reusing_old_sbt {
            Some(old_sbt) => {
                let mut buffer = old_sbt.buffer;
                buffer.clear();
                buffer
            },
            None => Vec::new(),
        };
        ShaderBindingTable {
            hitgroup_id_mapper: mapper,
            handles,
            layout,
            buffer,
            raygen_index: ShaderBindingTableState::NotSet,
            miss_index: ShaderBindingTableState::NotSet,
            callable_index: ShaderBindingTableState::NotSet,
            hitgroup_index: ShaderBindingTableState::NotSet,
        }
    }

    /// The raw table, to be uploaded.
    pub fn buffer(&self) -> (r: &[u8])
        ensures
            r@ == self.buffer@,
    {
        self.buffer.as_slice()
    }

    /// Size and alignment of the raw table.
    pub fn layout(&self) -> (r: EntryLayout)
        ensures
            r.size == self.buffer@.len(),
            r.align == self.layout.base_aligment,
    {
        EntryLayout { size: self.buffer.len(), align: self.layout.base_aligment as usize }
    }
}

/// Appends an entry.
fn push_entry(buffer: &mut Vec<u8>, handle: &[u8], inline_data: &[u8], layout: EntryLayout)
    requires
        layout.align > 0,
        layout.size == handle@.len() + inline_data@.len(),
        old(buffer)@.len() + align::round_up(layout.size as int, layout.align as int)
            <= usize::MAX,
    ensures
        final(buffer)@ == old(buffer)@ + entry(
            handle@,
            inline_data@,
            align::round_up(layout.size as int, layout.align as int),
        ),
{
    let ghost start = buffer@;
    proof {
        align::lemma_round_up(layout.size as int, layout.align as int);
    }
    let reserved: usize = align::next_multiple_of_usize(layout.size, layout.align);
    let end: usize = buffer.len() + reserved;
    buffer.extend_from_slice(handle);
    buffer.extend_from_slice(inline_data);
    assert(buffer@ =~= start + handle@ + inline_data@);
    extend_with_zeros(buffer, end);
    assert(buffer@ =~= start + entry(handle@, inline_data@, reserved as int));
}

/// One more entry at the end of the table keeps its stage in shape.
proof fn lemma_stage_grown(s: ShaderBindingTableState, stride: int, align: u32, len: int)
    requires
        stage_wf(s, stride, align, len),
        !(s is Recorded),
        s.index_of() < u32::MAX,
        s is NotSet ==> len % align as int == 0,
        0 <= len <= u64::MAX,
    ensures
        stage_wf(s.incremented(len as u64), stride, align, len + stride),
        s.incremented(len as u64) is Recording,
{
    let i = s.index_of() as int;
    assert((i + 1) * stride == i * stride + stride) by (nonlinear_arith);
}

/// The table at the point where an entry of the stage in state `s` goes: behind
/// the padding that ends another stage.
pub open spec fn opened(t: ShaderBindingTable, s: ShaderBindingTableState) -> Seq<u8> {
    if s is Recording || recording(t.raygen_index) + recording(t.miss_index) + recording(
        t.callable_index,
    ) + recording(t.hitgroup_index) == 0 {
        t.buffer@
    } else {
        padded(t.buffer@, t.layout.base_aligment)
    }
}

proof fn lemma_strides(layout: SbtLayout)
    requires
        layout.wf(),
    ensures
        layout.handle_size + layout.raygen.param_size <= layout.raygen_stride(),
        layout.handle_size + layout.miss.param_size <= layout.miss_stride(),
        layout.handle_size + layout.callable.param_size <= layout.callable_stride(),
        layout.handle_size + layout.hitgroup.param_size <= layout.hitgroup_stride(),
{
    align::lemma_round_up(
        layout.handle_size + layout.raygen.param_size,
        layout.base_aligment as int,
    );
    align::lemma_round_up(
        layout.handle_size + layout.miss.param_size,
        layout.entry_alignment as int,
    );
    align::lemma_round_up(
        layout.handle_size + layout.callable.param_size,
        layout.entry_alignment as int,
    );
    align::lemma_round_up(
        layout.handle_size + layout.hitgroup.param_size,
        layout.entry_alignment as int,
    );
}

/// The stages of a table.
#[derive(Debug, Clone, Copy, PartialEq, Eq, Structural)]
pub enum SbtStage {
    RayGen,
    Miss,
    Callable,
    HitGroup,
}

/// How far a stage of a table has been recorded.
pub open spec fn stage_state(t: ShaderBindingTable, stage: SbtStage) -> ShaderBindingTableState {
    match stage {
        SbtStage::RayGen => t.raygen_index,
        SbtStage::Miss => t.miss_index,
        SbtStage::Callable => t.callable_index,
        SbtStage::HitGroup => t.hitgroup_index,
    }
}

/// The stage takes one more entry.
pub open spec fn takes_entry(t: ShaderBindingTable, stage: SbtStage) -> bool {
    !(stage_state(t, stage) is Recorded) && stage_state(t, stage).index_of() < u32::MAX
}

/// What one more entry of a stage does to the stages of a table: its own counts
/// it, and each other one is closed.
pub open spec fn stages_after(
    before: ShaderBindingTable,
    stage: SbtStage,
    after: ShaderBindingTable,
) -> bool {
    forall|other: SbtStage| #[trigger]
        stage_state(after, other) == if other == stage {
            stage_state(before, stage).incremented(
                opened(before, stage_state(before, stage)).len() as u64,
            )
        } else {
            stage_state(before, other).ended()
        }
}

/// An entry: its stage, the shader or hit group it stands for, and its data.
pub struct SbtEntry {
    pub stage: SbtStage,
    pub id: u32,
    pub inline_data: Seq<u8>,
}

/// The handle that an entry gets. Ids of hit groups count those that the mapper
/// leaves out, too.
pub open spec fn entry_handle(t: ShaderBindingTable, e: SbtEntry) -> Seq<u8> {
    let h = t.handles;
    match e.stage {
        SbtStage::RayGen => h.handle(e.id as int),
        SbtStage::Miss => h.handle(h.num_raygen + e.id),
        SbtStage::Callable => h.handle(h.num_raygen + h.num_miss + e.id),
        SbtStage::HitGroup => h.handle(
            h.num_raygen + h.num_miss + h.num_callable + mapped_id(
                t.hitgroup_id_mapper,
                e.id as nat,
            ),
        ),
    }
}

/// The bytes that an entry of a stage takes.
pub open spec fn stage_stride(layout: SbtLayout, stage: SbtStage) -> int {
    match stage {
        SbtStage::RayGen => layout.raygen_stride(),
        SbtStage::Miss => layout.miss_stride(),
        SbtStage::Callable => layout.callable_stride(),
        SbtStage::HitGroup => layout.hitgroup_stride(),
    }
}

/// What one more entry does to a table: it ends the table, and its stage counts
/// it.
pub open spec fn pushed(before: ShaderBindingTable, e: SbtEntry, after: ShaderBindingTable) -> bool {
    &&& after.buffer@ == opened(before, stage_state(before, e.stage)) + entry(
        entry_handle(before, e),
        e.inline_data,
        stage_stride(before.layout, e.stage),
    )
    &&& stages_after(before, e.stage, after)
    &&& after.handles == before.handles
    &&& after.layout == before.layout
    &&& after.hitgroup_id_mapper == before.hitgroup_id_mapper
}

/// The number of the handle that an entry stands for: the handles of the stages
/// before come first, and of hit groups only those count that the mapper lets
/// through.
pub open spec fn handle_number(t: ShaderBindingTable, e: SbtEntry) -> int {
    match e.stage {
        SbtStage::RayGen => e.id as int,
        SbtStage::Miss => t.handles.num_raygen + e.id,
        SbtStage::Callable => t.handles.num_raygen + t.handles.num_miss + e.id,
        SbtStage::HitGroup => t.handles.num_raygen + t.handles.num_miss + t.handles.num_callable
            + mapped_id(t.hitgroup_id_mapper, e.id as nat),
    }
}

/// The inline data that entries of a stage have.
pub open spec fn stage_params(layout: SbtLayout, stage: SbtStage) -> u32 {
    match stage {
        SbtStage::RayGen => layout.raygen.param_size,
        SbtStage::Miss => layout.miss.param_size,
        SbtStage::Callable => layout.callable.param_size,
        SbtStage::HitGroup => layout.hitgroup.param_size,
    }
}

/// An entry is found where the device looks for it: at the start of its stage,
/// behind as many entries as the stage had before, lies the handle of its
/// shader, and behind that its inline data. Zeros fill the rest.
pub proof fn law_entries_are_found_at_their_index(
    before: ShaderBindingTable,
    e: SbtEntry,
    after: ShaderBindingTable,
    b: int,
)
    requires
        before.wf(),
        takes_entry(before, e.stage),
        pushed(before, e, after),
        0 <= handle_number(before, e) < before.handles.count(),
        e.inline_data.len() == stage_params(before.layout, e.stage),
        opened(before, stage_state(before, e.stage)).len() <= u64::MAX,
        0 <= b < stage_stride(before.layout, e.stage),
    ensures
        ({
            let stride = stage_stride(before.layout, e.stage);
            let index = stage_state(before, e.stage).index_of();
            let at = stage_state(after, e.stage).base_of() + index * stride;
            let size = before.handles.handle_size;
            &&& after.buffer@.len() == at + stride
            &&& b < size ==> after.buffer@[at + b] == before.handles.data@[size * handle_number(
                before,
                e,
            ) + b]
            &&& size <= b < size + e.inline_data.len() ==> after.buffer@[at + b]
                == e.inline_data[b - size]
            &&& size + e.inline_data.len() <= b ==> after.buffer@[at + b] == 0
            &&& stage_state(after, e.stage).index_of() == index + 1
        }),
{
    let stride = stage_stride(before.layout, e.stage);
    let state = stage_state(before, e.stage);
    let start = opened(before, state);
    let index = state.index_of() as int;
    let size = before.handles.handle_size as int;
    let number = handle_number(before, e);
    lemma_strides(before.layout);
    lemma_handle_range(size, number, before.handles.count());
    assert(entry_handle(before, e) == before.handles.handle(number));
    assert(before.handles.handle(number).len() == size);
    assert(stage_state(after, e.stage) == state.incremented(start.len() as u64));
    if state is NotSet {
        assert(0 * stride == 0) by (nonlinear_arith);
    } else {
        assert(stage_wf(
            state,
            stride,
            before.layout.base_aligment,
            before.buffer@.len() as int,
        ));
    }
    assert(start.len() == stage_state(after, e.stage).base_of() + index * stride);
}

/// A table that takes an entry of one stage keeps those of the others, as they
/// are, and the bytes that were there.
pub proof fn law_entries_keep_the_rest_of_the_table(
    before: ShaderBindingTable,
    e: SbtEntry,
    after: ShaderBindingTable,
    other: SbtStage,
)
    requires
        before.wf(),
        pushed(before, e, after),
        other != e.stage,
    ensures
        stage_state(after, other).index_of() == stage_state(before, other).index_of(),
        stage_state(after, other).base_of() == stage_state(before, other).base_of(),
        !(stage_state(after, other) is Recording),
        stage_state(after, other) is NotSet <==> stage_state(before, other) is NotSet,
        before.buffer@.len() <= after.buffer@.len(),
        forall|i: int|
            0 <= i < before.buffer@.len() ==> #[trigger] after.buffer@[i] == before.buffer@[i],
        after.handles == before.handles,
        after.layout == before.layout,
        after.hitgroup_id_mapper == before.hitgroup_id_mapper,
{
    align::lemma_round_up(before.buffer@.len() as int, before.layout.base_aligment as int);
    assert(stage_state(after, other) == stage_state(before, other).ended());
}

/// A stage that has not been begun starts at the next multiple of the base
/// alignment behind what is recorded.
pub proof fn law_stages_begin_at_the_alignment(
    before: ShaderBindingTable,
    e: SbtEntry,
    after: ShaderBindingTable,
)
    requires
        before.wf(),
        pushed(before, e, after),
        stage_state(before, e.stage) is NotSet,
        opened(before, stage_state(before, e.stage)).len() <= u64::MAX,
    ensures
        ({
            let base = stage_state(after, e.stage).base_of() as int;
            &&& base % before.layout.base_aligment as int == 0
            &&& before.buffer@.len() <= base < before.buffer@.len() + before.layout.base_aligment
        }),
{
    let state = stage_state(before, e.stage);
    align::lemma_round_up(before.buffer@.len() as int, before.layout.base_aligment as int);
    assert(stage_state(after, e.stage) == state.incremented(
        opened(before, state).len() as u64,
    ));
}

/// Two tables hold the same, and take the same entries.
pub open spec fn same_table(a: ShaderBindingTable, b: ShaderBindingTable) -> bool {
    &&& a.buffer@ == b.buffer@
    &&& a.raygen_index == b.raygen_index
    &&& a.miss_index == b.miss_index
    &&& a.callable_index == b.callable_index
    &&& a.hitgroup_index == b.hitgroup_index
    &&& a.handles == b.handles
    &&& a.layout == b.layout
    &&& a.hitgroup_id_mapper == b.hitgroup_id_mapper
}

/// Two new tables for the same handles, layout and mapper cannot be told apart,
/// whether one of them was made from an old table or not. Both are empty, each
/// stage takes a first entry and gives it the index 0, and after the same entries
/// both hold the same.
pub proof fn law_old_tables_leave_nothing_behind(
    a: Seq<ShaderBindingTable>,
    b: Seq<ShaderBindingTable>,
    entries: Seq<SbtEntry>,
    n: int,
    stage: SbtStage,
)
    requires
        a.len() == entries.len() + 1,
        b.len() == entries.len() + 1,
        a[0].is_fresh(),
        b[0].is_fresh(),
        a[0].handles == b[0].handles,
        a[0].layout == b[0].layout,
        a[0].hitgroup_id_mapper == b[0].hitgroup_id_mapper,
        forall|i: int| 0 <= i < entries.len() ==> pushed(a[i], #[trigger] entries[i], a[i + 1]),
        forall|i: int| 0 <= i < entries.len() ==> pushed(b[i], #[trigger] entries[i], b[i + 1]),
        0 <= n <= entries.len(),
    ensures
        a[0].buffer@.len() == 0,
        takes_entry(a[0], stage),
        stage_state(a[0], stage).index_of() == 0,
        same_table(a[n], b[n]),
        takes_entry(a[n], stage) == takes_entry(b[n], stage),
        stage_state(a[n], stage).index_of() == stage_state(b[n], stage).index_of(),
    decreases n,
{
    if n == 0 {
        assert(a[0].buffer@ =~= b[0].buffer@);
    } else {
        law_old_tables_leave_nothing_behind(a, b, entries, n - 1, stage);
        let e = entries[n - 1];
        assert(pushed(a[n - 1], e, a[n - 1 + 1]));
        assert(pushed(b[n - 1], e, b[n - 1 + 1]));
        assert(a[n].raygen_index == stage_state(a[n], SbtStage::RayGen));
        assert(b[n].raygen_index == stage_state(b[n], SbtStage::RayGen));
        assert(a[n].miss_index == stage_state(a[n], SbtStage::Miss));
        assert(b[n].miss_index == stage_state(b[n], SbtStage::Miss));
        assert(a[n].callable_index == stage_state(a[n], SbtStage::Callable));
        assert(b[n].callable_index == stage_state(b[n], SbtStage::Callable));
        assert(a[n].hitgroup_index == stage_state(a[n], SbtStage::HitGroup));
        assert(b[n].hitgroup_index == stage_state(b[n], SbtStage::HitGroup));
    }
}

/// Entry after entry is added to a table, `entries[i]` being the stage of the
/// one that leads from `tables[i]` to `tables[i + 1]`.
pub open spec fn is_recording(tables: Seq<ShaderBindingTable>, entries: Seq<SbtStage>) -> bool {
    &&& tables.len() == entries.len() + 1
    &&& forall|i: int|
        0 <= i < entries.len() ==> takes_entry(tables[i], #[trigger] entries[i]) && stages_after(
            tables[i],
            entries[i],
            tables[i + 1],
        )
}

/// How many of the entries belong to a stage.
pub open spec fn entry_count(entries: Seq<SbtStage>, stage: SbtStage) -> nat
    decreases entries.len(),
{
    if entries.len() == 0 {
        0
    } else {
        entry_count(entries.drop_last(), stage) + if entries.last() == stage {
            1nat
        } else {
            0nat
        }
    }
}

proof fn lemma_counted(
    tables: Seq<ShaderBindingTable>,
    entries: Seq<SbtStage>,
    i: int,
    stage: SbtStage,
)
    requires
        is_recording(tables, entries),
        tables[0].is_fresh(),
        0 <= i <= entries.len(),
    ensures
        stage_state(tables[i], stage).index_of() == entry_count(entries.take(i), stage),
    decreases i,
{
    if i > 0 {
        lemma_counted(tables, entries, i - 1, stage);
        assert(entries.take(i).drop_last() =~= entries.take(i - 1));
        assert(takes_entry(tables[i - 1], entries[i - 1]));
        assert(stage_state(tables[i], stage) == stage_state(tables[i - 1 + 1], stage));
    }
}

/// The index that an entry of a new table is given counts the entries of its
/// stage before it, whatever other stages have been recorded.
pub proof fn law_indices_count_the_entries(
    tables: Seq<ShaderBindingTable>,
    entries: Seq<SbtStage>,
    i: int,
)
    requires
        is_recording(tables, entries),
        tables[0].is_fresh(),
        0 <= i < entries.len(),
    ensures
        stage_state(tables[i], entries[i]).index_of() == entry_count(entries.take(i), entries[i]),
{
    lemma_counted(tables, entries, i, entries[i]);
}

/// Once an entry of another stage has followed, a stage takes no more entries:
/// stage `entries[i]` was begun, `entries[j]` is another, and from then on there
/// is no entry of the first. A stage that takes no entry is one to which none can
/// be added.
pub proof fn law_closed_stages_take_no_more_entries(
    tables: Seq<ShaderBindingTable>,
    entries: Seq<SbtStage>,
    i: int,
    j: int,
    k: int,
)
    requires
        is_recording(tables, entries),
        0 <= i < j < k <= entries.len(),
        entries[j] != entries[i],
    ensures
        stage_state(tables[k], entries[i]) is Recorded,
        !takes_entry(tables[k], entries[i]),
        k < entries.len() ==> entries[k] != entries[i],
    decreases k,
{
    let stage = entries[i];
    assert(takes_entry(tables[k - 1], entries[k - 1]));
    if k == j + 1 {
        lemma_begun(tables, entries, i, j);
    } else {
        law_closed_stages_take_no_more_entries(tables, entries, i, j, k - 1);
    }
    assert(stage_state(tables[k], stage) == stage_state(tables[k - 1 + 1], stage));
    if k < entries.len() {
        assert(takes_entry(tables[k], entries[k]));
    }
}

proof fn lemma_begun(tables: Seq<ShaderBindingTable>, entries: Seq<SbtStage>, i: int, j: int)
    requires
        is_recording(tables, entries),
        0 <= i < j <= entries.len(),
    ensures
        !(stage_state(tables[j], entries[i]) is NotSet),
    decreases j,
{
    assert(takes_entry(tables[j - 1], entries[j - 1]));
    if j > i + 1 {
        lemma_begun(tables, entries, i, j - 1);
    }
    assert(stage_state(tables[j], entries[i]) == stage_state(tables[j - 1 + 1], entries[i]));
}

impl ShaderBindingTable {
    /// Whether a stage takes one more entry.
    pub fn takes_more(&self, stage: SbtStage) -> (r: bool)
        ensures
            r == takes_entry(*self, stage),
    {
        let state = match stage {
            SbtStage::RayGen => &self.raygen_index,
            SbtStage::Miss => &self.miss_index,
            SbtStage::Callable => &self.callable_index,
            SbtStage::HitGroup => &self.hitgroup_index,
        };
        match state {
            ShaderBindingTableState::Recorded { .. } => false,
            _ => state.index() < u32::MAX,
        }
    }

    /// The table can take one more entry of the given size.
    pub open spec fn room_for(&self, stride: int) -> bool {
        align::round_up(self.buffer@.len() as int, self.layout.base_aligment as int) + stride
            <= usize::MAX
    }

    /// Adds a ray generation entry.
    /// Returns the index of the entry within its stage.
    pub fn push_raygen(&mut self, shader_id: u32, inline_data: &[u8]) -> (r: u32)
        requires
            old(self).wf(),
            shader_id < old(self).handles.num_raygen,
            inline_data@.len() == old(self).layout.raygen.param_size,
            takes_entry(*old(self), SbtStage::RayGen),
            old(self).room_for(old(self).layout.raygen_stride()),
        ensures
            final(self).wf(),
            r == old(self).raygen_index.index_of(),
            pushed(
                *old(self),
                (SbtEntry { stage: SbtStage::RayGen, id: shader_id, inline_data: inline_data@ }),
                *final(self),
            ),
    {
        proof {
            align::lemma_round_up(
                self.buffer@.len() as int,
                self.layout.base_aligment as int,
            );
            lemma_strides(self.layout);
        }
        self.hitgroup_index.end(&mut self.buffer, self.layout.base_aligment);
        self.miss_index.end(&mut self.buffer, self.layout.base_aligment);
        self.callable_index.end(&mut self.buffer, self.layout.base_aligment);
        let base_offset: u64 = self.buffer.len() as u64;
        let ghost start = self.buffer@;
        let shader: u32 = shader_id;
        let entry_layout = self.layout.raygen_layout();
        push_entry(
            &mut self.buffer,
            self.handles.rgen(shader),
            inline_data,
            entry_layout,
        );
        proof {
            lemma_stage_grown(
                self.raygen_index,
                self.layout.raygen_stride(),
                self.layout.base_aligment,
                start.len() as int,
            );
        }
        self.raygen_index.increment(base_offset)
    }

    /// Adds a miss entry.
    /// Returns the index of the entry within its stage.
    pub fn push_miss(&mut self, shader_id: u32, inline_data: &[u8]) -> (r: u32)
        requires
            old(self).wf(),
            shader_id < old(self).handles.num_miss,
            inline_data@.len() == old(self).layout.miss.param_size,
            takes_entry(*old(self), SbtStage::Miss),
            old(self).room_for(old(self).layout.miss_stride()),
        ensures
            final(self).wf(),
            r == old(self).miss_index.index_of(),
            pushed(
                *old(self),
                (SbtEntry { stage: SbtStage::Miss, id: shader_id, inline_data: inline_data@ }),
                *final(self),
            ),
    {
        proof {
            align::lemma_round_up(
                self.buffer@.len() as int,
                self.layout.base_aligment as int,
            );
            lemma_strides(self.layout);
        }
        self.raygen_index.end(&mut self.buffer, self.layout.base_aligment);
        self.hitgroup_index.end(&mut self.buffer, self.layout.base_aligment);
        self.callable_index.end(&mut self.buffer, self.layout.base_aligment);
        let base_offset: u64 = self.buffer.len() as u64;
        let ghost start = self.buffer@;
        let shader: u32 = shader_id;
        let entry_layout = self.layout.miss_layout();
        push_entry(
            &mut self.buffer,
            self.handles.rmiss(shader),
            inline_data,
            entry_layout,
        );
        proof {
            lemma_stage_grown(
                self.miss_index,
                self.layout.miss_stride(),
                self.layout.base_aligment,
                start.len() as int,
            );
        }
        self.miss_index.increment(base_offset)
    }

    /// Adds a callable entry.
    /// Returns the index of the entry within its stage.
    pub fn push_callable(&mut self, shader_id: u32, inline_data: &[u8]) -> (r: u32)
        requires
            old(self).wf(),
            shader_id < old(self).handles.num_callable,
            inline_data@.len() == old(self).layout.callable.param_size,
            takes_entry(*old(self), SbtStage::Callable),
            old(self).room_for(old(self).layout.callable_stride()),
        ensures
            final(self).wf(),
            r == old(self).callable_index.index_of(),
            pushed(
                *old(self),
                (SbtEntry { stage: SbtStage::Callable, id: shader_id, inline_data: inline_data@ }),
                *final(self),
            ),
    {
        proof {
            align::lemma_round_up(
                self.buffer@.len() as int,
                self.layout.base_aligment as int,
            );
            lemma_strides(self.layout);
        }
        self.raygen_index.end(&mut self.buffer, self.layout.base_aligment);
        self.miss_index.end(&mut self.buffer, self.layout.base_aligment);
        self.hitgroup_index.end(&mut self.buffer, self.layout.base_aligment);
        let base_offset: u64 = self.buffer.len() as u64;
        let ghost start = self.buffer@;
        let shader: u32 = shader_id;
        let entry_layout = self.layout.callable_layout();
        push_entry(
            &mut self.buffer,
            self.handles.callable(shader),
            inline_data,
            entry_layout,
        );
        proof {
            lemma_stage_grown(
                self.callable_index,
                self.layout.callable_stride(),
                self.layout.base_aligment,
                start.len() as int,
            );
        }
        self.callable_index.increment(base_offset)
    }

    /// Adds a hit group entry. Ids count the hit groups that the mapper
    /// leaves out, too.
    /// Returns the index of the entry within its stage.
    pub fn push_hitgroup(&mut self, hitgroup_id: u32, inline_data: &[u8]) -> (r: u32)
        requires
            old(self).wf(),
            hitgroup_id < 64,
            mapped_id(old(self).hitgroup_id_mapper, hitgroup_id as nat) < old(
                self,
            ).handles.num_hitgroup,
            inline_data@.len() == old(self).layout.hitgroup.param_size,
            takes_entry(*old(self), SbtStage::HitGroup),
            old(self).room_for(old(self).layout.hitgroup_stride()),
        ensures
            final(self).wf(),
            r == old(self).hitgroup_index.index_of(),
            pushed(
                *old(self),
                (SbtEntry { stage: SbtStage::HitGroup, id: hitgroup_id, inline_data: inline_data@ }),
                *final(self),
            ),
    {
        proof {
            align::lemma_round_up(
                self.buffer@.len() as int,
                self.layout.base_aligment as int,
            );
            lemma_strides(self.layout);
        }
        self.raygen_index.end(&mut self.buffer, self.layout.base_aligment);
        self.miss_index.end(&mut self.buffer, self.layout.base_aligment);
        self.callable_index.end(&mut self.buffer, self.layout.base_aligment);
        let base_offset: u64 = self.buffer.len() as u64;
        let ghost start = self.buffer@;
        let shader: u32 = map_id(self.hitgroup_id_mapper, hitgroup_id);
        let entry_layout = self.layout.hitgroup_layout();
        push_entry(
            &mut self.buffer,
            self.handles.hitgroup(shader),
            inline_data,
            entry_layout,
        );
        proof {
            lemma_stage_grown(
                self.hitgroup_index,
                self.layout.hitgroup_stride(),
                self.layout.base_aligment,
                start.len() as int,
            );
        }
        self.hitgroup_index.increment(base_offset)
    }
}

// ---------------------------------------------------------------------------
// Tracing rays
// ---------------------------------------------------------------------------

/// A range of entries, by its address.
#[derive(Debug, Clone, Copy, PartialEq, Eq, Structural)]
pub struct StridedRegion {
    pub device_address: u64,
    pub stride: u64,
    pub size: u64,
}

/// The ranges that a dispatch of rays reads.
#[derive(Debug, Clone, Copy, PartialEq, Eq, Structural)]
pub struct TraceRegions {
    pub raygen: StridedRegion,
    pub miss: StridedRegion,
    pub hitgroup: StridedRegion,
    pub callable: StridedRegion,
}

/// The whole of a stage.
pub open spec fn stage_region(
    s: ShaderBindingTableState,
    stride: int,
    address: u64,
) -> StridedRegion {
    StridedRegion {
        device_address: (address + s.base_of()) as u64,
        stride: stride as u64,
        size: (s.index_of() * stride) as u64,
    }
}

/// One entry of a stage.
pub open spec fn entry_region(
    s: ShaderBindingTableState,
    stride: int,
    address: u64,
    index: u32,
) -> StridedRegion {
    StridedRegion {
        device_address: (address + s.base_of() + stride * index) as u64,
        stride: stride as u64,
        size: stride as u64,
    }
}

/// The stage can be described by 32-bit sizes and 64-bit addresses.
pub open spec fn addressable(s: ShaderBindingTableState, stride: int, address: u64) -> bool {
    s.index_of() * stride <= u32::MAX && address + s.base_of() <= u64::MAX
}

fn region(s: &ShaderBindingTableState, stride: u32, address: u64) -> (r: StridedRegion)
    requires
        addressable(*s, stride as int, address),
    ensures
        r == stage_region(*s, stride as int, address),
{
    let count: u32 = s.index();
    proof {
        assert(0 <= count * stride) by (nonlinear_arith)
            requires
                0 <= count,
                0 <= stride,
        ;
    }
    StridedRegion {
        device_address: address + s.base_offset(),
        stride: stride as u64,
        size: (count * stride) as u64,
    }
}

fn padded_size(layout: EntryLayout) -> (r: u32)
    requires
        layout.align > 0,
        align::round_up(layout.size as int, layout.align as int) <= u32::MAX,
    ensures
        r == align::round_up(layout.size as int, layout.align as int),
{
    align::next_multiple_of_usize(layout.size, layout.align) as u32
}

impl ShaderBindingTable {
    /// The ranges for a dispatch with the given ray generation entry, where
    /// the table has been uploaded to `address`.
    pub fn trace_regions(&self, raygen_shader: u32, address: u64) -> (r: TraceRegions)
        requires
            self.wf(),
            dispatchable(*self, raygen_shader, address),
        ensures
            r == dispatch_regions(*self, raygen_shader, address),
    {
        proof {
            lemma_strides(self.layout);
        }
        let raygen_stride: u32 = padded_size(self.layout.raygen_layout());
        let miss_stride: u32 = padded_size(self.layout.miss_layout());
        let hitgroup_stride: u32 = padded_size(self.layout.hitgroup_layout());
        let callable_stride: u32 = padded_size(self.layout.callable_layout());
        proof {
            assert(0 <= raygen_stride * raygen_shader) by (nonlinear_arith)
                requires
                    0 <= raygen_stride,
                    0 <= raygen_shader,
            ;
        }
        TraceRegions {
            raygen: StridedRegion {
                device_address: address + self.raygen_index.base_offset() + (raygen_stride
                    * raygen_shader) as u64,
                stride: raygen_stride as u64,
                size: raygen_stride as u64,
            },
            miss: region(&self.miss_index, miss_stride, address),
            hitgroup: region(&self.hitgroup_index, hitgroup_stride, address),
            callable: region(&self.callable_index, callable_stride, address),
        }
    }
}

/// The ranges of a dispatch can be described.
pub open spec fn dispatchable(t: ShaderBindingTable, raygen_shader: u32, address: u64) -> bool {
    &&& t.layout.raygen_stride() * raygen_shader <= u32::MAX
    &&& address + t.raygen_index.base_of() + t.layout.raygen_stride() * raygen_shader <= u64::MAX
    &&& addressable(t.miss_index, t.layout.miss_stride(), address)
    &&& addressable(t.hitgroup_index, t.layout.hitgroup_stride(), address)
    &&& addressable(t.callable_index, t.layout.callable_stride(), address)
}

/// The ranges of a dispatch.
pub open spec fn dispatch_regions(
    t: ShaderBindingTable,
    raygen_shader: u32,
    address: u64,
) -> TraceRegions {
    TraceRegions {
        raygen: entry_region(t.raygen_index, t.layout.raygen_stride(), address, raygen_shader),
        miss: stage_region(t.miss_index, t.layout.miss_stride(), address),
        hitgroup: stage_region(t.hitgroup_index, t.layout.hitgroup_stride(), address),
        callable: stage_region(t.callable_index, t.layout.callable_stride(), address),
    }
}

/// A dispatch of rays reads each stage from where it begins to behind its last
/// entry, entry by entry. Of ray generation it reads the one entry that is asked
/// for.
pub proof fn law_dispatches_read_whole_stages(
    t: ShaderBindingTable,
    raygen_shader: u32,
    address: u64,
)
    requires
        t.wf(),
        dispatchable(t, raygen_shader, address),
    ensures
        ({
            let r = dispatch_regions(t, raygen_shader, address);
            &&& r.raygen.device_address == address + t.raygen_index.base_of()
                + t.layout.raygen_stride() * raygen_shader
            &&& r.raygen.stride == t.layout.raygen_stride()
            &&& r.raygen.size == t.layout.raygen_stride()
            &&& r.miss.device_address == address + t.miss_index.base_of()
            &&& r.miss.stride == t.layout.miss_stride()
            &&& r.miss.size == t.miss_index.index_of() * t.layout.miss_stride()
            &&& r.hitgroup.device_address == address + t.hitgroup_index.base_of()
            &&& r.hitgroup.stride == t.layout.hitgroup_stride()
            &&& r.hitgroup.size == t.hitgroup_index.index_of() * t.layout.hitgroup_stride()
            &&& r.callable.device_address == address + t.callable_index.base_of()
            &&& r.callable.stride == t.layout.callable_stride()
            &&& r.callable.size == t.callable_index.index_of() * t.layout.callable_stride()
        }),
{
    lemma_strides(t.layout);
    lemma_product(t.miss_index.index_of() as int, t.layout.miss_stride());
    lemma_product(t.hitgroup_index.index_of() as int, t.layout.hitgroup_stride());
    lemma_product(t.callable_index.index_of() as int, t.layout.callable_stride());
    lemma_product(t.layout.raygen_stride(), raygen_shader as int);
}

proof fn lemma_product(a: int, b: int)
    requires
        0 <= a,
        0 <= b,
    ensures
        0 <= a * b,
{
    assert(0 <= a * b) by (nonlinear_arith)
        requires
            0 <= a,
            0 <= b,
    ;
}

impl CommandEncoder {
    /// Traces rays in a box of the given size. The table has been uploaded to
    /// `address`.
    pub fn trace_rays(
        &mut self,
        shader_binding_table: &ShaderBindingTable,
        raygen_shader: u32,
        address: u64,
        x: u32,
        y: u32,
        z: u32,
    )
        requires
            shader_binding_table.wf(),
            dispatchable(*shader_binding_table, raygen_shader, address),
        ensures
            final(self).commands@ == old(self).commands@.push(
                Command::TraceRays {
                    regions: dispatch_regions(*shader_binding_table, raygen_shader, address),
                    x,
                    y,
                    z,
                },
            ),
            final(self).state == old(self).state,
            final(self).features == old(self).features,
    {
        let regions = shader_binding_table.trace_regions(raygen_shader, address);
        self.commands.push(Command::TraceRays { regions, x, y, z });
    }
}

proof fn lemma_stage_fits(s: ShaderBindingTableState, stride: int, align: u32, len: int)
    requires
        stage_wf(s, stride, align, len),
        0 <= len,
        align > 0,
    ensures
        s.base_of() + s.index_of() * stride <= len,
        s.base_of() as int % align as int == 0,
{
    if s is NotSet {
        assert(0 * stride == 0) by (nonlinear_arith);
        vstd::arithmetic::div_mod::lemma_small_mod(0, align as nat);
    }
}

/// Every range that a dispatch reads lies within the uploaded table, and each
/// stage begins at a multiple of the base alignment.
pub proof fn law_regions_lie_in_the_table(t: ShaderBindingTable, raygen_shader: u32)
    requires
        t.wf(),
        raygen_shader < t.raygen_index.index_of(),
    ensures
        t.raygen_index.base_of() + t.layout.raygen_stride() * (raygen_shader + 1)
            <= t.buffer@.len(),
        t.miss_index.base_of() + t.miss_index.index_of() * t.layout.miss_stride()
            <= t.buffer@.len(),
        t.hitgroup_index.base_of() + t.hitgroup_index.index_of() * t.layout.hitgroup_stride()
            <= t.buffer@.len(),
        t.callable_index.base_of() + t.callable_index.index_of() * t.layout.callable_stride()
            <= t.buffer@.len(),
        t.raygen_index.base_of() as int % t.layout.base_aligment as int == 0,
        t.miss_index.base_of() as int % t.layout.base_aligment as int == 0,
        t.hitgroup_index.base_of() as int % t.layout.base_aligment as int == 0,
        t.callable_index.base_of() as int % t.layout.base_aligment as int == 0,
{
    lemma_strides(t.layout);
    let stride = t.layout.raygen_stride();
    let count = t.raygen_index.index_of() as int;
    let n = raygen_shader + 1;
    lemma_stage_fits(t.miss_index, t.layout.miss_stride(), t.layout.base_aligment, t.buffer@.len() as int);
    lemma_stage_fits(
        t.hitgroup_index,
        t.layout.hitgroup_stride(),
        t.layout.base_aligment,
        t.buffer@.len() as int,
    );
    lemma_stage_fits(
        t.callable_index,
        t.layout.callable_stride(),
        t.layout.base_aligment,
        t.buffer@.len() as int,
    );
    assert(stride * n <= count * stride) by (nonlinear_arith)
        requires
            n <= count,
            0 <= stride,
    ;
}

/// An entry, once recorded, is never changed: later entries only follow it.
pub proof fn law_recorded_bytes_stay(before: ShaderBindingTable, s: ShaderBindingTableState)
    requires
        before.wf(),
    ensures
        before.buffer@.len() <= opened(before, s).len(),
        opened(before, s).take(before.buffer@.len() as int) == before.buffer@,
{
    align::lemma_round_up(before.buffer@.len() as int, before.layout.base_aligment as int);
    assert(opened(before, s).take(before.buffer@.len() as int) =~= before.buffer@);
}

// ---------------------------------------------------------------------------
// Pipelines
// ---------------------------------------------------------------------------

/// Description of a ray tracing pipeline besides its shaders and groups.
pub struct RayTracingPipelineInfo {
    pub flags: u32,
    pub max_ray_recursion_depth: u32,
    pub layout: u64,
    pub stages: Vec<ShaderEntry>,
    pub groups: Vec<ShaderGroup>,
    /// Largest payload and largest hit attributes, where libraries take part.
    pub library_interface: Option<(u32, u32)>,
    pub libraries: Vec<u64>,
    pub dynamic_states: Vec<i32>,
}

/// A shader of a pipeline: its module, the name of its entry point and its
/// specialization are handles.
#[derive(Debug, Clone, Copy, PartialEq, Eq, Structural)]
pub struct ShaderEntry {
    pub flags: u32,
    pub stage: u32,
    pub module: u64,
    pub entry: u64,
    pub specialization_info: u64,
}

/// The states that are set while recording.
pub open spec fn stack_states(dynamic_stack_size: bool) -> Seq<i32> {
    if dynamic_stack_size {
        seq![vk::DYNAMIC_STATE_RAY_TRACING_PIPELINE_STACK_SIZE_KHR]
    } else {
        Seq::empty()
    }
}

/// The size of the stack is set while recording exactly where it is asked for,
/// and nothing else is.
pub proof fn law_stack_sizes_are_set_where_asked(dynamic_stack_size: bool, state: i32)
    ensures
        stack_states(dynamic_stack_size).contains(state) <==> dynamic_stack_size && state
            == vk::DYNAMIC_STATE_RAY_TRACING_PIPELINE_STACK_SIZE_KHR,
        stack_states(dynamic_stack_size).len() <= 1,
{
    if dynamic_stack_size {
        assert(stack_states(dynamic_stack_size)[0]
            == vk::DYNAMIC_STATE_RAY_TRACING_PIPELINE_STACK_SIZE_KHR);
    }
}

fn stack_state_list(dynamic_stack_size: bool) -> (r: Vec<i32>)
    ensures
        r@ == stack_states(dynamic_stack_size),
{
    let mut out: Vec<i32> = Vec::new();
    if dynamic_stack_size {
        out.push(vk::DYNAMIC_STATE_RAY_TRACING_PIPELINE_STACK_SIZE_KHR);
    }
    assert(out@ =~= stack_states(dynamic_stack_size));
    out
}

/// A pipeline library, by its layout and its handle.
#[derive(Debug, Clone, Copy, PartialEq, Eq, Structural)]
pub struct PipelineLibrary {
    pub layout: u64,
    pub handle: u64,
}

/// Describes the pipeline that links the libraries, of which at least one is
/// needed. It has the layout of the first.
pub fn create_ray_tracing_pipeline(
    libraries: &Vec<PipelineLibrary>,
    max_ray_recursion_depth: u32,
    max_ray_payload_size: u32,
    max_hit_attribute_size: u32,
    dynamic_stack_size: bool,
) -> (r: RayTracingPipelineInfo)
    requires
        libraries@.len() > 0,
    ensures
        r.flags == 0,
        r.max_ray_recursion_depth == max_ray_recursion_depth,
        r.layout == libraries@[0].layout,
        r.stages@.len() == 0,
        r.groups@.len() == 0,
        r.library_interface == Some((max_ray_payload_size, max_hit_attribute_size)),
        r.libraries@ == libraries@.map_values(|l: PipelineLibrary| l.handle),
        r.dynamic_states@ == stack_states(dynamic_stack_size),
{
    let mut handles: Vec<u64> = Vec::new();
    let mut i: usize = 0;
    while i < libraries.len()
        invariant
            i <= libraries@.len(),
            handles@ == libraries@.take(i as int).map_values(|l: PipelineLibrary| l.handle),
        decreases libraries@.len() - i,
    {
        handles.push(libraries[i].handle);
        i += 1;
        assert(handles@ =~= libraries@.take(i as int).map_values(|l: PipelineLibrary| l.handle));
    }
    assert(libraries@.take(i as int) =~= libraries@);
    RayTracingPipelineInfo {
        flags: 0,
        max_ray_recursion_depth,
        layout: libraries[0].layout,
        stages: Vec::new(),
        groups: Vec::new(),
        library_interface: Some((max_ray_payload_size, max_hit_attribute_size)),
        libraries: handles,
        dynamic_states: stack_state_list(dynamic_stack_size),
    }
}

/// What a pipeline or a library is created from.
pub struct RayTracingPipelineLibraryCreateInfo {
    pub flags: u32,
    pub layout: u64,
    pub max_ray_recursion_depth: u32,
    pub max_ray_payload_size: u32,
    pub max_hit_attribute_size: u32,
    pub dynamic_stack_size: bool,
    pub shaders: Vec<ShaderEntry>,
    pub groups: Vec<ShaderGroup>,
}

fn copy_shaders(shaders: &Vec<ShaderEntry>) -> (r: Vec<ShaderEntry>)
    ensures
        r@ == shaders@,
{
    let mut out: Vec<ShaderEntry> = Vec::new();
    while out.len() < shaders.len()
        invariant
            out@.len() <= shaders@.len(),
            out@ == shaders@.take(out@.len() as int),
        decreases shaders@.len() - out@.len(),
    {
        out.push(shaders[out.len()]);
        assert(out@ =~= shaders@.take(out@.len() as int));
    }
    assert(out@ =~= shaders@);
    out
}

pub(crate) fn copy_groups(groups: &Vec<ShaderGroup>) -> (r: Vec<ShaderGroup>)
    ensures
        r@ == groups@,
{
    let mut out: Vec<ShaderGroup> = Vec::new();
    while out.len() < groups.len()
        invariant
            out@.len() <= groups@.len(),
            out@ == groups@.take(out@.len() as int),
        decreases groups@.len() - out@.len(),
    {
        out.push(groups[out.len()]);
        assert(out@ =~= groups@.take(out@.len() as int));
    }
    assert(out@ =~= groups@);
    out
}

/// Describes a pipeline that takes no part in linking.
pub fn create_ray_tracing_pipeline_monolithic(c: &RayTracingPipelineLibraryCreateInfo) -> (r:
    RayTracingPipelineInfo)
    ensures
        r.flags == c.flags,
        r.max_ray_recursion_depth == c.max_ray_recursion_depth,
        r.layout == c.layout,
        r.stages@ == c.shaders@,
        r.groups@ == c.groups@,
        r.library_interface is None,
        r.libraries@.len() == 0,
        r.dynamic_states@ == stack_states(c.dynamic_stack_size),
{
    RayTracingPipelineInfo {
        flags: c.flags,
        max_ray_recursion_depth: c.max_ray_recursion_depth,
        layout: c.layout,
        stages: copy_shaders(&c.shaders),
        groups: copy_groups(&c.groups),
        library_interface: None,
        libraries: Vec::new(),
        dynamic_states: stack_state_list(c.dynamic_stack_size),
    }
}

/// Describes a library that can be linked with others.
pub fn create_ray_tracing_pipeline_library(c: &RayTracingPipelineLibraryCreateInfo) -> (r:
    RayTracingPipelineInfo)
    ensures
        r.flags == c.flags,
        r.max_ray_recursion_depth == c.max_ray_recursion_depth,
        r.layout == c.layout,
        r.stages@ == c.shaders@,
        r.groups@ == c.groups@,
        r.library_interface == Some((c.max_ray_payload_size, c.max_hit_attribute_size)),
        r.libraries@.len() == 0,
        r.dynamic_states@ == stack_states(c.dynamic_stack_size),
{
    RayTracingPipelineInfo {
        flags: c.flags,
        max_ray_recursion_depth: c.max_ray_recursion_depth,
        layout: c.layout,
        stages: copy_shaders(&c.shaders),
        groups: copy_groups(&c.groups),
        library_interface: Some((c.max_ray_payload_size, c.max_hit_attribute_size)),
        libraries: Vec::new(),
        dynamic_states: stack_state_list(c.dynamic_stack_size),
    }
}

/// Usage and name of the buffer that holds an acceleration structure of type
/// `ty`.
pub fn accel_struct_buffer(ty: i32) -> (r: (u32, &'static str))
    ensures
        r.0 == vk::BUFFER_USAGE_ACCELERATION_STRUCTURE_STORAGE_KHR
            | vk::BUFFER_USAGE_SHADER_DEVICE_ADDRESS,
        r.1@ == (if ty == vk::ACCELERATION_STRUCTURE_TYPE_BOTTOM_LEVEL {
            "BLAS backing buffer"@
        } else {
            "TLAS backing buffer"@
        }),
{
    let usage: u32 = vk::BUFFER_USAGE_ACCELERATION_STRUCTURE_STORAGE_KHR
        | vk::BUFFER_USAGE_SHADER_DEVICE_ADDRESS;
    if ty == vk::ACCELERATION_STRUCTURE_TYPE_BOTTOM_LEVEL {
        (usage, "BLAS backing buffer")
    } else {
        (usage, "TLAS backing buffer")
    }
}

/// An acceleration structure on a buffer: its handle, the flags it is built
/// with, and where shaders find it.
#[derive(Debug, Clone, Copy, PartialEq, Eq, Structural)]
pub struct AccelStruct {
    pub buffer: BufferRegion,
    pub raw: u64,
    pub flags: u32,
    pub device_address: u64,
}

/// What an acceleration structure is created from.
#[derive(Debug, Clone, Copy, PartialEq, Eq, Structural)]
pub struct AccelStructInfo {
    pub ty: i32,
    pub size: u64,
    pub offset: u64,
    pub buffer: u64,
}

impl AccelStructInfo {
    /// A structure of type `ty` that fills a buffer.
    pub fn on_buffer(buffer: BufferRegion, ty: i32) -> (r: Self)
        ensures
            r == (AccelStructInfo {
                ty,
                size: buffer.size,
                offset: buffer.offset,
                buffer: buffer.buffer,
            }),
    {
        AccelStructInfo { ty, size: buffer.size, offset: buffer.offset, buffer: buffer.buffer }
    }
}

impl AccelStruct {
    /// The structure that the device has created on a buffer.
    pub fn create_on_buffer(
        buffer: BufferRegion,
        raw: u64,
        device_address: u64,
        build_flags: u32,
    ) -> (r: Self)
        ensures
            r == (AccelStruct { buffer, raw, flags: build_flags, device_address }),
    {
        AccelStruct { buffer, raw, flags: build_flags, device_address }
    }

    /// The flags that the structure is built with.
    pub fn flags(&self) -> (r: u32)
        ensures
            r == self.flags,
    {
        self.flags
    }

    /// Where shaders and instances find the structure.
    pub fn device_address(&self) -> (r: u64)
        ensures
            r == self.device_address,
    {
        self.device_address
    }

    /// The size of the buffer that holds the structure.
    pub fn size(&self) -> (r: u64)
        ensures
            r == self.buffer.size,
    {
        self.buffer.size
    }
}

} // verus!
