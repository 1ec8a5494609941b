//! Recording of the systems of a submission set into one command buffer.

use crate::command::Command;
use crate::command::CommandEncoder;
use crate::command::CommandEncoderRenderPassState;
use crate::command::EncoderFeatures;
use crate::command::RenderPass;
use crate::names;
use crate::names::NameMap;
use crate::pass;
use crate::pass::split_pipe_system_name;
use crate::plugin;
use crate::text;
use vstd::prelude::*;
use vstd::string::*;
use vstd::utf8::*;

verus! {

// ---------------------------------------------------------------------------
// Ring buffer
// ---------------------------------------------------------------------------

/// A queue of at most `N` items.
pub struct RingBuffer<T, const N: usize> {
    items: Vec<Option<T>>,
    start: usize,
    len: usize,
}

impl<T, const N: usize> View for RingBuffer<T, N> {
    type V = Seq<T>;

    /// The items, the oldest first.
    closed spec fn view(&self) -> Seq<T> {
        Seq::new(self.len as nat, |i: int| self.items@[self.place(i)]->0)
    }
}

impl<T, const N: usize> RingBuffer<T, N> {
    /// The place of item `i`.
    closed spec fn place(&self, i: int) -> int {
        if self.start + i < N {
            self.start + i
        } else {
            self.start + i - N
        }
    }

    /// Only the oldest item is another in `after`.
    spec fn changed(&self, after: Self, x: T) -> bool {
        &&& after.start == self.start
        &&& after.len == self.len
        &&& after.items@ == self.items@.update(self.start as int, Some(x))
    }

    /// The items lie in `N` slots, one after the other, going on at the first
    /// slot after the last.
    pub closed spec fn wf(&self) -> bool {
        &&& self.items@.len() == N
        &&& self.start < N || (self.start == 0 && N == 0)
        &&& self.len <= N
        &&& forall|i: int|
            0 <= i < self.len ==> self.items@[#[trigger] self.place(i)] is Some
    }

    /// A queue without items.
    pub fn new() -> (r: Self)
        ensures
            r.wf(),
            r@ == Seq::<T>::empty(),
    {
        let mut items: Vec<Option<T>> = Vec::new();
        while items.len() < N
            invariant
                items@.len() <= N,
            decreases N - items@.len(),
        {
            items.push(None);
        }
        let r = RingBuffer { items, start: 0, len: 0 };
        assert(r@ =~= Seq::<T>::empty());
        r
    }

    /// The number of items.
    pub fn len(&self) -> (r: usize)
        requires
            self.wf(),
        ensures
            r == self@.len(),
    {
        self.len
    }

    /// Appends an item.
    pub fn push(&mut self, item: T)
        requires
            old(self).wf(),
            old(self)@.len() < N,
        ensures
            final(self).wf(),
            final(self)@ == old(self)@.push(item),
    {
        let ghost before = *self;
        let room: usize = N - self.start;
        let location: usize = if self.len < room {
            self.start + self.len
        } else {
            self.len - room
        };
        assert(location == self.place(self.len as int));
        self.items.set(location, Some(item));
        self.len = self.len + 1;
        assert forall|i: int| 0 <= i < self.len implies self.items@[#[trigger] self.place(
            i,
        )] is Some by {
            assert(self.place(i) == before.place(i));
        }
        assert(self@ =~= before@.push(item)) by {
            assert forall|i: int| 0 <= i < self.len implies #[trigger] self@[i] == before@.push(
                item,
            )[i] by {
                assert(self.place(i) == before.place(i));
            }
        }
    }

    /// Takes the oldest item.
    pub fn pop(&mut self) -> (r: T)
        requires
            old(self).wf(),
            old(self)@.len() > 0,
        ensures
            final(self).wf(),
            r == old(self)@[0],
            final(self)@ == old(self)@.skip(1),
    {
        self.try_pop().unwrap()
    }

    /// Takes the oldest item, if there is one.
    pub fn try_pop(&mut self) -> (r: Option<T>)
        requires
            old(self).wf(),
        ensures
            final(self).wf(),
            old(self)@.len() == 0 ==> r is None && final(self)@ == old(self)@,
            old(self)@.len() > 0 ==> r == Some(old(self)@[0]) && final(self)@ == old(self)@.skip(1),
    {
        if self.len == 0 {
            return None;
        }
        let ghost before = *self;
        assert(self.place(0) == self.start);
        let mut item: Option<T> = None;
        self.items.set_and_swap(self.start, &mut item);
        self.len = self.len - 1;
        self.start = self.start + 1;
        if self.start == N {
            self.start = 0;
        }
        assert forall|i: int| 0 <= i < self.len implies self.items@[#[trigger] self.place(
            i,
        )] is Some by {
            assert(self.place(i) == before.place(i + 1));
        }
        assert(self@ =~= before@.skip(1)) by {
            assert forall|i: int| 0 <= i < self.len implies #[trigger] self@[i] == before@.skip(
                1,
            )[i] by {
                assert(self.place(i) == before.place(i + 1));
            }
        }
        item
    }

    /// Takes the oldest item if there is no room for another.
    pub fn pop_if_full(&mut self) -> (r: Option<T>)
        requires
            old(self).wf(),
            N > 0,
        ensures
            final(self).wf(),
            old(self)@.len() == N ==> r == Some(old(self)@[0]) && final(self)@ == old(self)@.skip(
                1,
            ),
            old(self)@.len() != N ==> r is None && final(self)@ == old(self)@,
    {
        if self.is_full() {
            Some(self.pop())
        } else {
            None
        }
    }

    /// Whether there is no room for another item.
    pub fn is_full(&self) -> (r: bool)
        requires
            self.wf(),
        ensures
            r == (self@.len() == N),
    {
        self.len == N
    }

    /// Whether there is no item.
    pub fn is_empty(&self) -> (r: bool)
        requires
            self.wf(),
        ensures
            r == (self@.len() == 0),
    {
        self.len == 0
    }

    /// The oldest item.
    pub fn peek(&self) -> (r: &T)
        requires
            self.wf(),
            self@.len() > 0,
        ensures
            *r == self@[0],
    {
        assert(self.place(0) == self.start);
        match &self.items[self.start] {
            Some(item) => item,
            None => vstd::pervasive::unreached(),
        }
    }

    /// The oldest item, to be changed.
    pub fn peek_mut(&mut self) -> (r: &mut T)
        requires
            old(self).wf(),
            old(self)@.len() > 0,
        ensures
            *r == old(self)@[0],
            final(self).wf(),
            final(self)@ == old(self)@.update(0, *final(r)),
    {
        let ghost before = *self;
        assert(self.place(0) == self.start);
        proof {
            assert forall|after: Self, x: T| #[trigger] before.changed(after, x) implies after.wf()
                && after@ == before@.update(0, x) by {
                assert forall|i: int| 0 <= i < after.len implies after.items@[#[trigger] after.place(
                    i,
                )] is Some by {
                    assert(after.place(i) == before.place(i));
                }
                assert forall|i: int| 0 <= i < after.len implies #[trigger] after@[i]
                    == before@.update(0, x)[i] by {
                    assert(after.place(i) == before.place(i));
                }
                assert(after@ =~= before@.update(0, x));
            }
        }
        let r = match &mut self.items[self.start] {
            Some(item) => item,
            None => vstd::pervasive::unreached(),
        };
        assert(before.changed(after_borrow(*self), *final(r)));
        r
    }
}

/// A queue holds at most `N` items.
pub proof fn law_ring_buffers_are_bounded<T, const N: usize>(buffer: RingBuffer<T, N>)
    requires
        buffer.wf(),
    ensures
        buffer@.len() <= N,
{
}

// ---------------------------------------------------------------------------
// States of submission sets
// ---------------------------------------------------------------------------

/// The submission set that each system records for, by the system's name.
pub struct SubmissionStates {
    system_states: NameMap<usize>,
}

impl View for SubmissionStates {
    type V = Map<Seq<u8>, usize>;

    closed spec fn view(&self) -> Map<Seq<u8>, usize> {
        self.system_states@
    }
}

/// The names under which a system is found: its own, and for a pipe those of
/// its two systems.
pub open spec fn with_system(
    states: Map<Seq<u8>, usize>,
    name: Seq<char>,
    state: usize,
) -> Map<Seq<u8>, usize> {
    let own = states.insert(encode_utf8(name), state);
    match pass::pipe_inner(name) {
        Some(inner) => if exists|comma: int| #[trigger] pass::is_first_top_comma(inner, comma) {
            let comma = choose|comma: int| #[trigger] pass::is_first_top_comma(inner, comma);
            let (first, second) = pass::pipe_parts(inner, comma);
            own.insert(encode_utf8(first), state).insert(encode_utf8(second), state)
        } else {
            own
        },
        None => own,
    }
}

/// A system is found under its name, and no other name is lost. One that is no
/// pipe is found under no further name; the systems of a pipe are found under
/// theirs.
pub proof fn law_systems_are_found_under_their_names(
    states: Map<Seq<u8>, usize>,
    name: Seq<char>,
    state: usize,
    other: Seq<u8>,
)
    ensures
        with_system(states, name, state).contains_key(encode_utf8(name)),
        with_system(states, name, state)[encode_utf8(name)] == state,
        states.contains_key(other) ==> with_system(states, name, state).contains_key(other),
        pass::pipe_inner(name) is None && other != encode_utf8(name) ==> (with_system(
            states,
            name,
            state,
        ).contains_key(other) <==> states.contains_key(other)),
        with_system(states, name, state).contains_key(other) && !states.contains_key(other)
            ==> with_system(states, name, state)[other] == state,
        states.contains_key(other) && with_system(states, name, state)[other] != states[other]
            ==> with_system(states, name, state)[other] == state,
{
}

/// The two systems of a pipe are found with the state of the pipe.
pub proof fn law_systems_of_a_pipe_share_its_state(
    states: Map<Seq<u8>, usize>,
    name: Seq<char>,
    state: usize,
    comma: int,
)
    requires
        pass::pipe_inner(name) is Some,
        pass::is_first_top_comma(pass::pipe_inner(name)->0, comma),
    ensures
        ({
            let (first, second) = pass::pipe_parts(pass::pipe_inner(name)->0, comma);
            let after = with_system(states, name, state);
            &&& after.contains_key(encode_utf8(first)) && after[encode_utf8(first)] == state
            &&& after.contains_key(encode_utf8(second)) && after[encode_utf8(second)] == state
        }),
{
    let inner = pass::pipe_inner(name)->0;
    let chosen = choose|comma: int| #[trigger] pass::is_first_top_comma(inner, comma);
    assert(pass::is_first_top_comma(inner, chosen));
    if chosen < comma {
        assert(!pass::is_top_comma(inner, chosen));
    } else if comma < chosen {
        assert(!pass::is_top_comma(inner, comma));
    }
}

impl SubmissionStates {
    pub closed spec fn wf(&self) -> bool {
        self.system_states.wf()
    }

    /// No system is in a submission set.
    pub fn new() -> (r: Self)
        ensures
            r.wf(),
            r@ == Map::<Seq<u8>, usize>::empty(),
    {
        SubmissionStates { system_states: NameMap::new() }
    }

    /// Notes the state of a system.
    pub fn set_system_state(&mut self, system: &str, state: usize)
        requires
            old(self).wf(),
        ensures
            final(self).wf(),
            final(self)@ == old(self)@.insert(encode_utf8(system@), state),
    {
        self.system_states.insert(names::copy_name(system.as_bytes()), state);
    }

    /// Forgets all systems.
    pub fn clear_system_states(&mut self)
        ensures
            final(self).wf(),
            final(self)@ == Map::<Seq<u8>, usize>::empty(),
    {
        self.system_states = NameMap::new();
    }

    /// Notes the state of a system, and of the two systems of a pipe.
    pub fn register_system_state_names(&mut self, name: &str, state: usize)
        requires
            old(self).wf(),
        ensures
            final(self).wf(),
            final(self)@ == with_system(old(self)@, name@, state),
    {
        self.set_system_state(name, state);
        if let Some((first, second)) = split_pipe_system_name(name) {
            self.set_system_state(first, state);
            self.set_system_state(second, state);
            proof {
                let inner = pass::pipe_inner(name@)->0;
                let a = choose|comma: int| #[trigger]
                    pass::is_first_top_comma(inner, comma) && (first@, second@)
                        == pass::pipe_parts(inner, comma);
                let b = choose|comma: int| #[trigger] pass::is_first_top_comma(inner, comma);
                assert(pass::is_top_comma(inner, a) && pass::is_top_comma(inner, b));
                assert(a == b);
            }
        } else {
            proof {
                if let Some(inner) = pass::pipe_inner(name@) {
                    assert forall|comma: int| !#[trigger] pass::is_first_top_comma(
                        inner,
                        comma,
                    ) by {
                        assert(!pass::is_top_comma(inner, comma));
                    }
                }
            }
        }
    }

    /// The state that a system records for, if it is in a submission set.
    pub fn state_of(&self, name: &str) -> (r: Option<usize>)
        requires
            self.wf(),
        ensures
            r == (if self@.contains_key(encode_utf8(name@)) {
                Some(self@[encode_utf8(name@)])
            } else {
                None
            }),
    {
        match self.system_states.get(name.as_bytes()) {
            Some(state) => Some(*state),
            None => None,
        }
    }
}

/// The label of a render set: the bare name of its type. A name with a NUL
/// cannot be handed to a driver, and gives an empty label.
pub open spec fn label_of(set_name: Seq<char>) -> Seq<char> {
    let name = text::segment_from(set_name, 0, 0);
    if name.contains('\0') {
        Seq::empty()
    } else {
        name
    }
}

/// The command that opens the label of a render set.
pub open spec fn is_label(command: Command, label: Seq<char>) -> bool {
    command matches Command::BeginLabel { name, color } && name@ == label && color@
        == seq![plugin::ONE, plugin::ONE, plugin::HALF, plugin::ONE]
}

/// The label of a render set is the bare name of its type, or nothing where that
/// cannot be handed to a driver.
pub proof fn law_labels_are_bare_names(set_name: Seq<char>)
    ensures
        !label_of(set_name).contains('\0'),
        label_of(set_name).len() == 0 || label_of(set_name) == text::segment_from(set_name, 0, 0),
        !set_name.contains('\0') ==> label_of(set_name) == text::segment_from(set_name, 0, 0),
{
    let name = text::segment_from(set_name, 0, 0);
    text::law_bare_names_hold_no_separator(set_name);
    if name.contains('\0') {
        let i = choose|i: int| 0 <= i < name.len() && name[i] == '\0';
        assert(set_name[set_name.len() - name.len() + i] == '\0');
    }
}

/// The label of a render set.
pub fn render_set_label(set_name: &str) -> (r: String)
    ensures
        r@ == label_of(set_name@),
{
    let name = text::last_segment(set_name);
    if text::contains_char(name, '\0') {
        proof {
            reveal_strlit("");
        }
        assert(""@ =~= Seq::<char>::empty());
        return "".to_owned();
    }
    name.to_owned()
}

/// What the systems of a submission set share: the command buffers that are
/// being executed, at most three, and the one that is being recorded.
pub struct RenderSetSharedState<B> {
    pub pending_command_buffers: RingBuffer<B, 3>,
    pub recording_command_buffer: Option<B>,
    pub encoder: CommandEncoder,
    pub stage_index: u32,
}

impl<B> RenderSetSharedState<B> {
    /// While a buffer is recorded, there is room for it among the pending ones.
    pub open spec fn wf(&self) -> bool {
        &&& self.pending_command_buffers.wf()
        &&& self.recording_command_buffer is Some ==> self.pending_command_buffers@.len() < 3
    }

    /// Nothing is recorded and nothing is pending.
    pub fn new(features: EncoderFeatures) -> (r: Self)
        ensures
            r.wf(),
            r.pending_command_buffers@ == Seq::<B>::empty(),
            r.recording_command_buffer is None,
            r.encoder.state is OutsideRenderPass,
            r.encoder.features == features,
            r.stage_index == 0,
    {
        RenderSetSharedState {
            pending_command_buffers: RingBuffer::new(),
            recording_command_buffer: None,
            encoder: CommandEncoder::new(features),
            stage_index: 0,
        }
    }

    /// The buffer that is used again, once it has been executed; with none, a
    /// new one is made.
    pub fn reuse(&mut self) -> (r: Option<B>)
        requires
            old(self).wf(),
            old(self).recording_command_buffer is None,
        ensures
            final(self).wf(),
            final(self).pending_command_buffers@.len() < 3,
            final(self).stage_index == 0,
            final(self).recording_command_buffer is None,
            final(self).encoder == old(self).encoder,
            old(self).pending_command_buffers@.len() == 3 ==> r == Some(
                old(self).pending_command_buffers@[0],
            ) && final(self).pending_command_buffers@ == old(self).pending_command_buffers@.skip(1),
            old(self).pending_command_buffers@.len() != 3 ==> r is None && final(self).pending_command_buffers@ == old(self).pending_command_buffers@,
    {
        proof {
            law_ring_buffers_are_bounded(self.pending_command_buffers);
        }
        self.stage_index = 0;
        self.pending_command_buffers.pop_if_full()
    }

    /// Starts to record into a buffer.
    pub fn start_recording(&mut self, buffer: B)
        requires
            old(self).wf(),
            old(self).pending_command_buffers@.len() < 3,
        ensures
            final(self).wf(),
            final(self).pending_command_buffers == old(self).pending_command_buffers,
            final(self).recording_command_buffer == Some(buffer),
            final(self).encoder.state is OutsideRenderPass,
            final(self).encoder.commands@.len() == 0,
            final(self).encoder.features == old(self).encoder.features,
            final(self).stage_index == old(self).stage_index,
    {
        self.recording_command_buffer = Some(buffer);
        self.encoder.reset();
    }

    /// Labels the commands of a render set, unless a render pass is open.
    pub fn begin_render_set(&mut self, set_name: &str)
        requires
            old(self).wf(),
        ensures
            final(self).wf(),
            final(self).pending_command_buffers == old(self).pending_command_buffers,
            final(self).recording_command_buffer == old(self).recording_command_buffer,
            final(self).stage_index == old(self).stage_index,
            old(self).encoder.state is InsideRenderPass ==> final(self).encoder
                == old(self).encoder,
            old(self).encoder.state is OutsideRenderPass ==> {
                &&& final(self).encoder.state == old(self).encoder.state
                &&& final(self).encoder.features == old(self).encoder.features
                &&& crate::command::recorded(old(self).encoder.commands@, final(self).encoder.commands@)
                &&& is_label(final(self).encoder.commands@.last(), label_of(set_name@))
            },
    {
        if let CommandEncoderRenderPassState::InsideRenderPass { .. } = self.encoder.state {
            return;
        }
        let label = render_set_label(set_name);
        self.encoder.begin_label(label, plugin::render_set_color());
    }

    /// Closes the render pass that is open, if one is, and the label of the
    /// render set.
    pub fn end_render_set(&mut self)
        requires
            old(self).wf(),
        ensures
            final(self).wf(),
            final(self).pending_command_buffers == old(self).pending_command_buffers,
            final(self).recording_command_buffer == old(self).recording_command_buffer,
            final(self).stage_index == old(self).stage_index,
            final(self).encoder.state is OutsideRenderPass,
            final(self).encoder.features == old(self).encoder.features,
            old(self).encoder.state is InsideRenderPass ==> final(self).encoder.commands@
                == old(self).encoder.commands@.push(Command::EndRendering).push(Command::EndLabel),
            old(self).encoder.state is OutsideRenderPass ==> final(self).encoder.commands@
                == old(self).encoder.commands@.push(Command::EndLabel),
    {
        if let Some(pass) = self.encoder.continue_rendering() {
            pass.end();
        }
        let ghost before = self.encoder.commands@;
        self.encoder.end_label();
        assert(self.encoder.commands@ =~= before.push(Command::EndLabel));
    }

    /// Takes the buffer that was recorded; with none, nothing is submitted.
    pub fn finish_recording(&mut self) -> (r: Option<B>)
        requires
            old(self).wf(),
        ensures
            final(self).wf(),
            r == old(self).recording_command_buffer,
            final(self).recording_command_buffer is None,
            final(self).pending_command_buffers == old(self).pending_command_buffers,
            final(self).encoder.state is OutsideRenderPass,
            final(self).encoder.commands@.len() == 0,
            final(self).encoder.features == old(self).encoder.features,
            final(self).stage_index == old(self).stage_index,
    {
        self.encoder.reset();
        self.recording_command_buffer.take()
    }

    /// Notes that a buffer is being executed.
    pub fn note_submitted(&mut self, buffer: B)
        requires
            old(self).wf(),
            old(self).pending_command_buffers@.len() < 3,
            old(self).recording_command_buffer is None,
        ensures
            final(self).wf(),
            final(self).pending_command_buffers@ == old(self).pending_command_buffers@.push(buffer),
            final(self).recording_command_buffer is None,
            final(self).encoder == old(self).encoder,
            final(self).stage_index == old(self).stage_index,
    {
        self.pending_command_buffers.push(buffer);
    }
}

/// What a system in a submission set records its commands with.
pub struct SubmissionState<'world, B> {
    pub state: &'world mut RenderSetSharedState<B>,
}

impl<'world, B> SubmissionState<'world, B> {
    /// The encoder for commands outside of render passes; none while a render
    /// pass is open.
    pub fn record(&mut self) -> (r: Option<&mut CommandEncoder>)
        ensures
            r is Some <==> old(self).state.encoder.state is OutsideRenderPass,
            r matches Some(e) ==> *e == old(self).state.encoder && *final(self).state == (
            RenderSetSharedState { encoder: *final(e), ..*old(self).state }),
            r is None ==> *final(self).state == *old(self).state,
            *final(final(self).state) == *final(old(self).state),
    {
        match self.state.encoder.state {
            CommandEncoderRenderPassState::InsideRenderPass { .. } => None,
            CommandEncoderRenderPassState::OutsideRenderPass => Some(&mut self.state.encoder),
        }
    }

    /// The render pass that is open; none outside of render passes.
    pub fn render(&mut self) -> (r: Option<RenderPass<'_>>)
        ensures
            r is Some <==> old(self).state.encoder.state is InsideRenderPass,
            r matches Some(pass) ==> *pass.encoder == old(self).state.encoder && *final(self).state
                == (RenderSetSharedState { encoder: *final(pass.encoder), ..*old(self).state }),
            r is None ==> *final(self).state == *old(self).state,
            *final(final(self).state) == *final(old(self).state),
    {
        self.state.encoder.continue_rendering()
    }

    /// Whether a render pass is open.
    pub fn state(&self) -> (r: &CommandEncoderRenderPassState)
        ensures
            *r == old(self.state).encoder.state,
    {
        self.state.encoder.render_pass_state()
    }
}

} // verus!
