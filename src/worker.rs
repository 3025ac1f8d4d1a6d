//! The state owned by the polling worker: what each slot last reported, the
//! effect of each slot, and the tick counter that throttles connection checks.
//!
//! The worker's loop lives with the caller. Each tick it asks
//! [`Worker::should_query`] for every slot, reads the hardware where told to and
//! hands the outcome to [`Worker::apply_read`], forwarding the events returned;
//! then it passes every pending effect command to [`Worker::handle_message`],
//! runs [`Worker::timing_pass`], performs the motor commands returned, and ends
//! with [`Worker::finish_tick`] before sleeping.

use crate::event::{button_delta, button_events_upto, compare_state, events_between, axis_events, Event, RawPad, BUTTON_COUNT};
use crate::ff::{
    apply_command, command_step, slot_ticked, tick_slot, Effect, FfMessage, FfMessageType,
    Rumble,
};
use vstd::prelude::*;

verus! {

/// Number of controller slots.
pub const SLOT_COUNT: usize = 4;

/// A slot known to be disconnected is queried on one tick in this many.
pub const CONNECTION_CHECK_INTERVAL: u64 = 100;

/// The outcome of reading one slot's state from the hardware.
#[derive(Clone, Copy, Debug, PartialEq, Eq, Structural)]
pub enum ReadResult {
    /// A controller answered with this packet number and snapshot.
    Success { packet: u32, pad: RawPad },
    /// The hardware reports that no controller is attached.
    NotConnected,
    /// Any other failure: nothing is learned on this tick.
    Failed,
}

/// What the worker last learned of one slot.
#[derive(Clone, Copy, Debug, PartialEq, Eq, Structural)]
pub struct SlotState {
    pub connected: bool,
    /// Packet number of the stored snapshot.
    pub packet: u32,
    pub pad: RawPad,
}

/// Whether `e` reports a connection change.
pub open spec fn is_link_event(e: Event) -> bool {
    e == Event::Connected || e == Event::Disconnected
}

/// The connection changes among `es`, in order.
pub open spec fn link_events(es: Seq<Event>) -> Seq<Event> {
    es.filter(|e: Event| is_link_event(e))
}

/// The slot after read outcome `r`, and the events owed for it.
pub open spec fn read_step(s: SlotState, r: ReadResult) -> (SlotState, Seq<Event>) {
    match r {
        ReadResult::Success { packet, pad } => {
            let link = if s.connected {
                Seq::<Event>::empty()
            } else {
                seq![Event::Connected]
            };
            if packet != s.packet {
                (SlotState { connected: true, packet, pad }, link + events_between(s.pad, pad))
            } else {
                (SlotState { connected: true, ..s }, link)
            }
        },
        ReadResult::NotConnected => {
            if s.connected {
                (SlotState { connected: false, ..s }, seq![Event::Disconnected])
            } else {
                (s, seq![])
            }
        },
        ReadResult::Failed => (s, seq![]),
    }
}

/// The slot after read outcomes `reads` in turn, and every event owed, in order.
pub open spec fn run_reads(s: SlotState, reads: Seq<ReadResult>) -> (SlotState, Seq<Event>)
    decreases reads.len(),
{
    if reads.len() == 0 {
        (s, seq![])
    } else {
        let (s1, e1) = read_step(s, reads[0]);
        let (s2, e2) = run_reads(s1, reads.drop_first());
        (s2, e1 + e2)
    }
}

impl SlotState {
    /// A slot with the given connection status and a zeroed snapshot.
    pub fn new(connected: bool) -> (s: SlotState)
        ensures
            s == (SlotState { connected, packet: 0, pad: RawPad::spec_zeroed() }),
    {
        SlotState { connected, packet: 0, pad: RawPad::zeroed() }
    }

    /// Takes in read outcome `r`; returns the events it gives rise to.
    pub fn apply_read(&mut self, r: ReadResult) -> (events: Vec<Event>)
        ensures
            (*final(self), events@) == read_step(*old(self), r),
    {
        let mut events: Vec<Event> = Vec::new();
        match r {
            ReadResult::Success { packet, pad } => {
                if !self.connected {
                    self.connected = true;
                    events.push(Event::Connected);
                }
                if packet != self.packet {
                    let mut changes = compare_state(&self.pad, &pad);
                    events.append(&mut changes);
                    self.packet = packet;
                    self.pad = pad;
                }
            },
            ReadResult::NotConnected => {
                if self.connected {
                    self.connected = false;
                    events.push(Event::Disconnected);
                }
            },
            ReadResult::Failed => {},
        }
        proof {
            let expect = read_step(*old(self), r);
            assert(events@ =~= expect.1);
        }
        events
    }
}

/// The motor commands of a timing pass at `now` over the first `n` slots, each
/// with its slot index, in slot order.
pub open spec fn tick_commands(effects: Seq<Option<Effect>>, now: u64, n: nat) -> Seq<
    (usize, Rumble),
>
    decreases n,
{
    if n == 0 {
        seq![]
    } else {
        tick_commands(effects, now, (n - 1) as nat) + match slot_ticked(effects[n - 1], now).1 {
            Some(r) => seq![((n - 1) as usize, r)],
            None => seq![],
        }
    }
}

/// State of the polling worker.
pub struct Worker {
    slots: Vec<SlotState>,
    effects: Vec<Option<Effect>>,
    counter: u64,
}

impl Worker {
    pub closed spec fn slot_states(&self) -> Seq<SlotState> {
        self.slots@
    }

    pub closed spec fn effects(&self) -> Seq<Option<Effect>> {
        self.effects@
    }

    pub closed spec fn counter(&self) -> u64 {
        self.counter
    }

    pub open spec fn wf(&self) -> bool {
        &&& self.slot_states().len() == SLOT_COUNT
        &&& self.effects().len() == SLOT_COUNT
    }

    /// A worker whose slots start with the given connection status, with
    /// zeroed snapshots, no effect and the tick counter at zero.
    pub fn new(connected: [bool; 4]) -> (w: Worker)
        ensures
            w.wf(),
            w.counter() == 0,
            forall|i: int|
                0 <= i < SLOT_COUNT ==> w.slot_states()[i] == (SlotState {
                    connected: connected[i],
                    packet: 0,
                    pad: RawPad::spec_zeroed(),
                }),
            forall|i: int| 0 <= i < SLOT_COUNT ==> w.effects()[i] == None::<Effect>,
    {
        let mut slots: Vec<SlotState> = Vec::new();
        let mut effects: Vec<Option<Effect>> = Vec::new();
        let mut i: usize = 0;
        while i < SLOT_COUNT
            invariant
                i <= SLOT_COUNT,
                slots@.len() == i,
                effects@.len() == i,
                forall|j: int|
                    0 <= j < i ==> slots@[j] == (SlotState {
                        connected: connected[j],
                        packet: 0,
                        pad: RawPad::spec_zeroed(),
                    }),
                forall|j: int| 0 <= j < i ==> effects@[j] == None::<Effect>,
            decreases SLOT_COUNT - i,
        {
            slots.push(SlotState::new(connected[i]));
            effects.push(None);
            i = i + 1;
        }
        Worker { slots, effects, counter: 0 }
    }

    /// Whether slot `id` is read on this tick: always while it is connected,
    /// and on one tick in `CONNECTION_CHECK_INTERVAL` otherwise.
    pub fn should_query(&self, id: usize) -> (r: bool)
        requires
            self.wf(),
            id < SLOT_COUNT,
        ensures
            r == (self.slot_states()[id as int].connected || self.counter()
                % CONNECTION_CHECK_INTERVAL == 0),
    {
        self.slots[id].connected || self.counter % CONNECTION_CHECK_INTERVAL == 0
    }

    /// Takes in the outcome of reading slot `id`; returns the events owed.
    pub fn apply_read(&mut self, id: usize, r: ReadResult) -> (events: Vec<Event>)
        requires
            old(self).wf(),
            id < SLOT_COUNT,
        ensures
            final(self).wf(),
            final(self).slot_states() == old(self).slot_states().update(
                id as int,
                read_step(old(self).slot_states()[id as int], r).0,
            ),
            events@ == read_step(old(self).slot_states()[id as int], r).1,
            final(self).effects() == old(self).effects(),
            final(self).counter() == old(self).counter(),
    {
        let mut s = self.slots[id];
        let events = s.apply_read(r);
        self.slots.set(id, s);
        events
    }

    /// Applies an effect command received at `now`; returns the motor command
    /// for slot `msg.id` to issue at once.
    pub fn handle_message(&mut self, msg: FfMessage, now: u64) -> (r: Option<Rumble>)
        requires
            old(self).wf(),
            msg.id < SLOT_COUNT,
        ensures
            final(self).wf(),
            final(self).effects() == old(self).effects().update(
                msg.id as int,
                command_step(old(self).effects()[msg.id as int], msg.kind, now).0,
            ),
            r == command_step(old(self).effects()[msg.id as int], msg.kind, now).1,
            final(self).slot_states() == old(self).slot_states(),
            final(self).counter() == old(self).counter(),
    {
        let id = msg.id as usize;
        let mut e = self.effects[id];
        let r = apply_command(&mut e, msg.kind, now);
        self.effects.set(id, e);
        r
    }

    /// Advances every effect to `now`; returns the motor commands to issue,
    /// each with its slot index.
    pub fn timing_pass(&mut self, now: u64) -> (cmds: Vec<(usize, Rumble)>)
        requires
            old(self).wf(),
        ensures
            final(self).wf(),
            forall|i: int|
                0 <= i < SLOT_COUNT ==> final(self).effects()[i] == slot_ticked(
                    old(self).effects()[i],
                    now,
                ).0,
            cmds@ == tick_commands(old(self).effects(), now, SLOT_COUNT as nat),
            final(self).slot_states() == old(self).slot_states(),
            final(self).counter() == old(self).counter(),
    {
        let mut cmds: Vec<(usize, Rumble)> = Vec::new();
        let mut i: usize = 0;
        while i < SLOT_COUNT
            invariant
                i <= SLOT_COUNT,
                self.wf(),
                self.slot_states() == old(self).slot_states(),
                self.counter() == old(self).counter(),
                forall|j: int|
                    0 <= j < i ==> self.effects()[j] == slot_ticked(old(self).effects()[j], now).0,
                forall|j: int| i <= j < SLOT_COUNT ==> self.effects()[j] == old(self).effects()[j],
                cmds@ == tick_commands(old(self).effects(), now, i as nat),
            decreases SLOT_COUNT - i,
        {
            let mut e = self.effects[i];
            let r = tick_slot(&mut e, now);
            self.effects.set(i, e);
            match r {
                Some(c) => cmds.push((i, c)),
                None => {},
            }
            assert(cmds@ =~= tick_commands(old(self).effects(), now, (i + 1) as nat));
            i = i + 1;
        }
        cmds
    }

    /// Ends the tick: the counter advances, wrapping around.
    pub fn finish_tick(&mut self)
        requires
            old(self).wf(),
        ensures
            final(self).wf(),
            final(self).counter() == (if old(self).counter() == u64::MAX {
                0
            } else {
                (old(self).counter() + 1) as u64
            }),
            final(self).slot_states() == old(self).slot_states(),
            final(self).effects() == old(self).effects(),
    {
        self.counter = self.counter.wrapping_add(1);
    }
}

proof fn lemma_run_append(s: SlotState, a: Seq<ReadResult>, b: Seq<ReadResult>)
    ensures
        run_reads(s, a + b) == (
            run_reads(run_reads(s, a).0, b).0,
            run_reads(s, a).1 + run_reads(run_reads(s, a).0, b).1,
        ),
    decreases a.len(),
{
    if a.len() == 0 {
        assert(a + b =~= b);
        assert(run_reads(s, a).1 + run_reads(s, b).1 =~= run_reads(s, b).1);
    } else {
        let s1 = read_step(s, a[0]).0;
        assert((a + b).drop_first() =~= a.drop_first() + b);
        lemma_run_append(s1, a.drop_first(), b);
        let e1 = read_step(s, a[0]).1;
        let mid = run_reads(s1, a.drop_first());
        assert(e1 + (mid.1 + run_reads(mid.0, b).1) =~= (e1 + mid.1) + run_reads(mid.0, b).1);
    }
}

proof fn lemma_no_link_filter(es: Seq<Event>)
    requires
        forall|i: int| 0 <= i < es.len() ==> !is_link_event(#[trigger] es[i]),
    ensures
        link_events(es) == Seq::<Event>::empty(),
{
    let f = es.filter(|e: Event| is_link_event(e));
    if f.len() > 0 {
        es.lemma_filter_pred(|e: Event| is_link_event(e), 0);
        assert(f.contains(f[0]));
        es.lemma_filter_contains_rev(|e: Event| is_link_event(e), f[0]);
    }
    assert(f =~= Seq::<Event>::empty());
}

proof fn lemma_buttons_not_link(p: u16, q: u16, n: nat)
    ensures
        forall|i: int|
            0 <= i < button_events_upto(p, q, n).len() ==> !is_link_event(
                #[trigger] button_events_upto(p, q, n)[i],
            ),
    decreases n,
{
    if n > 0 {
        lemma_buttons_not_link(p, q, (n - 1) as nat);
        let prefix = button_events_upto(p, q, (n - 1) as nat);
        let last = button_delta(p, q, n - 1);
        assert forall|i: int|
            0 <= i < button_events_upto(p, q, n).len() implies !is_link_event(
            #[trigger] button_events_upto(p, q, n)[i],
        ) by {
            if i >= prefix.len() {
                assert(button_events_upto(p, q, n)[i] == last[i - prefix.len()]);
            } else {
                assert(button_events_upto(p, q, n)[i] == prefix[i]);
            }
        }
    }
}

proof fn lemma_changes_not_link(p: RawPad, q: RawPad)
    ensures
        link_events(events_between(p, q)) == Seq::<Event>::empty(),
{
    lemma_buttons_not_link(p.buttons, q.buttons, BUTTON_COUNT as nat);
    let es = events_between(p, q);
    assert forall|i: int| 0 <= i < es.len() implies !is_link_event(#[trigger] es[i]) by {
        let a = axis_events(p, q);
        if i >= a.len() {
            assert(es[i] == button_events_upto(p.buttons, q.buttons, BUTTON_COUNT as nat)[i
                - a.len()]);
        }
    }
    lemma_no_link_filter(es);
}

proof fn lemma_link_of_step(s: SlotState, r: ReadResult)
    ensures
        link_events(read_step(s, r).1) == (match r {
            ReadResult::Success { .. } => if s.connected {
                Seq::<Event>::empty()
            } else {
                seq![Event::Connected]
            },
            ReadResult::NotConnected => if s.connected {
                seq![Event::Disconnected]
            } else {
                Seq::<Event>::empty()
            },
            ReadResult::Failed => Seq::<Event>::empty(),
        }),
{
    let pred = |e: Event| is_link_event(e);
    reveal_with_fuel(Seq::filter, 2);
    match r {
        ReadResult::Success { packet, pad } => {
            let link = if s.connected {
                Seq::<Event>::empty()
            } else {
                seq![Event::Connected]
            };
            assert(link.filter(pred) =~= link) by {
                if !s.connected {
                    seq![Event::Connected].lemma_filter_prepend(Event::Connected, pred);
                    assert(seq![Event::Connected] =~= Seq::<Event>::empty().push(Event::Connected));
                }
            }
            if packet != s.packet {
                lemma_changes_not_link(s.pad, pad);
                Seq::filter_distributes_over_add(link, events_between(s.pad, pad), pred);
                assert(link + Seq::<Event>::empty() =~= link);
            }
        },
        ReadResult::NotConnected => {
            if s.connected {
                assert(seq![Event::Disconnected] =~= Seq::<Event>::empty().push(
                    Event::Disconnected,
                ));
            }
        },
        ReadResult::Failed => {},
    }
}

/// A read after which a slot is, or stays, connected.
pub open spec fn is_present(r: ReadResult) -> bool {
    r is Success || r is Failed
}

/// A read after which a slot is, or stays, disconnected.
pub open spec fn is_absent(r: ReadResult) -> bool {
    r is NotConnected || r is Failed
}

proof fn lemma_stays(s: SlotState, reads: Seq<ReadResult>)
    requires
        s.connected ==> forall|i: int| 0 <= i < reads.len() ==> is_present(#[trigger] reads[i]),
        !s.connected ==> forall|i: int| 0 <= i < reads.len() ==> is_absent(#[trigger] reads[i]),
    ensures
        run_reads(s, reads).0.connected == s.connected,
        link_events(run_reads(s, reads).1) == Seq::<Event>::empty(),
    decreases reads.len(),
{
    if reads.len() == 0 {
        reveal_with_fuel(Seq::filter, 1);
        assert(link_events(seq![]) =~= Seq::<Event>::empty());
    } else {
        let (s1, e1) = read_step(s, reads[0]);
        lemma_link_of_step(s, reads[0]);
        assert(s1.connected == s.connected);
        assert forall|i: int| 0 <= i < reads.drop_first().len() implies (s.connected ==> is_present(
            #[trigger] reads.drop_first()[i],
        )) && (!s.connected ==> is_absent(reads.drop_first()[i])) by {
            assert(reads.drop_first()[i] == reads[i + 1]);
        }
        lemma_stays(s1, reads.drop_first());
        let e2 = run_reads(s1, reads.drop_first()).1;
        Seq::filter_distributes_over_add(e1, e2, |e: Event| is_link_event(e));
        assert(Seq::<Event>::empty() + Seq::<Event>::empty() =~= Seq::<Event>::empty());
    }
}

proof fn lemma_flips(s: SlotState, reads: Seq<ReadResult>, k: int)
    requires
        0 <= k < reads.len(),
        !s.connected ==> reads[k] is Success,
        s.connected ==> reads[k] is NotConnected,
        !s.connected ==> forall|i: int| 0 <= i < reads.len() ==> is_present(#[trigger] reads[i]),
        s.connected ==> forall|i: int| 0 <= i < reads.len() ==> is_absent(#[trigger] reads[i]),
    ensures
        run_reads(s, reads).0.connected == !s.connected,
        link_events(run_reads(s, reads).1) == (if s.connected {
            seq![Event::Disconnected]
        } else {
            seq![Event::Connected]
        }),
    decreases reads.len(),
{
    let (s1, e1) = read_step(s, reads[0]);
    let rest = reads.drop_first();
    lemma_link_of_step(s, reads[0]);
    assert forall|i: int| 0 <= i < rest.len() implies (!s.connected ==> is_present(
        #[trigger] rest[i],
    )) && (s.connected ==> is_absent(rest[i])) by {
        assert(rest[i] == reads[i + 1]);
    }
    let e2 = run_reads(s1, rest).1;
    Seq::filter_distributes_over_add(e1, e2, |e: Event| is_link_event(e));
    if s1.connected == s.connected {
        assert(k > 0);
        assert(rest[k - 1] == reads[k]);
        lemma_flips(s1, rest, k - 1);
        assert(Seq::<Event>::empty() + link_events(e2) =~= link_events(e2));
    } else {
        lemma_stays(s1, rest);
        assert(link_events(e1) + Seq::<Event>::empty() =~= link_events(e1));
    }
}

/// A slot that starts disconnected and reads a controller present (at least one
/// success among successes and failed reads), then absent (at least one report
/// of no controller among such reports and failed reads), then present again,
/// reports exactly: connected, disconnected, connected. How many reads each
/// phase holds does not matter.
#[verifier::rlimit(50)]
pub proof fn lemma_reconnect_sequence(
    s: SlotState,
    up: Seq<ReadResult>,
    down: Seq<ReadResult>,
    again: Seq<ReadResult>,
    i: int,
    j: int,
    k: int,
)
    requires
        !s.connected,
        0 <= i < up.len(),
        up[i] is Success,
        forall|x: int| 0 <= x < up.len() ==> is_present(#[trigger] up[x]),
        0 <= j < down.len(),
        down[j] is NotConnected,
        forall|x: int| 0 <= x < down.len() ==> is_absent(#[trigger] down[x]),
        0 <= k < again.len(),
        again[k] is Success,
        forall|x: int| 0 <= x < again.len() ==> is_present(#[trigger] again[x]),
    ensures
        link_events(run_reads(s, up + down + again).1) == seq![
            Event::Connected,
            Event::Disconnected,
            Event::Connected,
        ],
        run_reads(s, up + down + again).0.connected,
{
    let pred = |e: Event| is_link_event(e);
    lemma_run_append(s, up + down, again);
    lemma_run_append(s, up, down);
    let s1 = run_reads(s, up).0;
    let e1 = run_reads(s, up).1;
    lemma_flips(s, up, i);
    assert(s1.connected);
    let s2 = run_reads(s1, down).0;
    let e2 = run_reads(s1, down).1;
    lemma_flips(s1, down, j);
    assert(!s2.connected);
    let e3 = run_reads(s2, again).1;
    lemma_flips(s2, again, k);
    assert(run_reads(s, up + down) == (s2, e1 + e2));
    assert(run_reads(s, up + down + again).1 == e1 + e2 + e3);
    Seq::filter_distributes_over_add(e1, e2, pred);
    Seq::filter_distributes_over_add(e1 + e2, e3, pred);
    assert(link_events(e1) == seq![Event::Connected]);
    assert(link_events(e2) == seq![Event::Disconnected]);
    assert(link_events(e3) == seq![Event::Connected]);
    assert(seq![Event::Connected] + seq![Event::Disconnected] + seq![Event::Connected]
        =~= seq![Event::Connected, Event::Disconnected, Event::Connected]);
}

proof fn lemma_tick_commands_skip(effects: Seq<Option<Effect>>, now: u64, n: nat, id: int)
    requires
        n <= effects.len(),
        effects.len() == SLOT_COUNT,
        0 <= id < effects.len(),
        effects[id] is None,
    ensures
        forall|x: int|
            0 <= x < tick_commands(effects, now, n).len() ==> (#[trigger] tick_commands(
                effects,
                now,
                n,
            )[x]).0 != id,
    decreases n,
{
    if n > 0 {
        lemma_tick_commands_skip(effects, now, (n - 1) as nat, id);
        let prefix = tick_commands(effects, now, (n - 1) as nat);
        let all = tick_commands(effects, now, n);
        assert forall|x: int| 0 <= x < all.len() implies (#[trigger] all[x]).0 != id by {
            if x < prefix.len() {
                assert(all[x] == prefix[x]);
            } else if n - 1 == id {
                assert(slot_ticked(effects[id], now).1 is None);
                assert(false);
            } else {
                assert(all[x].0 == (n - 1) as usize);
            }
        }
    }
}

/// Dropping the effect of a slot leaves the slot without effect and issues no
/// motor command; a later play or stop of it, already queued or not, issues
/// none either, and no later timing pass issues one for that slot.
pub proof fn lemma_drop_silences_slot(
    effects: Seq<Option<Effect>>,
    id: int,
    now: u64,
    later: u64,
    n: u16,
)
    requires
        effects.len() == SLOT_COUNT,
        0 <= id < SLOT_COUNT,
    ensures
        command_step(effects[id], FfMessageType::Drop, now) == (
            None::<Effect>,
            None::<Rumble>,
        ),
        command_step(None, FfMessageType::Play(n), later) == (None::<Effect>, None::<Rumble>),
        command_step(None, FfMessageType::Stop, later) == (None::<Effect>, None::<Rumble>),
        slot_ticked(None, later) == (None::<Effect>, None::<Rumble>),
        forall|x: int|
            0 <= x < tick_commands(effects.update(id, None), later, SLOT_COUNT as nat).len()
                ==> (#[trigger] tick_commands(
                effects.update(id, None),
                later,
                SLOT_COUNT as nat,
            )[x]).0 != id,
{
    lemma_tick_commands_skip(effects.update(id, None), later, SLOT_COUNT as nat, id);
}

} // verus!
