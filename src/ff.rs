//! Force-feedback effects: one rumble effect per slot, played with a repeat
//! count and an optional pause before each repetition.
//!
//! Time is a monotonic millisecond clock supplied by the caller, so an effect
//! only ever depends on elapsed durations, never on how many ticks went by.

use vstd::prelude::*;

verus! {

/// A rumble effect: motor intensities and the timing of one repetition.
#[derive(Clone, Copy, Debug, PartialEq, Eq, Structural)]
pub struct EffectData {
    pub strong: u16,
    pub weak: u16,
    /// Milliseconds of motor output in each repetition.
    pub length: u16,
    /// Milliseconds of pause before each repetition.
    pub delay: u16,
}

/// What a command asks of the effect of one slot.
#[derive(Clone, Copy, Debug, PartialEq, Eq, Structural)]
pub enum FfMessageType {
    Create(EffectData),
    /// Play the effect this many times more than once.
    Play(u16),
    Stop,
    Drop,
}

/// A command for the effect of slot `id`.
#[derive(Clone, Copy, Debug, PartialEq, Eq, Structural)]
pub struct FfMessage {
    pub id: u8,
    pub kind: FfMessageType,
}

/// A command for the two vibration motors of one slot.
#[derive(Clone, Copy, Debug, PartialEq, Eq, Structural)]
pub enum Rumble {
    /// Drive the left and the right motor at these speeds.
    Play { left: u16, right: u16 },
    /// Stop both motors.
    Stop,
}

/// The effect of one slot and where it stands in its playback.
#[derive(Clone, Copy, Debug, PartialEq, Eq, Structural)]
pub struct Effect {
    pub data: EffectData,
    /// Repetitions left; zero means idle.
    pub repeat: u16,
    /// Set while pausing before a repetition.
    pub waiting: bool,
    /// Start of the current phase, in milliseconds.
    pub time: u64,
}

/// The motor command that plays `d`. The strong intensity drives the right
/// motor and the weak intensity the left one.
pub open spec fn rumble_of(d: EffectData) -> Rumble {
    Rumble::Play { left: d.weak, right: d.strong }
}

/// Milliseconds from `start` to `now`; zero when the clock reads earlier.
pub open spec fn elapsed(start: u64, now: u64) -> int {
    if now >= start {
        now - start
    } else {
        0
    }
}

/// A fresh idle effect created at `now`.
pub open spec fn created(data: EffectData, now: u64) -> Effect {
    Effect { data, repeat: 0, waiting: false, time: now }
}

/// Saturating `n + 1`.
pub open spec fn repetitions(n: u16) -> u16 {
    if n == u16::MAX {
        u16::MAX
    } else {
        (n + 1) as u16
    }
}

/// `e` after a request at `now` to play it `n + 1` times, and the motor
/// command issued at once.
pub open spec fn played(e: Effect, n: u16, now: u64) -> (Effect, Option<Rumble>) {
    let repeat = repetitions(n);
    if e.data.delay != 0 {
        (Effect { repeat, waiting: true, time: now, ..e }, None)
    } else {
        (Effect { repeat, waiting: false, time: now, ..e }, Some(rumble_of(e.data)))
    }
}

/// Whether the motors run for `e`: a repetition is under way and not pausing.
pub open spec fn motor_on(e: Effect) -> bool {
    e.repeat > 0 && !e.waiting
}

/// `e` after a request to stop it, and the motor command issued: the motors
/// are stopped when they run, and nothing is sent otherwise.
pub open spec fn stopped(e: Effect) -> (Effect, Option<Rumble>) {
    (Effect { repeat: 0, waiting: false, ..e }, if motor_on(e) {
        Some(Rumble::Stop)
    } else {
        None
    })
}

/// `e` after the timing pass at `now`, and the motor command issued.
///
/// A pausing effect starts its repetition once the delay has passed, however
/// late the pass; a running repetition ends once its length has passed since
/// it started. A repetition thus always plays before it stops, and late passes
/// only stretch it.
pub open spec fn ticked(e: Effect, now: u64) -> (Effect, Option<Rumble>) {
    let t = elapsed(e.time, now);
    if e.repeat == 0 {
        (e, None)
    } else if e.waiting {
        if t >= e.data.delay {
            (Effect { waiting: false, time: now, ..e }, Some(rumble_of(e.data)))
        } else {
            (e, None)
        }
    } else if t >= e.data.length {
        let left = (e.repeat - 1) as u16;
        if left == 0 {
            (Effect { repeat: 0, ..e }, Some(Rumble::Stop))
        } else if e.data.delay != 0 {
            (Effect { repeat: left, waiting: true, time: now, ..e }, Some(Rumble::Stop))
        } else {
            (Effect { repeat: left, time: now, ..e }, None)
        }
    } else {
        (e, None)
    }
}

/// The effect of a slot after command `kind` at `now`, and the motor command
/// issued. Commands other than `Create` leave a slot without effect untouched.
pub open spec fn command_step(e: Option<Effect>, kind: FfMessageType, now: u64) -> (
    Option<Effect>,
    Option<Rumble>,
) {
    match kind {
        FfMessageType::Create(d) => (Some(created(d, now)), None),
        FfMessageType::Play(n) => match e {
            Some(x) => (Some(played(x, n, now).0), played(x, n, now).1),
            None => (None, None),
        },
        FfMessageType::Stop => match e {
            Some(x) => (Some(stopped(x).0), stopped(x).1),
            None => (None, None),
        },
        FfMessageType::Drop => (None, None),
    }
}

/// The effect of a slot after the timing pass at `now`, and the motor command
/// issued.
pub open spec fn slot_ticked(e: Option<Effect>, now: u64) -> (Option<Effect>, Option<Rumble>) {
    match e {
        Some(x) => (Some(ticked(x, now).0), ticked(x, now).1),
        None => (None, None),
    }
}

/// Applies command `kind`, received at `now`, to the effect of one slot.
pub fn apply_command(slot: &mut Option<Effect>, kind: FfMessageType, now: u64) -> (r: Option<
    Rumble,
>)
    ensures
        (*final(slot), r) == command_step(*old(slot), kind, now),
{
    match kind {
        FfMessageType::Create(d) => {
            *slot = Some(Effect::new(d, now));
            None
        },
        FfMessageType::Play(n) => match slot {
            Some(e) => e.play(n, now),
            None => None,
        },
        FfMessageType::Stop => match slot {
            Some(e) => e.stop(),
            None => None,
        },
        FfMessageType::Drop => {
            *slot = None;
            None
        },
    }
}

/// Runs the timing pass at `now` on the effect of one slot.
pub fn tick_slot(slot: &mut Option<Effect>, now: u64) -> (r: Option<Rumble>)
    ensures
        (*final(slot), r) == slot_ticked(*old(slot), now),
{
    match slot {
        Some(e) => e.tick(now),
        None => None,
    }
}

impl Effect {
    /// A new idle effect for `data`, created at `now`.
    pub fn new(data: EffectData, now: u64) -> (e: Effect)
        ensures
            e == created(data, now),
    {
        Effect { data, repeat: 0, waiting: false, time: now }
    }

    /// The motor command that plays this effect.
    pub fn rumble(&self) -> (r: Rumble)
        ensures
            r == rumble_of(self.data),
    {
        Rumble::Play { left: self.data.weak, right: self.data.strong }
    }

    /// Plays the effect `n + 1` times (saturating), starting at `now`: after the
    /// delay when there is one, at once otherwise. Returns the motor command to
    /// issue now.
    pub fn play(&mut self, n: u16, now: u64) -> (r: Option<Rumble>)
        ensures
            (*final(self), r) == played(*old(self), n, now),
    {
        self.repeat = n.saturating_add(1);
        self.time = now;
        if self.data.delay != 0 {
            self.waiting = true;
            None
        } else {
            self.waiting = false;
            Some(self.rumble())
        }
    }

    /// Ends playback: no repetition is left. Returns the motor command to
    /// issue: a stop when the motors run.
    pub fn stop(&mut self) -> (r: Option<Rumble>)
        ensures
            (*final(self), r) == stopped(*old(self)),
    {
        let running = self.repeat > 0 && !self.waiting;
        self.repeat = 0;
        self.waiting = false;
        if running {
            Some(Rumble::Stop)
        } else {
            None
        }
    }

    /// Advances playback to `now`; returns the motor command to issue.
    pub fn tick(&mut self, now: u64) -> (r: Option<Rumble>)
        ensures
            (*final(self), r) == ticked(*old(self), now),
    {
        if self.repeat == 0 {
            return None;
        }
        let t: u64 = if now >= self.time {
            now - self.time
        } else {
            0
        };
        if self.waiting {
            if t >= self.data.delay as u64 {
                self.waiting = false;
                self.time = now;
                Some(self.rumble())
            } else {
                None
            }
        } else if t >= self.data.length as u64 {
            self.repeat = self.repeat - 1;
            if self.repeat == 0 {
                Some(Rumble::Stop)
            } else {
                self.time = now;
                if self.data.delay != 0 {
                    self.waiting = true;
                    Some(Rumble::Stop)
                } else {
                    None
                }
            }
        } else {
            None
        }
    }
}

/// `e` after timing passes at each of `times` in turn, and the motor commands
/// issued, in order.
pub open spec fn run_ticks(e: Effect, times: Seq<u64>) -> (Effect, Seq<Rumble>)
    decreases times.len(),
{
    if times.len() == 0 {
        (e, seq![])
    } else {
        let (e1, c) = ticked(e, times[0]);
        let (e2, cs) = run_ticks(e1, times.drop_first());
        let first = match c {
            Some(r) => seq![r],
            None => seq![],
        };
        (e2, first + cs)
    }
}

/// An effect without delay, created and played once at `start`, issues one play
/// command at once, nothing while its length runs, and a stop command at the
/// first timing pass once its length has elapsed, which leaves it idle.
pub proof fn lemma_play_once(data: EffectData, start: u64, during: u64, after: u64)
    requires
        data.delay == 0,
        start <= during < start + data.length,
        after >= start + data.length,
    ensures
        played(created(data, start), 0, start).1 == Some(rumble_of(data)),
        played(created(data, start), 0, start).0.repeat == 1,
        ticked(played(created(data, start), 0, start).0, during) == (
        played(created(data, start), 0, start).0,
        None::<Rumble>,
        ),
        ticked(played(created(data, start), 0, start).0, after).1 == Some(Rumble::Stop),
        ticked(played(created(data, start), 0, start).0, after).0.repeat == 0,
{
}

/// Every motor command of a timing pass flips the motors: a play command is
/// sent only while they are off and turns them on, a stop command only while
/// they run and turns them off. Play and stop commands therefore alternate,
/// and no repetition stops before it has played, however the passes are timed.
pub proof fn lemma_commands_toggle_motor(e: Effect, now: u64)
    ensures
        ticked(e, now).1 == Some(rumble_of(e.data)) ==> !motor_on(e) && motor_on(
            ticked(e, now).0,
        ),
        ticked(e, now).1 == Some(Rumble::Stop) ==> motor_on(e) && !motor_on(ticked(e, now).0),
        ticked(e, now).1 is None ==> motor_on(ticked(e, now).0) == motor_on(e),
        ticked(e, now).1 is None || ticked(e, now).1 == Some(rumble_of(e.data)) || ticked(
            e,
            now,
        ).1 == Some(Rumble::Stop),
        ticked(e, now).0.data == e.data,
{
}

/// A pausing effect starts its repetition at the first pass once its delay has
/// passed, however late that pass comes.
pub proof fn lemma_late_pass_plays(e: Effect, now: u64)
    requires
        e.repeat > 0,
        e.waiting,
        elapsed(e.time, now) >= e.data.delay,
    ensures
        ticked(e, now) == (Effect { waiting: false, time: now, ..e }, Some(rumble_of(e.data))),
{
}

/// An effect with a delay, played three times at `start`, and driven by six
/// timing passes, each coming once the delay or the length due since the
/// previous one has passed (on time or late), issues three play commands, each
/// followed by a stop command, and is then idle.
pub proof fn lemma_play_three_times(data: EffectData, start: u64, times: Seq<u64>)
    requires
        data.delay > 0,
        times.len() == 6,
        times[0] >= start + data.delay,
        times[1] >= times[0] + data.length,
        times[2] >= times[1] + data.delay,
        times[3] >= times[2] + data.length,
        times[4] >= times[3] + data.delay,
        times[5] >= times[4] + data.length,
    ensures
        played(created(data, start), 2, start).1 == None::<Rumble>,
        run_ticks(played(created(data, start), 2, start).0, times).1 == seq![
            rumble_of(data),
            Rumble::Stop,
            rumble_of(data),
            Rumble::Stop,
            rumble_of(data),
            Rumble::Stop,
        ],
        run_ticks(played(created(data, start), 2, start).0, times).0.repeat == 0,
{
    let e0 = played(created(data, start), 2, start).0;
    let t1 = times.drop_first();
    let t2 = t1.drop_first();
    let t3 = t2.drop_first();
    let t4 = t3.drop_first();
    let t5 = t4.drop_first();
    let t6 = t5.drop_first();
    assert(t6.len() == 0);
    let e1 = ticked(e0, times[0]).0;
    let e2 = ticked(e1, t1[0]).0;
    let e3 = ticked(e2, t2[0]).0;
    let e4 = ticked(e3, t3[0]).0;
    let e5 = ticked(e4, t4[0]).0;
    let e6 = ticked(e5, t5[0]).0;
    assert(ticked(e0, times[0]).1 == Some(rumble_of(data)));
    assert(ticked(e1, t1[0]).1 == Some(Rumble::Stop));
    assert(ticked(e2, t2[0]).1 == Some(rumble_of(data)));
    assert(ticked(e3, t3[0]).1 == Some(Rumble::Stop));
    assert(ticked(e4, t4[0]).1 == Some(rumble_of(data)));
    assert(ticked(e5, t5[0]).1 == Some(Rumble::Stop));
    assert(e6.repeat == 0);
    assert(run_ticks(e6, t6).1 =~= seq![]);
    assert(run_ticks(e5, t5).1 =~= seq![Rumble::Stop]);
    assert(run_ticks(e4, t4).1 =~= seq![rumble_of(data), Rumble::Stop]);
    assert(run_ticks(e3, t3).1 =~= seq![Rumble::Stop, rumble_of(data), Rumble::Stop]);
    assert(run_ticks(e2, t2).1 =~= seq![
        rumble_of(data),
        Rumble::Stop,
        rumble_of(data),
        Rumble::Stop,
    ]);
    assert(run_ticks(e1, t1).1 =~= seq![
        Rumble::Stop,
        rumble_of(data),
        Rumble::Stop,
        rumble_of(data),
        Rumble::Stop,
    ]);
    assert(run_ticks(e0, times).1 =~= seq![
        rumble_of(data),
        Rumble::Stop,
        rumble_of(data),
        Rumble::Stop,
        rumble_of(data),
        Rumble::Stop,
    ]);
}

} // verus!
