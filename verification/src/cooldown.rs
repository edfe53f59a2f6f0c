//! Manage cooldown timers.
//!
//! A cooldown is a restartable countdown that gates an action: the action
//! may fire when the cooldown is finished, and firing it starts the countdown
//! again. Time is counted in nanoseconds.

use vstd::prelude::*;

verus! {

/// Nanoseconds in one second.
pub const NANOS_PER_SECOND: u128 = 1_000_000_000;

/// The mathematical state of a cooldown: how long it lasts and how much of
/// that time has passed since it was last started.
pub struct CooldownView {
    pub duration: nat,
    pub elapsed: nat,
}

impl CooldownView {
    /// The elapsed time never exceeds the duration.
    pub open spec fn wf(self) -> bool {
        self.elapsed <= self.duration
    }

    /// A cooldown of the given duration that is ready at once.
    pub open spec fn charged(duration: nat) -> CooldownView {
        CooldownView { duration, elapsed: duration }
    }

    /// The gated action may fire.
    pub open spec fn ready(self) -> bool {
        self.elapsed >= self.duration
    }

    /// The countdown begins anew.
    pub open spec fn start(self) -> CooldownView {
        CooldownView { duration: self.duration, elapsed: 0 }
    }

    /// `delta` more nanoseconds have passed; the elapsed time stops at the
    /// duration.
    pub open spec fn tick(self, delta: nat) -> CooldownView {
        CooldownView {
            duration: self.duration,
            elapsed: if self.elapsed + delta >= self.duration {
                self.duration
            } else {
                self.elapsed + delta
            },
        }
    }
}

/// A cooldown timer.
#[derive(Clone, Copy, Debug, PartialEq, Eq)]
pub struct Cooldown {
    duration: u128,
    elapsed: u128,
}

impl View for Cooldown {
    type V = CooldownView;

    closed spec fn view(&self) -> CooldownView {
        CooldownView { duration: self.duration as nat, elapsed: self.elapsed as nat }
    }
}

impl Cooldown {
    /// Every cooldown the program holds is well formed.
    #[verifier::type_invariant]
    pub open spec fn wf(self) -> bool {
        self@.wf()
    }

    /// A cooldown of `duration` nanoseconds. It starts as available.
    pub fn new(duration: u128) -> (cooldown: Cooldown)
        ensures
            cooldown@ == CooldownView::charged(duration as nat),
            cooldown@.ready(),
            cooldown@.wf(),
    {
        Cooldown { duration, elapsed: duration }
    }

    /// A cooldown of `seconds` whole seconds. It starts as available.
    pub fn from_seconds(seconds: u64) -> (cooldown: Cooldown)
        ensures
            cooldown@ == CooldownView::charged((seconds * NANOS_PER_SECOND) as nat),
            cooldown@.ready(),
            cooldown@.wf(),
    {
        Cooldown::new(seconds as u128 * NANOS_PER_SECOND)
    }

    /// Starts, or restarts, the countdown.
    pub fn start(&mut self)
        ensures
            final(self)@ == old(self)@.start(),
            final(self)@.ready() <==> old(self)@.duration == 0,
            final(self)@.wf(),
    {
        self.elapsed = 0;
    }

    /// Advances the countdown by `delta` nanoseconds and reports whether the
    /// cooldown is finished afterwards.
    pub fn tick(&mut self, delta: u128) -> (finished: bool)
        ensures
            final(self)@ == old(self)@.tick(delta as nat),
            finished == final(self)@.ready(),
            final(self)@.wf(),
    {
        proof {
            use_type_invariant(&*self);
        }
        if delta >= self.duration - self.elapsed {
            self.elapsed = self.duration;
        } else {
            self.elapsed = self.elapsed + delta;
        }
        self.elapsed >= self.duration
    }

    /// Whether the gated action may fire.
    pub fn finished(&self) -> (finished: bool)
        ensures
            finished == self@.ready(),
    {
        self.elapsed >= self.duration
    }

    /// The length of the countdown, in nanoseconds.
    pub fn duration(&self) -> (duration: u128)
        ensures
            duration == self@.duration,
    {
        self.duration
    }

    /// The time since the last start, in nanoseconds, at most the duration.
    pub fn elapsed(&self) -> (elapsed: u128)
        ensures
            elapsed == self@.elapsed,
            elapsed <= self@.duration,
    {
        proof {
            use_type_invariant(self);
        }
        self.elapsed
    }
}

/// A new cooldown is ready, whatever its duration.
pub proof fn lemma_new_is_ready(duration: nat)
    ensures
        CooldownView::charged(duration).ready(),
        CooldownView::charged(duration).wf(),
{
}

/// After a start, a cooldown of positive duration is not ready. It is ready
/// again once the ticks since the start add up to the duration, and no
/// further tick changes that.
pub proof fn lemma_start_then_tick(cooldown: CooldownView, delta: nat, further: nat)
    requires
        cooldown.wf(),
        cooldown.duration > 0,
    ensures
        !cooldown.start().ready(),
        cooldown.start().tick(delta).ready() <==> delta >= cooldown.duration,
        cooldown.start().tick(cooldown.duration).ready(),
        cooldown.start().tick(cooldown.duration).tick(further).ready(),
        cooldown.start().tick(cooldown.duration + further).ready(),
{
}

/// Ticks add up: two ticks in a row count as one tick by their sum.
pub proof fn lemma_ticks_add_up(cooldown: CooldownView, first: nat, second: nat)
    requires
        cooldown.wf(),
    ensures
        cooldown.tick(first).tick(second) == cooldown.tick(first + second),
        cooldown.tick(first).wf(),
{
}

/// Ticking a ready cooldown changes nothing: it stays ready.
pub proof fn lemma_ready_stays_ready(cooldown: CooldownView, delta: nat)
    requires
        cooldown.wf(),
        cooldown.ready(),
    ensures
        cooldown.tick(delta) == cooldown,
        cooldown.tick(delta).ready(),
{
}

/// A cooldown of zero duration is always ready, also right after a start.
pub proof fn lemma_zero_duration_always_ready(cooldown: CooldownView)
    requires
        cooldown.wf(),
        cooldown.duration == 0,
    ensures
        cooldown.ready(),
        cooldown.start().ready(),
{
}

} // verus!
