//! Per-weapon-slot ammunition state machine.
//!
//! A slot is either `Loaded` and may fire once the refire delay has
//! passed, or `Reloading` until its end time.  Firing with the last round
//! moves the slot to `Reloading`; a reload that has run out moves it back
//! to `Loaded` with a full magazine.  Every other fire attempt is a no-op.

use crate::config::{DURATION_CAP, TIME_CAP};
use vstd::prelude::*;

verus! {

#[derive(Clone, Copy, PartialEq, Eq, Structural, Debug)]
pub enum Ammo {
    Loaded { ready_at: i64, remaining: u32 },
    Reloading { started_at: i64, ends_at: i64 },
}

impl Ammo {
    /// Valid slot state: times in range, and a loaded slot always holds
    /// at least one round (running dry transitions immediately).
    pub open spec fn wf(self) -> bool {
        match self {
            Ammo::Loaded { ready_at, remaining } => {
                0 <= ready_at <= TIME_CAP + DURATION_CAP && remaining >= 1
            },
            Ammo::Reloading { started_at, ends_at } => {
                0 <= started_at <= ends_at <= TIME_CAP + DURATION_CAP
            },
        }
    }

    /// The reload check run on the selected slot every tick.
    pub open spec fn spec_reload_step(self, now: int, full: u32) -> Ammo {
        match self {
            Ammo::Reloading { started_at, ends_at } => {
                if now >= ends_at {
                    Ammo::Loaded { ready_at: now as i64, remaining: full }
                } else {
                    self
                }
            },
            Ammo::Loaded { .. } => self,
        }
    }

    /// Whether a fire attempt at `now` succeeds.
    pub open spec fn spec_can_fire(self, now: int) -> bool {
        match self {
            Ammo::Loaded { ready_at, remaining } => now >= ready_at && remaining > 0,
            Ammo::Reloading { .. } => false,
        }
    }

    /// The slot after a successful fire at `now`: the round is consumed
    /// unconditionally, and spending the last one starts the reload.
    pub open spec fn spec_after_fire(self, now: int, refire: int, reload: int) -> Ammo {
        match self {
            Ammo::Loaded { ready_at, remaining } => {
                if remaining == 1 {
                    Ammo::Reloading { started_at: now as i64, ends_at: (now + reload) as i64 }
                } else {
                    Ammo::Loaded { ready_at: (now + refire) as i64, remaining: (remaining - 1) as u32 }
                }
            },
            Ammo::Reloading { .. } => self,
        }
    }

    /// Finish an expired reload on the selected slot.
    pub fn reload_step(self, now: i64, full: u32) -> (r: Ammo)
        requires
            self.wf(),
            0 <= now <= TIME_CAP,
            full >= 1,
        ensures
            r == self.spec_reload_step(now as int, full),
            r.wf(),
    {
        match self {
            Ammo::Reloading { started_at: _, ends_at } => {
                if now >= ends_at {
                    Ammo::Loaded { ready_at: now, remaining: full }
                } else {
                    self
                }
            },
            Ammo::Loaded { .. } => self,
        }
    }

    /// A fire attempt at `now`.  Returns the new slot state and whether a
    /// shot was actually released; failed attempts change nothing.
    pub fn try_fire(self, now: i64, refire: i64, reload: i64) -> (r: (Ammo, bool))
        requires
            self.wf(),
            0 <= now <= TIME_CAP,
            0 <= refire <= DURATION_CAP,
            0 <= reload <= DURATION_CAP,
        ensures
            r.1 == self.spec_can_fire(now as int),
            r.1 ==> r.0 == self.spec_after_fire(now as int, refire as int, reload as int),
            !r.1 ==> r.0 == self,
            r.0.wf(),
    {
        match self {
            Ammo::Loaded { ready_at, remaining } => {
                if now >= ready_at && remaining > 0 {
                    if remaining == 1 {
                        (Ammo::Reloading { started_at: now, ends_at: now + reload }, true)
                    } else {
                        (Ammo::Loaded { ready_at: now + refire, remaining: remaining - 1 }, true)
                    }
                } else {
                    (self, false)
                }
            },
            Ammo::Reloading { .. } => (self, false),
        }
    }
}

/// A spent slot starts reloading exactly when the last round went out:
/// a successful fire attempt yields `Reloading` if and only if the slot
/// held exactly one round.  A reloading slot never fires and is never
/// changed by a fire attempt.
pub proof fn lemma_reload_transition(a: Ammo, now: int, refire: int, reload: int)
    requires
        a.wf(),
    ensures
        a.spec_can_fire(now) ==> ((a.spec_after_fire(now, refire, reload) is Reloading) <==> a
            ->Loaded_remaining == 1),
        a is Reloading ==> !a.spec_can_fire(now) && a.spec_after_fire(now, refire, reload) == a,
{
}

} // verus!
