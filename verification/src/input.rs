//! The per-tick intent vector of one controlled entity.
//!
//! The simulation only reads inputs; it never makes them up.  While a
//! player guides a missile the same intent vector is split: the vehicle
//! keeps the turret and trigger bits, the missile gets the driving bits.

use vstd::prelude::*;

verus! {

#[derive(Clone, Copy, PartialEq, Eq, Structural, Debug)]
pub struct Input {
    pub up: bool,
    pub down: bool,
    pub left: bool,
    pub right: bool,
    pub turret_left: bool,
    pub turret_right: bool,
    pub prev_weapon: bool,
    pub next_weapon: bool,
    pub fire: bool,
    pub mine: bool,
    pub self_destruct: bool,
    pub horn: bool,
    pub chat: bool,
}

pub open spec fn spec_neutral() -> Input {
    Input {
        up: false,
        down: false,
        left: false,
        right: false,
        turret_left: false,
        turret_right: false,
        prev_weapon: false,
        next_weapon: false,
        fire: false,
        mine: false,
        self_destruct: false,
        horn: false,
        chat: false,
    }
}

impl Input {
    /// The slice of the intent a vehicle still obeys while its owner
    /// guides a missile: everything but the driving bits.
    pub open spec fn spec_vehicle_while_guiding(self) -> Input {
        Input { up: false, down: false, left: false, right: false, ..self }
    }

    /// The slice of the intent a guided missile obeys: only the driving
    /// bits, never a trigger.
    pub open spec fn spec_missile_while_guiding(self) -> Input {
        Input {
            up: self.up,
            down: self.down,
            left: self.left,
            right: self.right,
            ..spec_neutral()
        }
    }

    /// Signed turn intent: +1 right, -1 left, 0 neither or both.
    pub open spec fn spec_right_left(self) -> int {
        (if self.right {
            1int
        } else {
            0int
        }) - (if self.left {
            1int
        } else {
            0int
        })
    }

    pub fn neutral() -> (r: Input)
        ensures
            r == spec_neutral(),
    {
        Input {
            up: false,
            down: false,
            left: false,
            right: false,
            turret_left: false,
            turret_right: false,
            prev_weapon: false,
            next_weapon: false,
            fire: false,
            mine: false,
            self_destruct: false,
            horn: false,
            chat: false,
        }
    }

    pub fn vehicle_while_guiding(self) -> (r: Input)
        ensures
            r == self.spec_vehicle_while_guiding(),
    {
        Input { up: false, down: false, left: false, right: false, ..self }
    }

    pub fn missile_while_guiding(self) -> (r: Input)
        ensures
            r == self.spec_missile_while_guiding(),
    {
        Input {
            up: self.up,
            down: self.down,
            left: self.left,
            right: self.right,
            ..Input::neutral()
        }
    }

    pub fn right_left(self) -> (r: i64)
        ensures
            r == self.spec_right_left(),
    {
        (if self.right {
            1i64
        } else {
            0i64
        }) - (if self.left {
            1i64
        } else {
            0i64
        })
    }
}

} // verus!
