//! Weapon and vehicle kinds, and the weapon-cycling order.

use vstd::prelude::*;

verus! {

pub const WEAPON_COUNT: usize = 7;

pub const VEHICLE_KIND_COUNT: usize = 3;

#[derive(Clone, Copy, PartialEq, Eq, Structural, Debug)]
pub enum Weapon {
    Mg,
    Rail,
    Cb,
    Rockets,
    Hm,
    Gm,
    Bfg,
}

#[derive(Clone, Copy, PartialEq, Eq, Structural, Debug)]
pub enum VehicleKind {
    Tank,
    Hovercraft,
    Hummer,
}

pub open spec fn weapon_index(w: Weapon) -> int {
    match w {
        Weapon::Mg => 0,
        Weapon::Rail => 1,
        Weapon::Cb => 2,
        Weapon::Rockets => 3,
        Weapon::Hm => 4,
        Weapon::Gm => 5,
        Weapon::Bfg => 6,
    }
}

pub open spec fn spec_weapon_from_index(i: int) -> Weapon {
    if i == 0 {
        Weapon::Mg
    } else if i == 1 {
        Weapon::Rail
    } else if i == 2 {
        Weapon::Cb
    } else if i == 3 {
        Weapon::Rockets
    } else if i == 4 {
        Weapon::Hm
    } else if i == 5 {
        Weapon::Gm
    } else {
        Weapon::Bfg
    }
}

/// Cycling forward wraps from the last weapon to the first.
pub open spec fn spec_next_weapon(w: Weapon) -> Weapon {
    spec_weapon_from_index((weapon_index(w) + 1) % (WEAPON_COUNT as int))
}

/// Cycling backward wraps from the first weapon to the last.
pub open spec fn spec_prev_weapon(w: Weapon) -> Weapon {
    spec_weapon_from_index((weapon_index(w) + WEAPON_COUNT - 1) % (WEAPON_COUNT as int))
}

impl Weapon {
    pub fn index(self) -> (r: usize)
        ensures
            r == weapon_index(self),
    {
        match self {
            Weapon::Mg => 0,
            Weapon::Rail => 1,
            Weapon::Cb => 2,
            Weapon::Rockets => 3,
            Weapon::Hm => 4,
            Weapon::Gm => 5,
            Weapon::Bfg => 6,
        }
    }

    pub fn from_index(i: usize) -> (r: Weapon)
        requires
            i < WEAPON_COUNT,
        ensures
            r == spec_weapon_from_index(i as int),
            weapon_index(r) == i,
    {
        if i == 0 {
            Weapon::Mg
        } else if i == 1 {
            Weapon::Rail
        } else if i == 2 {
            Weapon::Cb
        } else if i == 3 {
            Weapon::Rockets
        } else if i == 4 {
            Weapon::Hm
        } else if i == 5 {
            Weapon::Gm
        } else {
            Weapon::Bfg
        }
    }

    pub fn next(self) -> (r: Weapon)
        ensures
            r == spec_next_weapon(self),
    {
        match self {
            Weapon::Mg => Weapon::Rail,
            Weapon::Rail => Weapon::Cb,
            Weapon::Cb => Weapon::Rockets,
            Weapon::Rockets => Weapon::Hm,
            Weapon::Hm => Weapon::Gm,
            Weapon::Gm => Weapon::Bfg,
            Weapon::Bfg => Weapon::Mg,
        }
    }

    pub fn prev(self) -> (r: Weapon)
        ensures
            r == spec_prev_weapon(self),
    {
        match self {
            Weapon::Mg => Weapon::Bfg,
            Weapon::Rail => Weapon::Mg,
            Weapon::Cb => Weapon::Rail,
            Weapon::Rockets => Weapon::Cb,
            Weapon::Hm => Weapon::Rockets,
            Weapon::Gm => Weapon::Hm,
            Weapon::Bfg => Weapon::Gm,
        }
    }
}

pub open spec fn vehicle_kind_index(k: VehicleKind) -> int {
    match k {
        VehicleKind::Tank => 0,
        VehicleKind::Hovercraft => 1,
        VehicleKind::Hummer => 2,
    }
}

impl VehicleKind {
    pub fn index(self) -> (r: usize)
        ensures
            r == vehicle_kind_index(self),
    {
        match self {
            VehicleKind::Tank => 0,
            VehicleKind::Hovercraft => 1,
            VehicleKind::Hummer => 2,
        }
    }

    pub fn from_index(i: usize) -> (r: VehicleKind)
        requires
            i < VEHICLE_KIND_COUNT,
        ensures
            vehicle_kind_index(r) == i,
    {
        if i == 0 {
            VehicleKind::Tank
        } else if i == 1 {
            VehicleKind::Hovercraft
        } else {
            VehicleKind::Hummer
        }
    }
}

} // verus!
