use vstd::prelude::*;

verus! {

/// Number of distinct stats.
pub const STAT_COUNT: usize = 18;

/// Number of equipment slot types.
pub const SLOT_COUNT: usize = 5;

/// A stat that an equipment piece can carry.
#[derive(Clone, Copy, Debug, PartialEq, Eq, Structural)]
pub enum Stat {
    Hp,
    HpFlat,
    Atk,
    AtkFlat,
    CritRate,
    CritDamage,
    Def,
    DefFlat,
    EnergyRecharge,
    ElementalMastery,
    Pyro,
    Electro,
    Cryo,
    Hydro,
    Anemo,
    Geo,
    Physical,
    Healing,
}

impl Stat {
    /// The stable ordinal of the stat, used to index weight tables.
    pub open spec fn spec_index(self) -> int {
        match self {
            Stat::Hp => 0,
            Stat::HpFlat => 1,
            Stat::Atk => 2,
            Stat::AtkFlat => 3,
            Stat::CritRate => 4,
            Stat::CritDamage => 5,
            Stat::Def => 6,
            Stat::DefFlat => 7,
            Stat::EnergyRecharge => 8,
            Stat::ElementalMastery => 9,
            Stat::Pyro => 10,
            Stat::Electro => 11,
            Stat::Cryo => 12,
            Stat::Hydro => 13,
            Stat::Anemo => 14,
            Stat::Geo => 15,
            Stat::Physical => 16,
            Stat::Healing => 17,
        }
    }

    /// The stat's ordinal, in `0..STAT_COUNT`.
    pub fn index(self) -> (r: usize)
        ensures
            r as int == self.spec_index(),
            r < STAT_COUNT,
    {
        match self {
            Stat::Hp => 0,
            Stat::HpFlat => 1,
            Stat::Atk => 2,
            Stat::AtkFlat => 3,
            Stat::CritRate => 4,
            Stat::CritDamage => 5,
            Stat::Def => 6,
            Stat::DefFlat => 7,
            Stat::EnergyRecharge => 8,
            Stat::ElementalMastery => 9,
            Stat::Pyro => 10,
            Stat::Electro => 11,
            Stat::Cryo => 12,
            Stat::Hydro => 13,
            Stat::Anemo => 14,
            Stat::Geo => 15,
            Stat::Physical => 16,
            Stat::Healing => 17,
        }
    }

    /// The stat whose ordinal is `i`, if `i < STAT_COUNT`.
    pub fn from_index(i: usize) -> (r: Option<Stat>)
        ensures
            match r {
                Some(s) => i < STAT_COUNT && s.spec_index() == i as int,
                None => i >= STAT_COUNT,
            },
    {
        match i {
            0 => Some(Stat::Hp),
            1 => Some(Stat::HpFlat),
            2 => Some(Stat::Atk),
            3 => Some(Stat::AtkFlat),
            4 => Some(Stat::CritRate),
            5 => Some(Stat::CritDamage),
            6 => Some(Stat::Def),
            7 => Some(Stat::DefFlat),
            8 => Some(Stat::EnergyRecharge),
            9 => Some(Stat::ElementalMastery),
            10 => Some(Stat::Pyro),
            11 => Some(Stat::Electro),
            12 => Some(Stat::Cryo),
            13 => Some(Stat::Hydro),
            14 => Some(Stat::Anemo),
            15 => Some(Stat::Geo),
            16 => Some(Stat::Physical),
            17 => Some(Stat::Healing),
            _ => None,
        }
    }
}

/// An equipment slot.
#[derive(Clone, Copy, Debug, PartialEq, Eq, Structural)]
pub enum SlotType {
    Flower,
    Plume,
    Sands,
    Goblet,
    Circlet,
}

impl SlotType {
    /// The stable ordinal of the slot type.
    pub open spec fn spec_index(self) -> int {
        match self {
            SlotType::Flower => 0,
            SlotType::Plume => 1,
            SlotType::Sands => 2,
            SlotType::Goblet => 3,
            SlotType::Circlet => 4,
        }
    }

    /// The slot type's ordinal, in `0..SLOT_COUNT`.
    pub fn index(self) -> (r: usize)
        ensures
            r as int == self.spec_index(),
            r < SLOT_COUNT,
    {
        match self {
            SlotType::Flower => 0,
            SlotType::Plume => 1,
            SlotType::Sands => 2,
            SlotType::Goblet => 3,
            SlotType::Circlet => 4,
        }
    }

    /// The slot type whose ordinal is `i`, if `i < SLOT_COUNT`.
    pub fn from_index(i: usize) -> (r: Option<SlotType>)
        ensures
            match r {
                Some(t) => i < SLOT_COUNT && t.spec_index() == i as int,
                None => i >= SLOT_COUNT,
            },
    {
        match i {
            0 => Some(SlotType::Flower),
            1 => Some(SlotType::Plume),
            2 => Some(SlotType::Sands),
            3 => Some(SlotType::Goblet),
            4 => Some(SlotType::Circlet),
            _ => None,
        }
    }
}

} // verus!
