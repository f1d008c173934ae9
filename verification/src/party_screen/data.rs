//! Party members as the party screen reads them: a handle on a slot of the
//! player's party.
use crate::data::{MonData, MonDataField, Party};
use vstd::prelude::*;

verus! {

/// A handle on one slot of the player's party.
#[derive(Clone, Copy, PartialEq, Eq, Structural, Debug)]
pub struct Pokemon {
    slot: usize,
}

impl Pokemon {
    /// The slot this handle points at.
    pub closed spec fn spec_slot(&self) -> usize {
        self.slot
    }

    /// The data this handle points at.
    pub open spec fn data(&self, party: &Party) -> MonData {
        party.mons@[self.spec_slot() as int]
    }

    /// This handle points into `party`.
    pub open spec fn valid(&self, party: &Party) -> bool {
        self.spec_slot() < party.mons.len()
    }

    /// The party member in slot `index`, if that slot is in use.
    pub fn get_player_party(index: u8, party: &Party) -> (res: Option<Pokemon>)
        requires
            party.wf(),
        ensures
            index >= party.count <==> res is None,
            res matches Some(p) ==> p.spec_slot() == index && p.valid(party),
    {
        if index >= party.count {
            return None;
        }
        Some(Pokemon { slot: index as usize })
    }

    /// The raw value of one field of this member's data.
    pub fn get_mon_data(&self, party: &Party, data: MonDataField) -> (res: u32)
        requires
            self.valid(party),
        ensures
            res == self.data(party).spec_field(data),
    {
        party.mons[self.slot].field(data)
    }

    /// The species.
    pub fn species(&self, party: &Party) -> (res: u16)
        requires
            self.valid(party),
        ensures
            res == self.data(party).species as u16,
    {
        #[verifier::truncate]
        (self.get_mon_data(party, MonDataField::Species) as u16)
    }

    /// The personality value.
    pub fn personality(&self, party: &Party) -> (res: u32)
        requires
            self.valid(party),
        ensures
            res == self.data(party).personality,
    {
        self.get_mon_data(party, MonDataField::Personality)
    }

    /// Whether this member is shiny.
    pub fn shiny(&self, party: &Party) -> (res: bool)
        requires
            self.valid(party),
        ensures
            res == (self.data(party).is_shiny != 0),
    {
        self.get_mon_data(party, MonDataField::IsShiny) != 0
    }

    /// The held item, where there is one (item 0 stands for none).
    pub fn item(&self, party: &Party) -> (res: Option<usize>)
        requires
            self.valid(party),
        ensures
            self.data(party).held_item == 0 <==> res is None,
            res matches Some(n) ==> n == self.data(party).held_item,
    {
        match self.get_mon_data(party, MonDataField::HeldItem) {
            0 => None,
            n => Some(n as usize),
        }
    }
}

} // verus!
