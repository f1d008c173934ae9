//! Party members: a handle on a slot of the player's party and the raw data
//! that the slot holds.
use vstd::prelude::*;

verus! {

/// The ailment number that stands for a fainted party member.
pub const AILMENT_FAINTED: u8 = 7;

/// One kind of data kept for a party member.
#[derive(Clone, Copy, PartialEq, Eq, Structural, Debug)]
pub enum MonDataField {
    Species,
    SpeciesOrEgg,
    Level,
    Hp,
    MaxHp,
    TeraType,
    IsEgg,
    Personality,
    IsShiny,
    HeldItem,
    Status,
}

/// The raw data of one party member, as the game reports it.
#[derive(Clone, Copy, PartialEq, Eq, Structural, Debug)]
pub struct MonData {
    pub species: u32,
    pub species_or_egg: u32,
    pub level: u32,
    pub hp: u32,
    pub max_hp: u32,
    pub tera_type: u32,
    pub is_egg: u32,
    pub personality: u32,
    pub is_shiny: u32,
    pub held_item: u32,
    pub status: u32,
    /// The ailment that the game derives from `status`.
    pub ailment: u8,
}

impl MonData {
    /// The raw value of one field.
    pub open spec fn spec_field(self, data: MonDataField) -> u32 {
        match data {
            MonDataField::Species => self.species,
            MonDataField::SpeciesOrEgg => self.species_or_egg,
            MonDataField::Level => self.level,
            MonDataField::Hp => self.hp,
            MonDataField::MaxHp => self.max_hp,
            MonDataField::TeraType => self.tera_type,
            MonDataField::IsEgg => self.is_egg,
            MonDataField::Personality => self.personality,
            MonDataField::IsShiny => self.is_shiny,
            MonDataField::HeldItem => self.held_item,
            MonDataField::Status => self.status,
        }
    }

    /// The raw value of one field.
    pub fn field(&self, data: MonDataField) -> (res: u32)
        ensures
            res == self.spec_field(data),
    {
        match data {
            MonDataField::Species => self.species,
            MonDataField::SpeciesOrEgg => self.species_or_egg,
            MonDataField::Level => self.level,
            MonDataField::Hp => self.hp,
            MonDataField::MaxHp => self.max_hp,
            MonDataField::TeraType => self.tera_type,
            MonDataField::IsEgg => self.is_egg,
            MonDataField::Personality => self.personality,
            MonDataField::IsShiny => self.is_shiny,
            MonDataField::HeldItem => self.held_item,
            MonDataField::Status => self.status,
        }
    }
}

/// The player's party: the data of every slot and how many slots are in use.
pub struct Party {
    pub mons: Vec<MonData>,
    pub count: u8,
}

impl Party {
    /// The count of slots in use never exceeds the slots there are.
    pub open spec fn wf(&self) -> bool {
        self.count <= self.mons.len()
    }
}

/// A handle on one slot of the player's party.
#[derive(Clone, Copy, PartialEq, Eq, Structural, Debug)]
pub struct Pokemon {
    slot: usize,
}

impl Pokemon {
    /// The slot this handle points at.
    pub closed spec fn spec_slot(&self) -> usize {
        self.slot
    }

    /// The data this handle points at.
    pub open spec fn data(&self, party: &Party) -> MonData {
        party.mons@[self.spec_slot() as int]
    }

    /// This handle points into `party`.
    pub open spec fn valid(&self, party: &Party) -> bool {
        self.spec_slot() < party.mons.len()
    }

    /// The slot this handle points at.
    pub fn as_ptr(&self) -> (res: usize)
        ensures
            res == self.spec_slot(),
    {
        self.slot
    }

    /// The party member in slot `index`, if that slot is in use.
    pub fn get_player_party(index: u8, party: &Party) -> (res: Option<Pokemon>)
        requires
            party.wf(),
        ensures
            index >= party.count <==> res is None,
            res matches Some(p) ==> p.spec_slot() == index && p.valid(party),
    {
        if index >= party.count {
            return None;
        }
        Some(Pokemon { slot: index as usize })
    }

    /// The raw value of one field of this member's data.
    pub fn get_mon_data(&self, party: &Party, data: MonDataField) -> (res: u32)
        requires
            self.valid(party),
        ensures
            res == self.data(party).spec_field(data),
    {
        party.mons[self.slot].field(data)
    }

    /// The level.
    pub fn level(&self, party: &Party) -> (res: u8)
        requires
            self.valid(party),
        ensures
            res == self.data(party).level as u8,
    {
        #[verifier::truncate]
        (self.get_mon_data(party, MonDataField::Level) as u8)
    }

    /// The current hit points.
    pub fn hp(&self, party: &Party) -> (res: u16)
        requires
            self.valid(party),
        ensures
            res == self.data(party).hp as u16,
    {
        #[verifier::truncate]
        (self.get_mon_data(party, MonDataField::Hp) as u16)
    }

    /// The maximum hit points.
    pub fn max_hp(&self, party: &Party) -> (res: u16)
        requires
            self.valid(party),
        ensures
            res == self.data(party).max_hp as u16,
    {
        #[verifier::truncate]
        (self.get_mon_data(party, MonDataField::MaxHp) as u16)
    }

    /// The tera type.
    pub fn tera_type(&self, party: &Party) -> (res: u16)
        requires
            self.valid(party),
        ensures
            res == self.data(party).tera_type as u16,
    {
        #[verifier::truncate]
        (self.get_mon_data(party, MonDataField::TeraType) as u16)
    }

    /// The species, or the egg species for an egg.
    pub fn species(&self, party: &Party) -> (res: u16)
        requires
            self.valid(party),
        ensures
            res == self.data(party).species_or_egg as u16,
    {
        #[verifier::truncate]
        (self.get_mon_data(party, MonDataField::SpeciesOrEgg) as u16)
    }

    /// Whether this member is an egg.
    pub fn is_egg(&self, party: &Party) -> (res: bool)
        requires
            self.valid(party),
        ensures
            res == (self.data(party).is_egg != 0),
    {
        self.get_mon_data(party, MonDataField::IsEgg) != 0
    }

    /// The personality value.
    pub fn personality(&self, party: &Party) -> (res: u32)
        requires
            self.valid(party),
        ensures
            res == self.data(party).personality,
    {
        self.get_mon_data(party, MonDataField::Personality)
    }

    /// Whether this member is shiny.
    pub fn shiny(&self, party: &Party) -> (res: bool)
        requires
            self.valid(party),
        ensures
            res == (self.data(party).is_shiny != 0),
    {
        self.get_mon_data(party, MonDataField::IsShiny) != 0
    }

    /// The held item, where there is one (item 0 stands for none).
    pub fn item(&self, party: &Party) -> (res: Option<usize>)
        requires
            self.valid(party),
        ensures
            self.data(party).held_item == 0 <==> res is None,
            res matches Some(n) ==> n == self.data(party).held_item,
    {
        match self.get_mon_data(party, MonDataField::HeldItem) {
            0 => None,
            n => Some(n as usize),
        }
    }

    /// Gives this member `item` to hold (0 takes the held item away); every
    /// other field and every other slot stays as it was.
    pub fn set_item(&self, party: &mut Party, item: u16)
        requires
            self.valid(old(party)),
        ensures
            final(party).count == old(party).count,
            final(party).mons@ == old(party).mons@.update(
                self.spec_slot() as int,
                MonData { held_item: item as u32, ..self.data(old(party)) },
            ),
    {
        let mut data = party.mons[self.slot];
        data.held_item = item as u32;
        party.mons.set(self.slot, data);
    }

    /// The status ailment shown for this member: fainted when its hit points
    /// are 0, else the ailment its status condition gives.
    pub fn status(&self, party: &Party) -> (res: u8)
        requires
            self.valid(party),
        ensures
            (self.data(party).hp as u16) == 0 ==> res == AILMENT_FAINTED,
            (self.data(party).hp as u16) != 0 ==> res == self.data(party).ailment,
    {
        if self.hp(party) == 0 {
            return AILMENT_FAINTED;
        }
        party.mons[self.slot].ailment
    }

    /// Exchanges the data of the two slots that `this` and `other` point at;
    /// the handles keep their slots.
    pub fn swap(this: &mut Self, other: &mut Self, party: &mut Party)
        requires
            old(this).valid(old(party)),
            old(other).valid(old(party)),
        ensures
            *final(this) == *old(this),
            *final(other) == *old(other),
            final(party).count == old(party).count,
            final(party).mons@ == old(party).mons@.update(
                old(this).spec_slot() as int,
                old(other).data(old(party)),
            ).update(old(other).spec_slot() as int, old(this).data(old(party))),
    {
        let a = party.mons[this.slot];
        let b = party.mons[other.slot];
        party.mons.set(this.slot, b);
        party.mons.set(other.slot, a);
    }
}

/// Giving an item and reading it back gives that item, or none for item 0.
pub proof fn law_item_reads_back(p: Pokemon, party: Party, item: u16, after: Party)
    requires
        p.valid(&party),
        after.mons@ == party.mons@.update(
            p.spec_slot() as int,
            MonData { held_item: item as u32, ..p.data(&party) },
        ),
    ensures
        p.valid(&after),
        p.data(&after).held_item == item as u32,
        (item == 0) <==> (p.data(&after).held_item == 0),
{
}

/// Swapping two slots twice gives back the party as it was.
pub proof fn law_swap_twice_is_identity(a: Pokemon, b: Pokemon, party: Party)
    requires
        a.valid(&party),
        b.valid(&party),
    ensures
        ({
            let once = party.mons@.update(a.spec_slot() as int, b.data(&party)).update(
                b.spec_slot() as int,
                a.data(&party),
            );
            let twice = once.update(a.spec_slot() as int, once[b.spec_slot() as int]).update(
                b.spec_slot() as int,
                once[a.spec_slot() as int],
            );
            twice =~= party.mons@
        }),
{
}

} // verus!
