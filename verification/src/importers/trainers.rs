//! Trainer parties in the game's party-file format, from exported trainer
//! data.
use super::text::{
    constant_case, decimal_u64, join, push_str, spec_decimal, spec_join, str_eq, text,
    to_constant_case, to_uppercase, uppercase, views,
};
use super::{ImportError, ImportErrorView, Personal, PersonalArray};
use vstd::prelude::*;

verus! {

/// Six stats of a party member: individual or effort values.
#[derive(Clone, Copy, PartialEq, Eq, Structural, Debug)]
pub struct Stats {
    pub hp: u16,
    pub atk: u16,
    pub def: u16,
    pub spa: u16,
    pub spd: u16,
    pub spe: u16,
}

/// The highest individual values: 31 in every stat.
pub fn max_ivs() -> (res: Stats)
    ensures
        res == (Stats { hp: 31, atk: 31, def: 31, spa: 31, spd: 31, spe: 31 }),
{
    Stats { hp: 31, atk: 31, def: 31, spa: 31, spd: 31, spe: 31 }
}

/// A move of a party member.
#[derive(Clone, PartialEq, Eq, Debug)]
pub struct Move {
    pub move_id: String,
}

/// A party member as the exported trainer data gives it.
#[derive(Clone, PartialEq, Eq, Debug)]
pub struct Pokemon {
    pub poke_id: String,
    pub form_id: usize,
    pub item: String,
    pub level: u16,
    pub nature: String,
    pub gem_type: String,
    pub move1: Move,
    pub move2: Move,
    pub move3: Move,
    pub move4: Move,
    pub ability: String,
    pub iv_values: Stats,
    pub effort_value: Stats,
}

/// A trainer as the exported trainer data gives it.
#[derive(Clone, PartialEq, Eq, Debug)]
pub struct Trainer {
    pub tr_id: String,
    pub change_gem: bool,
    pub battle_type: String,
    pub poke1: Pokemon,
    pub poke2: Pokemon,
    pub poke3: Pokemon,
    pub poke4: Pokemon,
    pub poke5: Pokemon,
    pub poke6: Pokemon,
}

/// The exported trainer data.
#[derive(Clone, PartialEq, Eq, Debug)]
pub struct TrData {
    pub table: Vec<Trainer>,
}

/// A trainer to import: its name, picture and replaced party members.
#[derive(Clone, PartialEq, Eq, Debug)]
pub struct TrainerEntry {
    pub id: String,
    pub pic: String,
    pub name: String,
    pub pokemon_override: Vec<(usize, Pokemon)>,
}

/// The trainers and battle partners to import.
#[derive(Clone, PartialEq, Eq, Debug)]
pub struct TrainerList {
    pub trainers: Vec<TrainerEntry>,
    pub partners: Vec<TrainerEntry>,
}

/// Six stats in the party-file format.
pub open spec fn spec_stats_to_string(s: Stats) -> Seq<char> {
    spec_decimal(s.hp as nat) + " HP / "@ + spec_decimal(s.atk as nat) + " Atk / "@ + spec_decimal(
        s.def as nat,
    ) + " Def / "@ + spec_decimal(s.spa as nat) + " SpA / "@ + spec_decimal(s.spd as nat)
        + " SpD / "@ + spec_decimal(s.spe as nat) + " Spe"@
}

/// Six stats in the party-file format.
pub fn stats_to_string(stats: &Stats) -> (res: String)
    ensures
        res@ == spec_stats_to_string(*stats),
{
    let mut s = decimal_u64(stats.hp as u64);
    push_str(&mut s, " HP / ");
    push_str(&mut s, decimal_u64(stats.atk as u64).as_str());
    push_str(&mut s, " Atk / ");
    push_str(&mut s, decimal_u64(stats.def as u64).as_str());
    push_str(&mut s, " Def / ");
    push_str(&mut s, decimal_u64(stats.spa as u64).as_str());
    push_str(&mut s, " SpA / ");
    push_str(&mut s, decimal_u64(stats.spd as u64).as_str());
    push_str(&mut s, " SpD / ");
    push_str(&mut s, decimal_u64(stats.spe as u64).as_str());
    push_str(&mut s, " Spe");
    s
}

/// The move lines of a party member: one `- MOVE_` line for each move
/// constant name, joined by newlines.
pub open spec fn spec_move_lines(move_names: Seq<Seq<char>>) -> Seq<char> {
    spec_join(move_names.map_values(|m: Seq<char>| "- MOVE_"@ + m), "\n"@)
}

/// The constant names of the four moves of a party member.
pub open spec fn move_names(data: Pokemon) -> Seq<Seq<char>> {
    seq![
        constant_case(data.move1.move_id@),
        constant_case(data.move2.move_id@),
        constant_case(data.move3.move_id@),
        constant_case(data.move4.move_id@),
    ]
}

/// A party member in the party-file format, given the constant names of
/// its species, item, ability and moves.
pub open spec fn spec_party_member_text(
    species: Seq<char>,
    item: Seq<char>,
    level: u16,
    ability: Seq<char>,
    ivs: Stats,
    evs: Stats,
    nature: Seq<char>,
    tera_type: Seq<char>,
    move_names: Seq<Seq<char>>,
) -> Seq<char> {
    "\n"@ + species + " @ ITEM_"@ + item + "\nLevel: "@ + spec_decimal(level as nat)
        + "\nAbility: ABILITY_"@ + ability + "\nIVs: "@ + spec_stats_to_string(ivs) + "\nEVs: "@
        + spec_stats_to_string(evs) + "\nNature: "@ + nature + "\n"@ + tera_type + spec_move_lines(
        move_names,
    ) + "\n"@
}

/// A party member in the party-file format, given the constant names of
/// its species, item, ability and moves, and its tera-type line.
pub fn party_member_text(
    species: &str,
    item: &str,
    level: u16,
    ability: &str,
    ivs: &Stats,
    evs: &Stats,
    nature: &str,
    tera_type: &str,
    move_names: &Vec<String>,
) -> (res: String)
    ensures
        res@ == spec_party_member_text(
            species@,
            item@,
            level,
            ability@,
            *ivs,
            *evs,
            nature@,
            tera_type@,
            views(move_names@),
        ),
{
    let mut lines: Vec<String> = Vec::new();
    let mut i: usize = 0;
    while i < move_names.len()
        invariant
            i <= move_names.len(),
            views(lines@) == views(move_names@).subrange(0, i as int).map_values(
                |m: Seq<char>| "- MOVE_"@ + m,
            ),
        decreases move_names.len() - i,
    {
        let mut line = text("- MOVE_");
        push_str(&mut line, move_names[i].as_str());
        let ghost prev = views(lines@);
        lines.push(line);
        assert(views(lines@) =~= prev.push(line@));
        assert(line@ == "- MOVE_"@ + views(move_names@)[i as int]);
        assert(views(lines@) =~= views(move_names@).subrange(0, i + 1).map_values(
            |m: Seq<char>| "- MOVE_"@ + m,
        ));
        i = i + 1;
    }
    assert(views(move_names@).subrange(0, move_names.len() as int) =~= views(move_names@));
    let mut s = text("\n");
    push_str(&mut s, species);
    push_str(&mut s, " @ ITEM_");
    push_str(&mut s, item);
    push_str(&mut s, "\nLevel: ");
    push_str(&mut s, decimal_u64(level as u64).as_str());
    push_str(&mut s, "\nAbility: ABILITY_");
    push_str(&mut s, ability);
    push_str(&mut s, "\nIVs: ");
    push_str(&mut s, stats_to_string(ivs).as_str());
    push_str(&mut s, "\nEVs: ");
    push_str(&mut s, stats_to_string(evs).as_str());
    push_str(&mut s, "\nNature: ");
    push_str(&mut s, nature);
    push_str(&mut s, "\n");
    push_str(&mut s, tera_type);
    push_str(&mut s, join(&lines, "\n").as_str());
    push_str(&mut s, "\n");
    s
}

/// A party member in the party-file format, after its header line.
pub open spec fn spec_member_text(
    species: Seq<char>,
    data: Pokemon,
    ability: Seq<char>,
    tera_type: Seq<char>,
) -> Seq<char> {
    spec_party_member_text(
        species,
        constant_case(data.item@),
        data.level,
        ability,
        data.iv_values,
        data.effort_value,
        data.nature@,
        tera_type,
        move_names(data),
    )
}

fn member_text(species: &str, data: &Pokemon, ability: &str, tera_type: &str) -> (res: String)
    ensures
        res@ == spec_member_text(species@, *data, ability@, tera_type@),
{
    let mut names: Vec<String> = Vec::new();
    names.push(to_constant_case(data.move1.move_id.as_str()));
    names.push(to_constant_case(data.move2.move_id.as_str()));
    names.push(to_constant_case(data.move3.move_id.as_str()));
    names.push(to_constant_case(data.move4.move_id.as_str()));
    assert(views(names@) =~= move_names(*data));
    let item = to_constant_case(data.item.as_str());
    party_member_text(
        species,
        item.as_str(),
        data.level,
        ability,
        &data.iv_values,
        &data.effort_value,
        data.nature.as_str(),
        tera_type,
        &names,
    )
}

/// The tera-type line of a replaced party member: none for the default.
pub open spec fn spec_override_tera(gem: Seq<char>) -> Seq<char> {
    if gem == "Default"@ {
        Seq::empty()
    } else {
        "Tera Type: "@ + gem + "\n"@
    }
}

/// A replaced party member in the party-file format: every name is put in
/// constant case as it stands.
pub open spec fn spec_pokemon_override(data: Pokemon) -> Seq<char> {
    spec_member_text(
        "SPECIES_"@ + constant_case(data.poke_id@),
        data,
        constant_case(data.ability@),
        spec_override_tera(data.gem_type@),
    )
}

fn tera_line(gem: &str) -> (res: String)
    ensures
        res@ == "Tera Type: "@ + gem@ + "\n"@,
{
    let mut s = text("Tera Type: ");
    push_str(&mut s, gem);
    push_str(&mut s, "\n");
    s
}

/// A replaced party member in the party-file format.
pub fn pokemon_override(data: &Pokemon) -> (res: Result<String, ImportError>)
    ensures
        res matches Ok(s) && s@ == spec_pokemon_override(*data),
{
    let mut id = text("SPECIES_");
    push_str(&mut id, to_constant_case(data.poke_id.as_str()).as_str());
    let ability = to_constant_case(data.ability.as_str());
    let tera_type = if str_eq(data.gem_type.as_str(), "Default") {
        String::new()
    } else {
        tera_line(data.gem_type.as_str())
    };
    Ok(member_text(id.as_str(), data, ability.as_str(), tera_type.as_str()))
}

/// The species data of `poke_id` in form `form`: the first entry that
/// matches, from position `i` on.
pub open spec fn spec_find_personal(
    entries: Seq<Personal>,
    poke_id: Seq<char>,
    form: usize,
    i: int,
) -> Option<int>
    decreases entries.len() - i,
{
    if i < 0 || i >= entries.len() {
        None
    } else if entries[i].species.species@ == poke_id && entries[i].species.form == form {
        Some(i)
    } else {
        spec_find_personal(entries, poke_id, form, i + 1)
    }
}

proof fn lemma_find_personal_in_range(entries: Seq<Personal>, poke_id: Seq<char>, form: usize, i: int)
    ensures
        spec_find_personal(entries, poke_id, form, i) matches Some(k) ==> i <= k < entries.len(),
    decreases entries.len() - i,
{
    if 0 <= i < entries.len() {
        lemma_find_personal_in_range(entries, poke_id, form, i + 1);
    }
}

fn find_personal(entries: &Vec<Personal>, poke_id: &str, form: usize) -> (res: Option<usize>)
    ensures
        res matches Some(i) ==> i < entries@.len() && spec_find_personal(entries@, poke_id@, form, 0)
            == Some(i as int),
        res is None ==> spec_find_personal(entries@, poke_id@, form, 0) is None,
{
    let mut i: usize = 0;
    while i < entries.len()
        invariant
            i <= entries.len(),
            spec_find_personal(entries@, poke_id@, form, 0) == spec_find_personal(
                entries@,
                poke_id@,
                form,
                i as int,
            ),
        decreases entries.len() - i,
    {
        if str_eq(entries[i].species.species.as_str(), poke_id) && entries[i].species.form == form {
            return Some(i);
        }
        i = i + 1;
    }
    None
}

/// The ability of a species that an ability slot names, if the slot is one
/// of the three known.
pub open spec fn spec_ability_slot(personal: Personal, slot: Seq<char>) -> Option<Seq<char>> {
    if slot == "Set_1"@ {
        Some(personal.ability_1@)
    } else if slot == "Set_2"@ {
        Some(personal.ability_2@)
    } else if slot == "Set_3"@ {
        Some(personal.ability_hidden@)
    } else {
        None
    }
}

/// The tera-type line of a party member: only for a trainer that uses tera
/// types, and none for the default.
pub open spec fn spec_member_tera(gem: Seq<char>, tera_trainer: bool) -> Seq<char> {
    if gem == "Default"@ {
        Seq::empty()
    } else if !tera_trainer {
        Seq::empty()
    } else {
        "Tera Type: "@ + gem + "\n"@
    }
}

/// The species constant of a party member that no species matches: its
/// name in constant case, with the name as the data writes it in a comment.
pub open spec fn spec_fallback_species(poke_id: Seq<char>) -> Seq<char> {
    "SPECIES_"@ + constant_case(poke_id) + " /* "@ + poke_id + " */"@
}

/// A party member in the party-file format: nothing for an egg; its
/// ability from the species data; `species` is the species constant that
/// matches it, if one does.
pub open spec fn spec_pokemon(
    data: Pokemon,
    species: Option<Seq<char>>,
    personal_data: PersonalArray,
    tera_trainer: bool,
) -> Result<Seq<char>, ImportErrorView> {
    if data.poke_id@ == "Egg"@ {
        Ok(Seq::empty())
    } else {
        match spec_find_personal(personal_data.entry@, data.poke_id@, data.form_id, 0) {
            None => Err(ImportErrorView::UnknownPokemon(data.poke_id@)),
            Some(i) => match spec_ability_slot(personal_data.entry@[i], data.ability@) {
                None => Err(ImportErrorView::UnexpectedAbility(data.ability@)),
                Some(ability) => Ok(
                    spec_member_text(
                        match species {
                            Some(s) => s,
                            None => spec_fallback_species(data.poke_id@),
                        },
                        data,
                        constant_case(ability),
                        spec_member_tera(data.gem_type@, tera_trainer),
                    ),
                ),
            },
        }
    }
}

/// A party member in the party-file format; see [`spec_pokemon`].
pub fn pokemon(
    data: &Pokemon,
    species_id: &Option<String>,
    personal_data: &PersonalArray,
    tera_trainer: bool,
) -> (res: Result<String, ImportError>)
    ensures
        match spec_pokemon(
            *data,
            match species_id {
                Some(s) => Some(s@),
                None => None,
            },
            *personal_data,
            tera_trainer,
        ) {
            Ok(t) => res matches Ok(s) && s@ == t,
            Err(ev) => res matches Err(e) && e@ == ev,
        },
{
    if str_eq(data.poke_id.as_str(), "Egg") {
        return Ok(String::new());
    }
    let index = match find_personal(&personal_data.entry, data.poke_id.as_str(), data.form_id) {
        Some(i) => i,
        None => return Err(ImportError::UnknownPokemon(text(data.poke_id.as_str()))),
    };
    proof {
        lemma_find_personal_in_range(personal_data.entry@, data.poke_id@, data.form_id, 0);
    }
    let personal = &personal_data.entry[index];
    let slot = data.ability.as_str();
    let ability_name = if str_eq(slot, "Set_1") {
        personal.ability_1.as_str()
    } else if str_eq(slot, "Set_2") {
        personal.ability_2.as_str()
    } else if str_eq(slot, "Set_3") {
        personal.ability_hidden.as_str()
    } else {
        return Err(ImportError::UnexpectedAbility(text(slot)));
    };
    let ability = to_constant_case(ability_name);
    let species = match species_id {
        Some(s) => text(s.as_str()),
        None => {
            let mut s = text("SPECIES_");
            push_str(&mut s, to_constant_case(data.poke_id.as_str()).as_str());
            push_str(&mut s, " /* ");
            push_str(&mut s, data.poke_id.as_str());
            push_str(&mut s, " */");
            s
        },
    };
    let tera_type = if str_eq(data.gem_type.as_str(), "Default") {
        String::new()
    } else if !tera_trainer {
        String::new()
    } else {
        tera_line(data.gem_type.as_str())
    };
    Ok(member_text(species.as_str(), data, ability.as_str(), tera_type.as_str()))
}

/// The six party members of a trainer, in order.
pub open spec fn party_members(data: Trainer) -> Seq<Pokemon> {
    seq![data.poke1, data.poke2, data.poke3, data.poke4, data.poke5, data.poke6]
}

/// The texts of the first `n` party members; the first failure wins.
pub open spec fn spec_party(
    members: Seq<Pokemon>,
    species: Seq<Option<Seq<char>>>,
    personal_data: PersonalArray,
    tera_trainer: bool,
    n: int,
) -> Result<Seq<Seq<char>>, ImportErrorView>
    decreases n,
{
    if n <= 0 {
        Ok(Seq::empty())
    } else {
        match spec_party(members, species, personal_data, tera_trainer, n - 1) {
            Err(e) => Err(e),
            Ok(prev) => match spec_pokemon(members[n - 1], species[n - 1], personal_data, tera_trainer) {
                Err(e) => Err(e),
                Ok(t) => Ok(prev.push(t)),
            },
        }
    }
}

/// The party after the first `n` replacements: each puts a replaced member
/// at its position; a position past the party is refused.
pub open spec fn spec_overrides(
    pokes: Seq<Seq<char>>,
    overrides: Seq<(usize, Pokemon)>,
    n: int,
) -> Result<Seq<Seq<char>>, ImportErrorView>
    decreases n,
{
    if n <= 0 {
        Ok(pokes)
    } else {
        match spec_overrides(pokes, overrides, n - 1) {
            Err(e) => Err(e),
            Ok(prev) => {
                let (index, p) = overrides[n - 1];
                if index < prev.len() {
                    Ok(prev.update(index as int, spec_pokemon_override(p)))
                } else {
                    Err(ImportErrorView::BadOverrideIndex(index))
                }
            },
        }
    }
}

/// Whether a trainer fights double battles, in the party-file format.
pub open spec fn spec_double_battle(battle_type: Seq<char>) -> Seq<char> {
    if battle_type == "Double"@ {
        "Yes"@
    } else {
        "No"@
    }
}

/// A trainer in the party-file format: its header, then its party with the
/// replaced members in place.
#[verifier::opaque]
pub open spec fn spec_trainer(
    data: Trainer,
    entry: TrainerEntry,
    species: Seq<Option<Seq<char>>>,
    personal_data: PersonalArray,
    prefix: Seq<char>,
) -> Result<Seq<char>, ImportErrorView> {
    match spec_party(party_members(data), species, personal_data, data.change_gem, 6) {
        Err(e) => Err(e),
        Ok(pokes) => match spec_overrides(
            pokes,
            entry.pokemon_override@,
            entry.pokemon_override@.len() as int,
        ) {
            Err(e) => Err(e),
            Ok(final_pokes) => Ok(
                "\n=== "@ + prefix + "_"@ + uppercase(data.tr_id@) + " ===\nName: "@ + uppercase(
                    entry.name@,
                ) + "\nPic: "@ + entry.pic@ + "\nGender: "@ + "Male"@ + "\nMusic: "@ + "Female"@
                    + "\nDouble Battle: "@ + spec_double_battle(data.battle_type@)
                    + "\nAI: Basic Trainer / Ace Pokemon\n\n"@ + spec_join(final_pokes, Seq::empty())
                    + "\n"@,
            ),
        },
    }
}

fn member(data: &Trainer, k: usize) -> (res: &Pokemon)
    requires
        k < 6,
    ensures
        *res == party_members(*data)[k as int],
{
    match k {
        0 => &data.poke1,
        1 => &data.poke2,
        2 => &data.poke3,
        3 => &data.poke4,
        4 => &data.poke5,
        _ => &data.poke6,
    }
}

/// The texts of the six party members, or the first failure.
fn party_texts(
    data: &Trainer,
    species_ids: &[Option<String>],
    personal_data: &PersonalArray,
) -> (res: Result<Vec<String>, ImportError>)
    requires
        species_ids@.len() == 6,
    ensures
        match spec_party(
            party_members(*data),
            super::species::opt_views(species_ids@),
            *personal_data,
            data.change_gem,
            6,
        ) {
            Ok(t) => res matches Ok(v) && views(v@) == t,
            Err(ev) => res matches Err(e) && e@ == ev,
        },
{
    let ghost sp = super::species::opt_views(species_ids@);
    let ghost members = party_members(*data);
    let mut pokes: Vec<String> = Vec::new();
    assert(views(pokes@) =~= Seq::<Seq<char>>::empty());
    let mut k: usize = 0;
    while k < 6
        invariant
            k <= 6,
            pokes@.len() == k,
            species_ids@.len() == 6,
            sp == super::species::opt_views(species_ids@),
            members == party_members(*data),
            spec_party(members, sp, *personal_data, data.change_gem, k as int) == Ok::<
                Seq<Seq<char>>,
                ImportErrorView,
            >(views(pokes@)),
        decreases 6 - k,
    {
        let text_k = match pokemon(member(data, k), &species_ids[k], personal_data, data.change_gem) {
            Ok(t) => t,
            Err(e) => {
                proof {
                    lemma_party_err(members, sp, *personal_data, data.change_gem, k as int + 1, 6);
                }
                return Err(e);
            },
        };
        let ghost prev = pokes@;
        pokes.push(text_k);
        assert(views(pokes@) =~= views(prev).push(text_k@));
        k = k + 1;
    }
    Ok(pokes)
}

/// Puts each replaced member at its position, in order; a position past
/// the party is refused.
fn apply_overrides(pokes: &mut Vec<String>, overrides: &Vec<(usize, Pokemon)>) -> (res: Result<
    (),
    ImportError,
>)
    ensures
        match spec_overrides(views(old(pokes)@), overrides@, overrides@.len() as int) {
            Ok(t) => res is Ok && views(final(pokes)@) == t,
            Err(ev) => res matches Err(e) && e@ == ev,
        },
{
    let ghost p0 = views(pokes@);
    let mut j: usize = 0;
    while j < overrides.len()
        invariant
            j <= overrides.len(),
            p0 == views(old(pokes)@),
            spec_overrides(p0, overrides@, j as int) == Ok::<Seq<Seq<char>>, ImportErrorView>(
                views(pokes@),
            ),
        decreases overrides.len() - j,
    {
        let index = overrides[j].0;
        if index >= pokes.len() {
            proof {
                assert(views(pokes@).len() == pokes@.len());
                assert(spec_overrides(p0, overrides@, j as int + 1) == Err::<
                    Seq<Seq<char>>,
                    ImportErrorView,
                >(ImportErrorView::BadOverrideIndex(index)));
                lemma_overrides_err(p0, overrides@, j as int + 1, overrides@.len() as int);
            }
            return Err(ImportError::BadOverrideIndex(index));
        }
        let replaced = match pokemon_override(&overrides[j].1) {
            Ok(t) => t,
            Err(e) => return Err(e),
        };
        let ghost prev = pokes@;
        pokes.set(index, replaced);
        assert(views(pokes@) =~= views(prev).update(index as int, replaced@));
        j = j + 1;
    }
    Ok(())
}

/// A trainer in the party-file format; `species_ids` holds, for each of
/// the six party members, the species constant that matches it, if one
/// does.
pub fn trainer(
    data: &Trainer,
    entry: &TrainerEntry,
    species_ids: &[Option<String>],
    personal_data: &PersonalArray,
    prefix: &str,
) -> (res: Result<String, ImportError>)
    requires
        species_ids@.len() == 6,
    ensures
        match spec_trainer(
            *data,
            *entry,
            super::species::opt_views(species_ids@),
            *personal_data,
            prefix@,
        ) {
            Ok(t) => res matches Ok(s) && s@ == t,
            Err(ev) => res matches Err(e) && e@ == ev,
        },
{
    proof {
        reveal(spec_trainer);
    }
    let mut pokes = match party_texts(data, species_ids, personal_data) {
        Ok(v) => v,
        Err(e) => return Err(e),
    };
    match apply_overrides(&mut pokes, &entry.pokemon_override) {
        Ok(()) => {},
        Err(e) => return Err(e),
    }
    let joined = super::text::concat_all(&pokes);
    let mut out = text("\n=== ");
    push_str(&mut out, prefix);
    push_str(&mut out, "_");
    push_str(&mut out, to_uppercase(data.tr_id.as_str()).as_str());
    push_str(&mut out, " ===\nName: ");
    push_str(&mut out, to_uppercase(entry.name.as_str()).as_str());
    push_str(&mut out, "\nPic: ");
    push_str(&mut out, entry.pic.as_str());
    push_str(&mut out, "\nGender: ");
    push_str(&mut out, "Male");
    push_str(&mut out, "\nMusic: ");
    push_str(&mut out, "Female");
    push_str(&mut out, "\nDouble Battle: ");
    let double_battle = if str_eq(data.battle_type.as_str(), "Double") {
        "Yes"
    } else {
        "No"
    };
    push_str(&mut out, double_battle);
    push_str(&mut out, "\nAI: Basic Trainer / Ace Pokemon\n\n");
    push_str(&mut out, joined.as_str());
    push_str(&mut out, "\n");
    Ok(out)
}

proof fn lemma_party_err(
    members: Seq<Pokemon>,
    species: Seq<Option<Seq<char>>>,
    personal_data: PersonalArray,
    tera_trainer: bool,
    k: int,
    n: int,
)
    requires
        0 <= k <= n,
        spec_party(members, species, personal_data, tera_trainer, k) is Err,
    ensures
        spec_party(members, species, personal_data, tera_trainer, n) == spec_party(
            members,
            species,
            personal_data,
            tera_trainer,
            k,
        ),
    decreases n - k,
{
    if k < n {
        lemma_party_err(members, species, personal_data, tera_trainer, k + 1, n);
    }
}

proof fn lemma_overrides_err(pokes: Seq<Seq<char>>, overrides: Seq<(usize, Pokemon)>, k: int, n: int)
    requires
        0 <= k <= n,
        spec_overrides(pokes, overrides, k) is Err,
    ensures
        spec_overrides(pokes, overrides, n) == spec_overrides(pokes, overrides, k),
    decreases n - k,
{
    if k < n {
        lemma_overrides_err(pokes, overrides, k + 1, n);
    }
}

/// The entry of trainer `tr_id` in `entries`: the first with that id, from
/// position `i` on.
pub open spec fn spec_find_entry(entries: Seq<TrainerEntry>, tr_id: Seq<char>, i: int) -> Option<int>
    decreases entries.len() - i,
{
    if i < 0 || i >= entries.len() {
        None
    } else if entries[i].id@ == tr_id {
        Some(i)
    } else {
        spec_find_entry(entries, tr_id, i + 1)
    }
}

/// The trainers to import, in the order of the trainer data: each with the
/// position of its first entry.
pub open spec fn spec_pair_trainers(table: Seq<Trainer>, entries: Seq<TrainerEntry>, n: int) -> Seq<
    (int, int),
>
    decreases n,
{
    if n <= 0 {
        Seq::empty()
    } else {
        let prev = spec_pair_trainers(table, entries, n - 1);
        match spec_find_entry(entries, table[n - 1].tr_id@, 0) {
            Some(e) => prev.push((n - 1, e)),
            None => prev,
        }
    }
}

proof fn lemma_find_entry_in_range(entries: Seq<TrainerEntry>, tr_id: Seq<char>, i: int)
    ensures
        spec_find_entry(entries, tr_id, i) matches Some(k) ==> i <= k < entries.len(),
    decreases entries.len() - i,
{
    if 0 <= i < entries.len() {
        lemma_find_entry_in_range(entries, tr_id, i + 1);
    }
}

/// The trainers of `table` that have an entry, with the position of that
/// entry.
pub fn pair_trainers(table: &[Trainer], entries: &[TrainerEntry]) -> (res: Vec<(usize, usize)>)
    ensures
        res@.map_values(|p: (usize, usize)| (p.0 as int, p.1 as int)) == spec_pair_trainers(
            table@,
            entries@,
            table@.len() as int,
        ),
        forall|k: int|
            0 <= k < res@.len() ==> (#[trigger] res@[k]).0 < table@.len() && res@[k].1
                < entries@.len(),
{
    let mut res: Vec<(usize, usize)> = Vec::new();
    let mut i: usize = 0;
    while i < table.len()
        invariant
            i <= table.len(),
            res@.map_values(|p: (usize, usize)| (p.0 as int, p.1 as int)) == spec_pair_trainers(
                table@,
                entries@,
                i as int,
            ),
            forall|k: int|
                0 <= k < res@.len() ==> (#[trigger] res@[k]).0 < i && res@[k].1 < entries@.len(),
        decreases table.len() - i,
    {
        let id = table[i].tr_id.as_str();
        let mut j: usize = 0;
        let mut found: Option<usize> = None;
        while j < entries.len()
            invariant_except_break
                found is None,
            invariant
                j <= entries.len(),
                spec_find_entry(entries@, id@, 0) == spec_find_entry(entries@, id@, j as int),
            ensures
                found matches Some(k) ==> spec_find_entry(entries@, id@, 0) == Some(k as int),
                found is None ==> spec_find_entry(entries@, id@, 0) is None,
            decreases entries.len() - j,
        {
            if str_eq(entries[j].id.as_str(), id) {
                found = Some(j);
                break;
            }
            j = j + 1;
        }
        let ghost prev = res@;
        match found {
            Some(k) => {
                proof {
                    lemma_find_entry_in_range(entries@, id@, 0);
                }
                res.push((i, k));
                assert(res@.map_values(|p: (usize, usize)| (p.0 as int, p.1 as int)) =~= prev.map_values(
                    |p: (usize, usize)| (p.0 as int, p.1 as int),
                ).push((i as int, k as int)));
            },
            None => {},
        }
        i = i + 1;
    }
    res
}

/// The species constants of each trainer's party, as sequences.
pub open spec fn party_species_views(s: Seq<Vec<Option<String>>>) -> Seq<Seq<Option<Seq<char>>>> {
    s.map_values(|v: Vec<Option<String>>| super::species::opt_views(v@))
}

/// The party-file texts of the first `n` trainers of `pairs` (a trainer's
/// position in `table` and its entry's in `entries`), one after the other;
/// the first failure wins.
pub open spec fn spec_party_defs(
    table: Seq<Trainer>,
    entries: Seq<TrainerEntry>,
    species: Seq<Seq<Option<Seq<char>>>>,
    personal_data: PersonalArray,
    prefix: Seq<char>,
    pairs: Seq<(int, int)>,
    n: int,
) -> Result<Seq<char>, ImportErrorView>
    decreases n,
{
    if n <= 0 {
        Ok(Seq::empty())
    } else {
        match spec_party_defs(table, entries, species, personal_data, prefix, pairs, n - 1) {
            Err(e) => Err(e),
            Ok(prev) => {
                let (t, e) = pairs[n - 1];
                match spec_trainer(table[t], entries[e], species[t], personal_data, prefix) {
                    Err(err) => Err(err),
                    Ok(text) => Ok(prev + text),
                }
            },
        }
    }
}

/// Every trainer of `table` that has an entry in `entries`, in the
/// party-file format, one after the other; `species_ids` holds, for each
/// trainer of `table`, the species constants of its six party members.
pub fn party_defs(
    table: &[Trainer],
    entries: &[TrainerEntry],
    species_ids: &[Vec<Option<String>>],
    personal_data: &PersonalArray,
    prefix: &str,
) -> (res: Result<String, ImportError>)
    requires
        species_ids@.len() == table@.len(),
        forall|i: int| 0 <= i < species_ids@.len() ==> (#[trigger] species_ids@[i])@.len() == 6,
    ensures
        ({
            let pairs = spec_pair_trainers(table@, entries@, table@.len() as int);
            match spec_party_defs(
                table@,
                entries@,
                party_species_views(species_ids@),
                *personal_data,
                prefix@,
                pairs,
                pairs.len() as int,
            ) {
                Ok(t) => res matches Ok(s) && s@ == t,
                Err(ev) => res matches Err(e) && e@ == ev,
            }
        }),
{
    let pairs = pair_trainers(table, entries);
    let ghost ipairs = pairs@.map_values(|p: (usize, usize)| (p.0 as int, p.1 as int));
    let ghost sp = party_species_views(species_ids@);
    let mut out = String::new();
    let mut k: usize = 0;
    while k < pairs.len()
        invariant
            k <= pairs.len(),
            ipairs == pairs@.map_values(|p: (usize, usize)| (p.0 as int, p.1 as int)),
            ipairs == spec_pair_trainers(table@, entries@, table@.len() as int),
            sp == party_species_views(species_ids@),
            species_ids@.len() == table@.len(),
            forall|i: int| 0 <= i < species_ids@.len() ==> (#[trigger] species_ids@[i])@.len() == 6,
            forall|j: int|
                0 <= j < pairs@.len() ==> (#[trigger] pairs@[j]).0 < table@.len() && pairs@[j].1
                    < entries@.len(),
            spec_party_defs(table@, entries@, sp, *personal_data, prefix@, ipairs, k as int)
                == Ok::<Seq<char>, ImportErrorView>(out@),
        decreases pairs.len() - k,
    {
        let (t, e) = pairs[k];
        assert(ipairs[k as int] == (t as int, e as int));
        assert(sp[t as int] == super::species::opt_views(species_ids@[t as int]@));
        let ids = species_ids[t].as_slice();
        assert(ids@ == species_ids@[t as int]@);
        let one = match trainer(&table[t], &entries[e], ids, personal_data, prefix) {
            Ok(x) => x,
            Err(err) => {
                proof {
                    assert(spec_party_defs(
                        table@,
                        entries@,
                        sp,
                        *personal_data,
                        prefix@,
                        ipairs,
                        k as int + 1,
                    ) == Err::<Seq<char>, ImportErrorView>(err@));
                    lemma_party_defs_err(
                        table@,
                        entries@,
                        sp,
                        *personal_data,
                        prefix@,
                        ipairs,
                        k as int + 1,
                        ipairs.len() as int,
                    );
                }
                return Err(err);
            },
        };
        push_str(&mut out, one.as_str());
        k = k + 1;
    }
    Ok(out)
}

proof fn lemma_party_defs_err(
    table: Seq<Trainer>,
    entries: Seq<TrainerEntry>,
    species: Seq<Seq<Option<Seq<char>>>>,
    personal_data: PersonalArray,
    prefix: Seq<char>,
    pairs: Seq<(int, int)>,
    k: int,
    n: int,
)
    requires
        0 <= k <= n,
        spec_party_defs(table, entries, species, personal_data, prefix, pairs, k) is Err,
    ensures
        spec_party_defs(table, entries, species, personal_data, prefix, pairs, n)
            == spec_party_defs(table, entries, species, personal_data, prefix, pairs, k),
    decreases n - k,
{
    if k < n {
        lemma_party_defs_err(table, entries, species, personal_data, prefix, pairs, k + 1, n);
    }
}


/// The ability of a party member is the species' ability that its slot
/// names: `Set_1` the first, `Set_2` the second, `Set_3` the hidden one; any
/// other slot is refused.
pub proof fn law_member_ability_by_slot(
    data: Pokemon,
    species: Option<Seq<char>>,
    personal_data: PersonalArray,
    tera_trainer: bool,
    i: int,
)
    requires
        data.poke_id@ != "Egg"@,
        spec_find_personal(personal_data.entry@, data.poke_id@, data.form_id, 0) == Some(i),
    ensures
        ({
            let p = personal_data.entry@[i];
            let sp = match species {
                Some(s) => s,
                None => spec_fallback_species(data.poke_id@),
            };
            let tera = spec_member_tera(data.gem_type@, tera_trainer);
            let res = spec_pokemon(data, species, personal_data, tera_trainer);
            &&& data.ability@ == "Set_1"@ ==> res == Ok::<Seq<char>, ImportErrorView>(
                spec_member_text(sp, data, constant_case(p.ability_1@), tera),
            )
            &&& data.ability@ == "Set_2"@ ==> res == Ok::<Seq<char>, ImportErrorView>(
                spec_member_text(sp, data, constant_case(p.ability_2@), tera),
            )
            &&& data.ability@ == "Set_3"@ ==> res == Ok::<Seq<char>, ImportErrorView>(
                spec_member_text(sp, data, constant_case(p.ability_hidden@), tera),
            )
            &&& data.ability@ != "Set_1"@ && data.ability@ != "Set_2"@ && data.ability@
                != "Set_3"@ ==> res == Err::<Seq<char>, ImportErrorView>(
                ImportErrorView::UnexpectedAbility(data.ability@),
            )
        }),
{
    reveal_strlit("Set_1");
    reveal_strlit("Set_2");
    reveal_strlit("Set_3");
    assert("Set_1"@[4] != "Set_2"@[4]);
    assert("Set_1"@[4] != "Set_3"@[4]);
    assert("Set_2"@[4] != "Set_3"@[4]);
}

} // verus!
