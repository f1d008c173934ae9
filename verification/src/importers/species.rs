//! Edits to the C table of species and the learnset tables it names.
use super::moves::{extend_edits, extend_opt};
use super::text::{
    constant_case, decimal_u64, join, parse_usize, spec_parse_usize, push_str, spec_decimal,
    spec_join, str_eq, text, to_constant_case, to_uppercase, uppercase, views,
};
use super::tree_utils::{edit_field, spec_edit_field, EntryNode};
use super::{
    edit_is, edit_views, edits_are, opt_as_seq, one_as_seq, opt_edit_is, then_edits, Edit,
    EditView, EvoData, EvoParameter, ImportError, ImportErrorView, LevelUpMove, Personal,
};
use vstd::prelude::*;

verus! {

/// The name of the level-up learnset of a species.
pub open spec fn spec_learnset_name(entry: Personal) -> Seq<char> {
    "s"@ + entry.species.species@ + spec_decimal(entry.species.form as nat) + "LevelUpLearnset"@
}

/// The name of the teachable learnset of a species.
pub open spec fn spec_teachable_name(entry: Personal) -> Seq<char> {
    "s"@ + entry.species.species@ + spec_decimal(entry.species.form as nat)
        + "TeachableLearnset"@
}

/// The name of the level-up learnset of a species.
pub fn learnset_name(entry: &Personal) -> (res: String)
    ensures
        res@ == spec_learnset_name(*entry),
{
    let mut s = text("s");
    push_str(&mut s, entry.species.species.as_str());
    push_str(&mut s, decimal_u64(entry.species.form as u64).as_str());
    push_str(&mut s, "LevelUpLearnset");
    s
}

/// The name of the teachable learnset of a species.
pub fn teachable_name(entry: &Personal) -> (res: String)
    ensures
        res@ == spec_teachable_name(*entry),
{
    let mut s = text("s");
    push_str(&mut s, entry.species.species.as_str());
    push_str(&mut s, decimal_u64(entry.species.form as u64).as_str());
    push_str(&mut s, "TeachableLearnset");
    s
}

/// The edit that sets `field` of the species' initializer to `value`.
pub open spec fn spec_set(node: &EntryNode, text: Seq<u8>, field: Seq<char>, value: Seq<char>) -> Result<
    EditView,
    ImportErrorView,
> {
    spec_edit_field(node, text, field, value)
}

/// The types of a species: one type once, two types both.
pub open spec fn spec_types_value(entry: Personal) -> Seq<char> {
    if entry.type_1@ == entry.type_2@ {
        "MON_TYPES(TYPE_"@ + uppercase(entry.type_1@) + ")"@
    } else {
        "MON_TYPES(TYPE_"@ + uppercase(entry.type_1@) + ", TYPE_"@ + uppercase(entry.type_2@)
            + ")"@
    }
}

/// The edit of the types of a species.
pub fn handle_types(node: &EntryNode, text_bytes: &[u8], entry: &Personal) -> (res: Result<
    Option<Edit>,
    ImportError,
>)
    ensures
        opt_edit_is(
            res,
            match spec_set(node, text_bytes@, "types"@, spec_types_value(*entry)) {
                Ok(e) => Ok(Some(e)),
                Err(e) => Err(e),
            },
        ),
{
    let mut value = text("MON_TYPES(TYPE_");
    push_str(&mut value, to_uppercase(entry.type_1.as_str()).as_str());
    if entry.type_1 == entry.type_2 {
        push_str(&mut value, ")");
    } else {
        push_str(&mut value, ", TYPE_");
        push_str(&mut value, to_uppercase(entry.type_2.as_str()).as_str());
        push_str(&mut value, ")");
    }
    match edit_field(node, text_bytes, "types", value.as_str()) {
        Ok(e) => Ok(Some(e)),
        Err(e) => Err(e),
    }
}

/// A base stat as the C table holds it: at most 255.
pub open spec fn spec_capped(v: u16) -> nat {
    if v < 255 {
        v as nat
    } else {
        255
    }
}

/// The edits of the six base stats, in the order HP, attack, defense,
/// speed, special attack, special defense.
pub open spec fn spec_base_stats(node: &EntryNode, text: Seq<u8>, entry: Personal) -> Result<
    Seq<EditView>,
    ImportErrorView,
> {
    let s = entry.base_stats;
    then_edits(
        one_as_seq(spec_set(node, text, "baseHP"@, spec_decimal(spec_capped(s.hp)))),
        then_edits(
            one_as_seq(spec_set(node, text, "baseAttack"@, spec_decimal(spec_capped(s.atk)))),
            then_edits(
                one_as_seq(spec_set(node, text, "baseDefense"@, spec_decimal(spec_capped(s.def)))),
                then_edits(
                    one_as_seq(spec_set(node, text, "baseSpeed"@, spec_decimal(spec_capped(s.spe)))),
                    then_edits(
                        one_as_seq(
                            spec_set(node, text, "baseSpAttack"@, spec_decimal(spec_capped(s.spa))),
                        ),
                        one_as_seq(
                            spec_set(
                                node,
                                text,
                                "baseSpDefense"@,
                                spec_decimal(spec_capped(s.spd)),
                            ),
                        ),
                    ),
                ),
            ),
        ),
    )
}

fn capped(v: u16) -> (res: u64)
    ensures
        res == spec_capped(v),
{
    if v < 255 {
        v as u64
    } else {
        255
    }
}

fn push_one(edits: &mut Vec<Edit>, r: Result<Edit, ImportError>) -> (ok: Result<(), ImportError>)
    ensures
        r matches Ok(e) ==> ok is Ok && edit_views(final(edits)@) == edit_views(old(edits)@) + seq![
            (e.range, e.replace@),
        ],
        r matches Err(e) ==> ok == Err::<(), ImportError>(e),
{
    match r {
        Ok(e) => {
            let ghost prev = edits@;
            edits.push(e);
            assert(edit_views(edits@) =~= edit_views(prev) + seq![(e.range, e.replace@)]);
            Ok(())
        },
        Err(e) => Err(e),
    }
}

/// The edits of the six base stats.
pub fn handle_base_stats(node: &EntryNode, text_bytes: &[u8], entry: &Personal) -> (res: Result<
    Vec<Edit>,
    ImportError,
>)
    ensures
        edits_are(res, spec_base_stats(node, text_bytes@, *entry)),
{
    let s = entry.base_stats;
    let mut edits: Vec<Edit> = Vec::new();
    let ghost t = text_bytes@;
    let ghost e1 = one_as_seq(spec_set(node, t, "baseHP"@, spec_decimal(spec_capped(s.hp))));
    let ghost e2 = one_as_seq(spec_set(node, t, "baseAttack"@, spec_decimal(spec_capped(s.atk))));
    let ghost e3 = one_as_seq(spec_set(node, t, "baseDefense"@, spec_decimal(spec_capped(s.def))));
    let ghost e4 = one_as_seq(spec_set(node, t, "baseSpeed"@, spec_decimal(spec_capped(s.spe))));
    let ghost e5 = one_as_seq(spec_set(node, t, "baseSpAttack"@, spec_decimal(spec_capped(s.spa))));
    let ghost e6 = one_as_seq(
        spec_set(node, t, "baseSpDefense"@, spec_decimal(spec_capped(s.spd))),
    );
    push_one(&mut edits, edit_field(node, text_bytes, "baseHP", decimal_u64(capped(s.hp)).as_str()))?;
    push_one(
        &mut edits,
        edit_field(node, text_bytes, "baseAttack", decimal_u64(capped(s.atk)).as_str()),
    )?;
    push_one(
        &mut edits,
        edit_field(node, text_bytes, "baseDefense", decimal_u64(capped(s.def)).as_str()),
    )?;
    push_one(
        &mut edits,
        edit_field(node, text_bytes, "baseSpeed", decimal_u64(capped(s.spe)).as_str()),
    )?;
    push_one(
        &mut edits,
        edit_field(node, text_bytes, "baseSpAttack", decimal_u64(capped(s.spa)).as_str()),
    )?;
    push_one(
        &mut edits,
        edit_field(node, text_bytes, "baseSpDefense", decimal_u64(capped(s.spd)).as_str()),
    )?;
    proof {
        let v = edit_views(edits@);
        assert(v =~= seq![v[0]] + (seq![v[1]] + (seq![v[2]] + (seq![v[3]] + (seq![v[4]]
            + seq![v[5]])))));
    }
    Ok(edits)
}

/// Abilities that the exported data names otherwise than the C table:
/// the exported name and the name to use.
pub open spec fn ability_overrides() -> Seq<(Seq<char>, Seq<char>)> {
    seq![
        ("RapidFire"@, "Triage"@),
        ("Brazen"@, "Iron Fist"@),
        ("Amplifier"@, "Punk Rock"@),
        ("Ruthless"@, "Sniper"@),
        ("Headstrong"@, "Rock Head"@),
        ("SixthSense"@, "Compound Eyes"@),
        ("Elegance"@, "Queenly Majesty"@),
        ("Swiftness"@, "Armor Tail"@),
        ("Subterranean"@, "Earth Eater"@),
        ("LiquidVeil"@, "Water Bubble"@),
        ("Instinct"@, "Download"@),
        ("BruteForce"@, "Gorilla Tactics"@),
        ("Expertise"@, "Parental Bond"@),
        ("Hubris"@, "SoulHeart"@),
        ("Proficiency"@, "Beast Boost"@),
        ("Versatility"@, "Protean"@),
        ("EnergyShield"@, "ShadowShield"@),
        ("Permafrost"@, "Ice Scales"@),
        ("TacticalRetreat"@, "EmergencyExit"@),
        ("Resilient"@, "PrismArmor"@),
        ("Appetite"@, "Ripen"@),
        ("Barbed"@, "Iron Barbs"@),
        ("GrassyGuard"@, "GrassPelt"@),
        ("VoltRush"@, "SurgeSurfer"@),
        ("SolarRush"@, "Chlorophyll"@),
        ("GuardingGale"@, "DeltaStream"@),
        ("Camouflage"@, "Mimicry"@),
        ("Hypnotize"@, "WanderingSpirit"@),
        ("WellbakedBody"@, "WellBakedBody"@),
        ("RESERVED_307"@, "TeraShell"@),
        ("RESERVED_308"@, "TeraShift"@),
        ("RESERVED_309"@, "TeraformZero"@)
    ]
}

fn ability_override_entry(i: usize) -> (res: (&'static str, &'static str))
    requires
        i < 32,
    ensures
        (res.0@, res.1@) == ability_overrides()[i as int],
{
    let table: [(&'static str, &'static str); 32] = [
        ("RapidFire", "Triage"),
        ("Brazen", "Iron Fist"),
        ("Amplifier", "Punk Rock"),
        ("Ruthless", "Sniper"),
        ("Headstrong", "Rock Head"),
        ("SixthSense", "Compound Eyes"),
        ("Elegance", "Queenly Majesty"),
        ("Swiftness", "Armor Tail"),
        ("Subterranean", "Earth Eater"),
        ("LiquidVeil", "Water Bubble"),
        ("Instinct", "Download"),
        ("BruteForce", "Gorilla Tactics"),
        ("Expertise", "Parental Bond"),
        ("Hubris", "SoulHeart"),
        ("Proficiency", "Beast Boost"),
        ("Versatility", "Protean"),
        ("EnergyShield", "ShadowShield"),
        ("Permafrost", "Ice Scales"),
        ("TacticalRetreat", "EmergencyExit"),
        ("Resilient", "PrismArmor"),
        ("Appetite", "Ripen"),
        ("Barbed", "Iron Barbs"),
        ("GrassyGuard", "GrassPelt"),
        ("VoltRush", "SurgeSurfer"),
        ("SolarRush", "Chlorophyll"),
        ("GuardingGale", "DeltaStream"),
        ("Camouflage", "Mimicry"),
        ("Hypnotize", "WanderingSpirit"),
        ("WellbakedBody", "WellBakedBody"),
        ("RESERVED_307", "TeraShell"),
        ("RESERVED_308", "TeraShift"),
        ("RESERVED_309", "TeraformZero")
    ];
    table[i]
}

/// The name to use for an ability: its override where it has one, from
/// position `i` of `table` on.
pub open spec fn spec_override_from(table: Seq<(Seq<char>, Seq<char>)>, i: int, name: Seq<char>) -> Seq<char>
    decreases table.len() - i,
{
    if i < 0 || i >= table.len() {
        name
    } else if table[i].0 == name {
        table[i].1
    } else {
        spec_override_from(table, i + 1, name)
    }
}

/// The C constant of an ability: its name, overridden where the table
/// says so, in constant case.
pub open spec fn spec_ability_format(name: Seq<char>) -> Seq<char> {
    "ABILITY_"@ + constant_case(spec_override_from(ability_overrides(), 0, name))
}

fn ability_format(name: &str) -> (res: String)
    ensures
        res@ == spec_ability_format(name@),
{
    let ghost table = ability_overrides();
    let mut i: usize = 0;
    let mut chosen: &str = name;
    assert(table.len() == 32);
    while i < 32
        invariant
            i <= 32,
            table == ability_overrides(),
            table.len() == 32,
            chosen@ == name@,
            spec_override_from(table, 0, name@) == spec_override_from(table, i as int, name@),
        decreases 32 - i,
    {
        let (over, replacement) = ability_override_entry(i);
        if str_eq(over, name) {
            chosen = replacement;
            let mut res = text("ABILITY_");
            push_str(&mut res, to_constant_case(chosen).as_str());
            return res;
        }
        i = i + 1;
    }
    let mut res = text("ABILITY_");
    push_str(&mut res, to_constant_case(chosen).as_str());
    res
}

/// The three abilities of a species: the first, the second and the hidden
/// one, either of the last two none where it is the first again.
pub open spec fn spec_abilities_value(entry: Personal) -> Seq<char> {
    let a0 = spec_ability_format(entry.ability_1@);
    let a1 = if entry.ability_2@ != entry.ability_1@ {
        spec_ability_format(entry.ability_2@)
    } else {
        "ABILITY_NONE"@
    };
    let a2 = if entry.ability_hidden@ != entry.ability_1@ {
        spec_ability_format(entry.ability_hidden@)
    } else {
        "ABILITY_NONE"@
    };
    "{ "@ + spec_join(seq![a0, a1, a2], ", "@) + " }"@
}

/// The edit of the abilities of a species.
pub fn handle_abilities(node: &EntryNode, text_bytes: &[u8], entry: &Personal) -> (res: Result<
    Edit,
    ImportError,
>)
    ensures
        edit_is(res, spec_set(node, text_bytes@, "abilities"@, spec_abilities_value(*entry))),
{
    let a0 = ability_format(entry.ability_1.as_str());
    let a1 = if entry.ability_2 != entry.ability_1 {
        ability_format(entry.ability_2.as_str())
    } else {
        text("ABILITY_NONE")
    };
    let a2 = if entry.ability_hidden != entry.ability_1 {
        ability_format(entry.ability_hidden.as_str())
    } else {
        text("ABILITY_NONE")
    };
    let mut list: Vec<String> = Vec::new();
    list.push(a0);
    list.push(a1);
    list.push(a2);
    assert(views(list@) =~= seq![a0@, a1@, a2@]);
    let joined = join(&list, ", ");
    let mut value = text("{ ");
    push_str(&mut value, joined.as_str());
    push_str(&mut value, " }");
    edit_field(node, text_bytes, "abilities", value.as_str())
}

/// The number an evolution parameter gives, if any: a whole number as it
/// is, a text when it is a number in decimal.
pub open spec fn spec_param(p: EvoParameter) -> Option<usize> {
    match p {
        EvoParameter::Number(Some(n)) => Some(n as usize),
        EvoParameter::Text(t) => spec_parse_usize(t@),
        _ => None,
    }
}

fn param(p: &EvoParameter) -> (res: Option<usize>)
    ensures
        res == spec_param(*p),
{
    match p {
        EvoParameter::Number(Some(n)) => Some(*n as usize),
        EvoParameter::Text(t) => parse_usize(t.as_str()),
        _ => None,
    }
}

/// The C constant of an evolution item, by its number in the exported
/// data, for the items the importer knows.
pub open spec fn spec_item_name(index: usize) -> Option<Seq<char>> {
    if index == 83 {
        Some("ITEM_GALARICA_CUFF"@)
    } else if index == 84 {
        Some("ITEM_GALARICA_WREATH"@)
    } else if index == 324 {
        Some("ITEM_DUBIOUS_DISC"@)
    } else if index == 252 {
        Some("ITEM_UPGRADE"@)
    } else {
        None
    }
}

fn item_name(index: usize) -> (res: Option<&'static str>)
    ensures
        match spec_item_name(index) {
            Some(n) => res matches Some(r) && r@ == n,
            None => res is None,
        },
{
    if index == 83 {
        Some("ITEM_GALARICA_CUFF")
    } else if index == 84 {
        Some("ITEM_GALARICA_WREATH")
    } else if index == 324 {
        Some("ITEM_DUBIOUS_DISC")
    } else if index == 252 {
        Some("ITEM_UPGRADE")
    } else {
        None
    }
}

/// `{METHOD, level, species}`.
pub open spec fn spec_level_evo(method: Seq<char>, level: u8, species: Seq<char>) -> Seq<char> {
    "{"@ + method + ", "@ + spec_decimal(level as nat) + ", "@ + species + "}"@
}

/// The C initializer of one evolution into `species` (the species that the
/// evolution names, where one matches it), or none where the importer does
/// not handle it.
pub open spec fn spec_evo_text(evo: EvoData, species: Option<Seq<char>>, moves: Seq<String>) -> Option<
    Seq<char>,
> {
    match species {
        None => None,
        Some(sp) => {
            let c = evo.condition@;
            let level = evo.level;
            if c == "LevelUp"@ {
                Some(spec_level_evo("EVO_LEVEL"@, level, sp))
            } else if c == "LevelUp_Female"@ || c == "LevelUp_Female_Meowstic"@ {
                Some(spec_level_evo("EVO_LEVEL_FEMALE"@, level, sp))
            } else if c == "LevelUp_Male"@ {
                Some(spec_level_evo("EVO_LEVEL_MALE"@, level, sp))
            } else if c == "LevelUp_Night"@ {
                Some(spec_level_evo("EVO_LEVEL_NIGHT"@, level, sp))
            } else if c == "LevelUp_Day"@ {
                Some(spec_level_evo("EVO_LEVEL_DAY"@, level, sp))
            } else if c == "EncryptionConstant_Match2"@ {
                Some(spec_level_evo("EVO_LEVEL_FAMILY_OF_THREE"@, level, sp))
            } else if c == "EncryptionConstant_Mismatch2"@ {
                Some(spec_level_evo("EVO_LEVEL_FAMILY_OF_FOUR"@, level, sp))
            } else if c == "Spinning"@ {
                Some("{EVO_LEVEL, 0, "@ + sp)
            } else if c == "LevelUp_WithMove"@ {
                match spec_param(evo.parameter) {
                    None => None,
                    Some(p) => if p < moves.len() {
                        Some(
                            "{EVO_MOVE, MOVE_"@ + constant_case(moves[p as int]@) + ", "@ + sp
                                + ", "@ + spec_decimal(level as nat) + "}"@,
                        )
                    } else {
                        None
                    },
                }
            } else if c == "UseItem"@ {
                match spec_param(evo.parameter) {
                    None => None,
                    Some(p) => match spec_item_name(p) {
                        None => None,
                        Some(item) => Some(
                            "{EVO_ITEM, "@ + item + ", "@ + sp + ", "@ + spec_decimal(level as nat)
                                + "}"@,
                        ),
                    },
                }
            } else if c == "Use_RageFist"@ {
                Some("{EVO_USE_MOVE_TWENTY_TIMES, MOVE_RAGE_FIST, "@ + sp + "}"@)
            } else if c == "LevelUp_DefeatBisharp_HoldingLeadersCrest"@ {
                Some("{EVO_DEFEAT_THREE_WITH_ITEM, ITEM_LEADERS_CREST, SPECIES_KINGAMBIT}"@)
            } else if c == "LevelUp_Dusk_WithOwnTempo"@ {
                Some("{EVO_LEVEL_DUSK, 25, SPECIES_LYCANROC_DUSK}"@)
            } else {
                None
            }
        },
    }
}

fn level_evo(method: &str, level: u8, species: &str) -> (res: String)
    ensures
        res@ == spec_level_evo(method@, level, species@),
{
    let mut s = text("{");
    push_str(&mut s, method);
    push_str(&mut s, ", ");
    push_str(&mut s, decimal_u64(level as u64).as_str());
    push_str(&mut s, ", ");
    push_str(&mut s, species);
    push_str(&mut s, "}");
    s
}

/// The C initializer of one evolution; see [`spec_evo_text`].
pub fn evo_text(evo: &EvoData, species: &Option<String>, moves: &[String]) -> (res: Option<String>)
    ensures
        match spec_evo_text(
            *evo,
            match species {
                Some(s) => Some(s@),
                None => None,
            },
            moves@,
        ) {
            Some(t) => res matches Some(r) && r@ == t,
            None => res is None,
        },
{
    let sp = match species {
        Some(s) => s.as_str(),
        None => return None,
    };
    let c = evo.condition.as_str();
    let level = evo.level;
    if str_eq(c, "LevelUp") {
        Some(level_evo("EVO_LEVEL", level, sp))
    } else if str_eq(c, "LevelUp_Female") || str_eq(c, "LevelUp_Female_Meowstic") {
        Some(level_evo("EVO_LEVEL_FEMALE", level, sp))
    } else if str_eq(c, "LevelUp_Male") {
        Some(level_evo("EVO_LEVEL_MALE", level, sp))
    } else if str_eq(c, "LevelUp_Night") {
        Some(level_evo("EVO_LEVEL_NIGHT", level, sp))
    } else if str_eq(c, "LevelUp_Day") {
        Some(level_evo("EVO_LEVEL_DAY", level, sp))
    } else if str_eq(c, "EncryptionConstant_Match2") {
        Some(level_evo("EVO_LEVEL_FAMILY_OF_THREE", level, sp))
    } else if str_eq(c, "EncryptionConstant_Mismatch2") {
        Some(level_evo("EVO_LEVEL_FAMILY_OF_FOUR", level, sp))
    } else if str_eq(c, "Spinning") {
        let mut s = text("{EVO_LEVEL, 0, ");
        push_str(&mut s, sp);
        Some(s)
    } else if str_eq(c, "LevelUp_WithMove") {
        let p = param(&evo.parameter)?;
        if p >= moves.len() {
            return None;
        }
        let move_name = to_constant_case(moves[p].as_str());
        let mut s = text("{EVO_MOVE, MOVE_");
        push_str(&mut s, move_name.as_str());
        push_str(&mut s, ", ");
        push_str(&mut s, sp);
        push_str(&mut s, ", ");
        push_str(&mut s, decimal_u64(level as u64).as_str());
        push_str(&mut s, "}");
        Some(s)
    } else if str_eq(c, "UseItem") {
        let index = param(&evo.parameter)?;
        let item = item_name(index)?;
        let mut s = text("{EVO_ITEM, ");
        push_str(&mut s, item);
        push_str(&mut s, ", ");
        push_str(&mut s, sp);
        push_str(&mut s, ", ");
        push_str(&mut s, decimal_u64(level as u64).as_str());
        push_str(&mut s, "}");
        Some(s)
    } else if str_eq(c, "Use_RageFist") {
        let mut s = text("{EVO_USE_MOVE_TWENTY_TIMES, MOVE_RAGE_FIST, ");
        push_str(&mut s, sp);
        push_str(&mut s, "}");
        Some(s)
    } else if str_eq(c, "LevelUp_DefeatBisharp_HoldingLeadersCrest") {
        Some(text("{EVO_DEFEAT_THREE_WITH_ITEM, ITEM_LEADERS_CREST, SPECIES_KINGAMBIT}"))
    } else if str_eq(c, "LevelUp_Dusk_WithOwnTempo") {
        Some(text("{EVO_LEVEL_DUSK, 25, SPECIES_LYCANROC_DUSK}"))
    } else {
        None
    }
}

/// The texts of optional species.
pub open spec fn opt_views(s: Seq<Option<String>>) -> Seq<Option<Seq<char>>> {
    s.map_values(
        |o: Option<String>|
            match o {
                Some(x) => Some(x@),
                None => None,
            },
    )
}

/// The initializers of the first `n` evolutions, or none where one of them
/// is not handled.
pub open spec fn spec_evo_list(
    evos: Seq<EvoData>,
    species: Seq<Option<Seq<char>>>,
    moves: Seq<String>,
    n: int,
) -> Option<Seq<Seq<char>>>
    decreases n,
{
    if n <= 0 {
        Some(Seq::empty())
    } else {
        match spec_evo_list(evos, species, moves, n - 1) {
            None => None,
            Some(prev) => match spec_evo_text(evos[n - 1], species[n - 1], moves) {
                None => None,
                Some(t) => Some(prev.push(t)),
            },
        }
    }
}

/// The evolutions field of a species: `NULL` for none, else the list of
/// its evolutions.
pub open spec fn spec_evolutions_value(list: Seq<Seq<char>>) -> Seq<char> {
    if list.len() == 0 {
        "NULL"@
    } else {
        "EVOLUTION("@ + spec_join(list, ", "@) + ")"@
    }
}

/// The edit of the evolutions of a species, none where one of them is
/// not handled.
pub open spec fn spec_evos(
    node: &EntryNode,
    text: Seq<u8>,
    entry: Personal,
    species: Seq<Option<Seq<char>>>,
    moves: Seq<String>,
) -> Result<Option<EditView>, ImportErrorView> {
    match spec_evo_list(entry.evo_data@, species, moves, entry.evo_data@.len() as int) {
        None => Ok(None),
        Some(list) => match spec_set(node, text, "evolutions"@, spec_evolutions_value(list)) {
            Ok(e) => Ok(Some(e)),
            Err(e) => Err(e),
        },
    }
}

/// The edit of the evolutions of a species; `evo_species` holds, for each
/// evolution, the species constant it evolves into where one matches.
pub fn handle_evos(
    node: &EntryNode,
    text_bytes: &[u8],
    entry: &Personal,
    evo_species: &[Option<String>],
    moves: &[String],
) -> (res: Result<Option<Edit>, ImportError>)
    requires
        evo_species@.len() == entry.evo_data@.len(),
    ensures
        opt_edit_is(res, spec_evos(node, text_bytes@, *entry, opt_views(evo_species@), moves@)),
{
    let ghost sp = opt_views(evo_species@);
    let mut evos: Vec<String> = Vec::new();
    let mut i: usize = 0;
    let n = entry.evo_data.len();
    while i < n
        invariant
            i <= n,
            n == entry.evo_data@.len(),
            evo_species@.len() == n,
            sp == opt_views(evo_species@),
            spec_evo_list(entry.evo_data@, sp, moves@, i as int) == Some(views(evos@)),
        decreases n - i,
    {
        match evo_text(&entry.evo_data[i], &evo_species[i], moves) {
            Some(t) => {
                let ghost prev = evos@;
                evos.push(t);
                assert(views(evos@) =~= views(prev).push(t@));
            },
            None => {
                proof {
                    let mut k: int = i + 1;
                    assert(spec_evo_list(entry.evo_data@, sp, moves@, k) is None);
                    lemma_evo_list_none(entry.evo_data@, sp, moves@, k, n as int);
                }
                return Ok(None);
            },
        }
        i = i + 1;
    }
    let value = if evos.len() == 0 {
        text("NULL")
    } else {
        let mut v = text("EVOLUTION(");
        push_str(&mut v, join(&evos, ", ").as_str());
        push_str(&mut v, ")");
        v
    };
    match edit_field(node, text_bytes, "evolutions", value.as_str()) {
        Ok(e) => Ok(Some(e)),
        Err(e) => Err(e),
    }
}

proof fn lemma_evo_list_none(
    evos: Seq<EvoData>,
    species: Seq<Option<Seq<char>>>,
    moves: Seq<String>,
    k: int,
    n: int,
)
    requires
        0 <= k <= n,
        spec_evo_list(evos, species, moves, k) is None,
    ensures
        spec_evo_list(evos, species, moves, n) is None,
    decreases n - k,
{
    if k < n {
        lemma_evo_list_none(evos, species, moves, k + 1, n);
    }
}

/// The position of the `n`-th of `ids` that `matches` marks, counting
/// from 0.
pub open spec fn spec_nth_matching(matches: Seq<bool>, n: int, from: int) -> Option<int>
    decreases matches.len() - from,
{
    if from < 0 || from >= matches.len() {
        None
    } else if matches[from] {
        if n == 0 {
            Some(from)
        } else {
            spec_nth_matching(matches, n - 1, from + 1)
        }
    } else {
        spec_nth_matching(matches, n, from + 1)
    }
}

/// The `n`-th of `ids` (counting from 0) among those that `matches` marks.
pub fn nth_matching(ids: &[String], matches: &[bool], n: usize) -> (res: Option<String>)
    requires
        ids@.len() == matches@.len(),
    ensures
        match spec_nth_matching(matches@, n as int, 0) {
            Some(i) => res matches Some(s) && s@ == ids@[i]@,
            None => res is None,
        },
{
    let mut i: usize = 0;
    let mut left: usize = n;
    while i < ids.len()
        invariant
            i <= ids.len(),
            ids@.len() == matches@.len(),
            spec_nth_matching(matches@, n as int, 0) == spec_nth_matching(
                matches@,
                left as int,
                i as int,
            ),
        decreases ids.len() - i,
    {
        if matches[i] {
            if left == 0 {
                return Some(text(ids[i].as_str()));
            }
            left = left - 1;
        }
        i = i + 1;
    }
    None
}

/// Every edit of a species: its types, base stats, evolutions, abilities
/// and the names of its two learnsets, in that order; the first failure
/// wins.
pub open spec fn spec_species(
    node: &EntryNode,
    text: Seq<u8>,
    entry: Personal,
    species: Seq<Option<Seq<char>>>,
    moves: Seq<String>,
) -> Result<Seq<EditView>, ImportErrorView> {
    then_edits(
        opt_as_seq(
            match spec_set(node, text, "types"@, spec_types_value(entry)) {
                Ok(e) => Ok(Some(e)),
                Err(e) => Err(e),
            },
        ),
        then_edits(
            spec_base_stats(node, text, entry),
            then_edits(
                opt_as_seq(spec_evos(node, text, entry, species, moves)),
                then_edits(
                    one_as_seq(spec_set(node, text, "abilities"@, spec_abilities_value(entry))),
                    then_edits(
                        one_as_seq(
                            spec_set(node, text, "levelUpLearnset"@, spec_learnset_name(entry)),
                        ),
                        one_as_seq(
                            spec_set(node, text, "teachableLearnset"@, spec_teachable_name(entry)),
                        ),
                    ),
                ),
            ),
        ),
    )
}

proof fn lemma_step(acc: Seq<EditView>, step: Result<Seq<EditView>, ImportErrorView>, rest: Result<
    Seq<EditView>,
    ImportErrorView,
>)
    requires
        step is Ok,
    ensures
        then_edits(Ok(acc), then_edits(step, rest)) == then_edits(Ok(acc + step->Ok_0), rest),
{
    super::lemma_then_ok_assoc(acc, step->Ok_0, rest);
}

/// Every edit that carries the data of a species into its C initializer
/// `node`; `evo_species` holds, for each evolution, the species constant
/// it evolves into where one matches.
pub fn handle_species(
    node: &EntryNode,
    text_bytes: &[u8],
    entry: &Personal,
    evo_species: &[Option<String>],
    moves: &[String],
) -> (res: Result<Vec<Edit>, ImportError>)
    requires
        evo_species@.len() == entry.evo_data@.len(),
    ensures
        edits_are(res, spec_species(node, text_bytes@, *entry, opt_views(evo_species@), moves@)),
{
    let ghost t = text_bytes@;
    let ghost sp = opt_views(evo_species@);
    let ghost r6 = one_as_seq(spec_set(node, t, "teachableLearnset"@, spec_teachable_name(*entry)));
    let ghost r5 = then_edits(
        one_as_seq(spec_set(node, t, "levelUpLearnset"@, spec_learnset_name(*entry))),
        r6,
    );
    let ghost r4 = then_edits(
        one_as_seq(spec_set(node, t, "abilities"@, spec_abilities_value(*entry))),
        r5,
    );
    let ghost r3 = then_edits(opt_as_seq(spec_evos(node, t, *entry, sp, moves@)), r4);
    let ghost r2 = then_edits(spec_base_stats(node, t, *entry), r3);
    let ghost total = spec_species(node, t, *entry, sp, moves@);
    let mut edits: Vec<Edit> = Vec::new();
    proof {
        super::lemma_then_empty(total);
        assert(edit_views(edits@) =~= Seq::<EditView>::empty());
    }
    extend_opt(&mut edits, handle_types(node, text_bytes, entry))?;
    proof {
        lemma_step(
            Seq::empty(),
            opt_as_seq(
                match spec_set(node, t, "types"@, spec_types_value(*entry)) {
                    Ok(e) => Ok(Some(e)),
                    Err(e) => Err(e),
                },
            ),
            r2,
        );
        assert(Seq::<EditView>::empty() + edit_views(edits@) =~= edit_views(edits@));
    }
    let ghost acc = edit_views(edits@);
    extend_edits(&mut edits, handle_base_stats(node, text_bytes, entry))?;
    proof {
        lemma_step(acc, spec_base_stats(node, t, *entry), r3);
    }
    let ghost acc = edit_views(edits@);
    extend_opt(&mut edits, handle_evos(node, text_bytes, entry, evo_species, moves))?;
    proof {
        lemma_step(acc, opt_as_seq(spec_evos(node, t, *entry, sp, moves@)), r4);
    }
    let ghost acc = edit_views(edits@);
    push_one(&mut edits, handle_abilities(node, text_bytes, entry))?;
    proof {
        lemma_step(
            acc,
            one_as_seq(spec_set(node, t, "abilities"@, spec_abilities_value(*entry))),
            r5,
        );
    }
    let ghost acc = edit_views(edits@);
    let lname = learnset_name(entry);
    push_one(&mut edits, edit_field(node, text_bytes, "levelUpLearnset", lname.as_str()))?;
    proof {
        lemma_step(
            acc,
            one_as_seq(spec_set(node, t, "levelUpLearnset"@, spec_learnset_name(*entry))),
            r6,
        );
    }
    let ghost acc = edit_views(edits@);
    let tname = teachable_name(entry);
    push_one(&mut edits, edit_field(node, text_bytes, "teachableLearnset", tname.as_str()))?;
    Ok(edits)
}

/// The level a move is learnt at in the C table: 253, learnt on
/// evolution, becomes 0.
pub open spec fn spec_c_level(level: u8) -> u8 {
    if level == 253 {
        0
    } else {
        level
    }
}

/// Where position `i`, of key `key`, goes among `order` (positions whose
/// keys `keys` gives) so that it follows every position of no greater key.
pub open spec fn level_insert_position(order: Seq<int>, keys: Seq<u8>, key: u8) -> int
    decreases order.len(),
{
    if order.len() == 0 {
        0
    } else if keys[order.last()] <= key {
        order.len() as int
    } else {
        level_insert_position(order.drop_last(), keys, key)
    }
}

/// The positions `0..n` ordered by `keys`, equal keys in their order: a
/// stable sort.
pub open spec fn level_order(keys: Seq<u8>, n: int) -> Seq<int>
    decreases n,
{
    if n <= 0 {
        Seq::empty()
    } else {
        let prev = level_order(keys, n - 1);
        prev.insert(level_insert_position(prev, keys, keys[n - 1]), n - 1)
    }
}

/// Where a position is inserted: after a position of no greater key,
/// before every position of a greater key.
proof fn lemma_level_insert_position_splits(order: Seq<int>, keys: Seq<u8>, key: u8)
    ensures
        0 <= level_insert_position(order, keys, key) <= order.len(),
        level_insert_position(order, keys, key) > 0 ==> keys[order[level_insert_position(
            order,
            keys,
            key,
        ) - 1]] <= key,
        forall|k: int|
            level_insert_position(order, keys, key) <= k < order.len() ==> keys[#[trigger] order[k]]
                > key,
    decreases order.len(),
{
    if order.len() > 0 && keys[order.last()] > key {
        lemma_level_insert_position_splits(order.drop_last(), keys, key);
        let p = level_insert_position(order.drop_last(), keys, key);
        assert forall|k: int| p <= k < order.len() implies keys[#[trigger] order[k]] > key by {
            if k < order.len() - 1 {
                assert(order[k] == order.drop_last()[k]);
            }
        }
    }
}

/// The moves of a learnset are listed by level: the order puts no move
/// after one of a greater level, keeps moves of the same level in the
/// order of the data, and lists each of the first `n` moves exactly once.
pub proof fn law_learnset_by_level(keys: Seq<u8>, n: int)
    requires
        0 <= n <= keys.len(),
    ensures
        level_order(keys, n).len() == n,
        forall|i: int, j: int|
            0 <= i < j < n ==> keys[#[trigger] level_order(keys, n)[i]] <= keys[
                #[trigger] level_order(keys, n)[j]
            ],
        forall|i: int, j: int|
            0 <= i < j < n && keys[#[trigger] level_order(keys, n)[i]] == keys[
                #[trigger] level_order(keys, n)[j]
            ] ==> level_order(keys, n)[i] < level_order(keys, n)[j],
        forall|i: int| 0 <= i < n ==> 0 <= #[trigger] level_order(keys, n)[i] < n,
        level_order(keys, n).to_multiset() == Seq::new(n as nat, |i: int| i).to_multiset(),
    decreases n,
{
    broadcast use vstd::seq_lib::to_multiset_build, vstd::seq_lib::to_multiset_insert;

    if n == 0 {
        assert(level_order(keys, n) =~= Seq::<int>::empty());
        assert(Seq::new(0nat, |i: int| i) =~= Seq::<int>::empty());
    } else {
        let prev = level_order(keys, n - 1);
        law_learnset_by_level(keys, n - 1);
        let key = keys[n - 1];
        lemma_level_insert_position_splits(prev, keys, key);
        let p = level_insert_position(prev, keys, key);
        let next = prev.insert(p, n - 1);
        assert(next == level_order(keys, n));
        assert forall|i: int, j: int| 0 <= i < j < n implies keys[#[trigger] next[i]] <= keys[
            #[trigger] next[j]
        ] by {
            if j < p {
                assert(next[i] == prev[i] && next[j] == prev[j]);
            } else if j == p {
                assert(next[i] == prev[i] && next[j] == n - 1);
                if i < p - 1 {
                    assert(keys[prev[i]] <= keys[prev[p - 1]]);
                }
            } else if i < p {
                assert(next[i] == prev[i] && next[j] == prev[j - 1]);
            } else if i == p {
                assert(next[i] == n - 1 && next[j] == prev[j - 1]);
            } else {
                assert(next[i] == prev[i - 1] && next[j] == prev[j - 1]);
            }
        }
        assert forall|i: int| 0 <= i < n implies 0 <= #[trigger] next[i] < n by {
            if i < p {
                assert(next[i] == prev[i]);
            } else if i > p {
                assert(next[i] == prev[i - 1]);
            }
        }
        assert forall|i: int, j: int|
            0 <= i < j < n && keys[#[trigger] next[i]] == keys[#[trigger] next[j]] implies next[i]
                < next[j] by {
            if j < p {
                assert(next[i] == prev[i] && next[j] == prev[j]);
            } else if j == p {
                assert(next[i] == prev[i] && next[j] == n - 1);
            } else if i < p {
                assert(next[i] == prev[i] && next[j] == prev[j - 1]);
            } else if i == p {
                assert(next[i] == n - 1 && next[j] == prev[j - 1]);
            } else {
                assert(next[i] == prev[i - 1] && next[j] == prev[j - 1]);
            }
        }
        assert(Seq::new((n - 1) as nat, |i: int| i).push(n - 1) =~= Seq::new(n as nat, |i: int| i));
    }
}

/// The C levels of a list of learnt moves.
pub open spec fn c_levels(moves: Seq<LevelUpMove>) -> Seq<u8> {
    moves.map_values(|m: LevelUpMove| spec_c_level(m.level))
}

/// One line of a level-up learnset.
pub open spec fn spec_levelup_line(m: LevelUpMove) -> Seq<char> {
    "    {.move = MOVE_"@ + constant_case(m.move_name@) + ", .level = "@ + spec_decimal(
        spec_c_level(m.level) as nat,
    ) + "},\n"@
}

/// The lines of the moves at `order` of `moves`.
pub open spec fn spec_levelup_lines(moves: Seq<LevelUpMove>, order: Seq<int>) -> Seq<char>
    decreases order.len(),
{
    if order.len() == 0 {
        Seq::empty()
    } else {
        spec_levelup_lines(moves, order.drop_last()) + spec_levelup_line(moves[order.last()])
    }
}

/// One line of a teachable learnset.
pub open spec fn spec_tm_line(tm: String) -> Seq<char> {
    "    MOVE_"@ + constant_case(tm@) + ",\n"@
}

/// The lines of a teachable learnset.
pub open spec fn spec_tm_lines(tms: Seq<String>) -> Seq<char>
    decreases tms.len(),
{
    if tms.len() == 0 {
        Seq::empty()
    } else {
        spec_tm_lines(tms.drop_last()) + spec_tm_line(tms.last())
    }
}

/// The C tables of the two learnsets of a species: the level-up moves by
/// level, then the teachable moves.
pub open spec fn spec_learnset(entry: Personal) -> Seq<char> {
    let moves = entry.levelup_moves@;
    "\nstatic const struct LevelUpMove "@ + spec_learnset_name(entry) + "[] = {\n"@
        + spec_levelup_lines(moves, level_order(c_levels(moves), moves.len() as int))
        + "\n    {.move = LEVEL_UP_MOVE_END, .level = 0}\n};\n\nstatic const u16 "@
        + spec_teachable_name(entry) + "[] = {\n"@ + spec_tm_lines(entry.tm_moves@)
        + "\n    MOVE_UNAVAILABLE\n};"@
}

fn c_level(level: u8) -> (res: u8)
    ensures
        res == spec_c_level(level),
{
    match level {
        253 => 0,
        n => n,
    }
}

fn sorted_levels(moves: &Vec<LevelUpMove>) -> (order: Vec<usize>)
    ensures
        order@.len() == moves@.len(),
        order@.map_values(|i: usize| i as int) == level_order(
            c_levels(moves@),
            moves@.len() as int,
        ),
        forall|j: int| 0 <= j < order@.len() ==> order@[j] < moves@.len(),
{
    let ghost keys = c_levels(moves@);
    let mut order: Vec<usize> = Vec::new();
    let mut i: usize = 0;
    while i < moves.len()
        invariant
            i <= moves.len(),
            keys == c_levels(moves@),
            order@.map_values(|k: usize| k as int) == level_order(keys, i as int),
            order@.len() == i,
            forall|j: int| 0 <= j < order@.len() ==> order@[j] < i,
        decreases moves.len() - i,
    {
        let key = c_level(moves[i].level);
        let ghost prev = order@.map_values(|k: usize| k as int);
        let mut pos = order.len();
        assert(prev.subrange(0, pos as int) =~= prev);
        while pos > 0
            invariant
                pos <= order.len(),
                i < moves.len(),
                keys == c_levels(moves@),
                key == keys[i as int],
                prev == order@.map_values(|k: usize| k as int),
                forall|j: int| 0 <= j < order@.len() ==> order@[j] < i,
                level_insert_position(prev, keys, key) == level_insert_position(
                    prev.subrange(0, pos as int),
                    keys,
                    key,
                ),
            ensures
                pos <= order.len(),
                level_insert_position(prev, keys, key) == pos,
            decreases pos,
        {
            let k = order[pos - 1];
            proof {
                assert(prev.subrange(0, pos as int).last() == k as int);
                assert(prev.subrange(0, pos as int).drop_last() =~= prev.subrange(0, pos - 1));
            }
            if c_level(moves[k].level) <= key {
                break;
            }
            pos = pos - 1;
        }
        order.insert(pos, i);
        proof {
            assert(order@.map_values(|k: usize| k as int) =~= prev.insert(pos as int, i as int));
        }
        i = i + 1;
    }
    order
}

/// The C tables of the two learnsets of a species.
pub fn build_learnset(entry: &Personal) -> (res: Result<String, ImportError>)
    ensures
        res matches Ok(s) && s@ == spec_learnset(*entry),
{
    let lvl_name = learnset_name(entry);
    let teach_name = teachable_name(entry);
    let moves = &entry.levelup_moves;
    let order = sorted_levels(moves);
    let ghost ord = order@.map_values(|k: usize| k as int);
    let mut lvlup = String::new();
    let mut i: usize = 0;
    assert(ord.subrange(0, 0) =~= Seq::<int>::empty());
    while i < order.len()
        invariant
            i <= order.len(),
            ord == order@.map_values(|k: usize| k as int),
            order@.len() == moves@.len(),
            forall|j: int| 0 <= j < order@.len() ==> order@[j] < moves@.len(),
            lvlup@ == spec_levelup_lines(moves@, ord.subrange(0, i as int)),
        decreases order.len() - i,
    {
        let m = &moves[order[i]];
        push_str(&mut lvlup, "    {.move = MOVE_");
        push_str(&mut lvlup, to_constant_case(m.move_name.as_str()).as_str());
        push_str(&mut lvlup, ", .level = ");
        push_str(&mut lvlup, decimal_u64(c_level(m.level) as u64).as_str());
        push_str(&mut lvlup, "},\n");
        proof {
            assert(ord.subrange(0, i + 1).drop_last() =~= ord.subrange(0, i as int));
            assert(ord.subrange(0, i + 1).last() == order@[i as int] as int);
        }
        i = i + 1;
    }
    assert(ord.subrange(0, order.len() as int) =~= ord);
    let tms_src = &entry.tm_moves;
    let mut tms = String::new();
    let mut k: usize = 0;
    assert(tms_src@.subrange(0, 0) =~= Seq::<String>::empty());
    while k < tms_src.len()
        invariant
            k <= tms_src.len(),
            tms@ == spec_tm_lines(tms_src@.subrange(0, k as int)),
        decreases tms_src.len() - k,
    {
        push_str(&mut tms, "    MOVE_");
        push_str(&mut tms, to_constant_case(tms_src[k].as_str()).as_str());
        push_str(&mut tms, ",\n");
        proof {
            assert(tms_src@.subrange(0, k + 1).drop_last() =~= tms_src@.subrange(0, k as int));
        }
        k = k + 1;
    }
    assert(tms_src@.subrange(0, tms_src.len() as int) =~= tms_src@);
    let mut out = text("\nstatic const struct LevelUpMove ");
    push_str(&mut out, lvl_name.as_str());
    push_str(&mut out, "[] = {\n");
    push_str(&mut out, lvlup.as_str());
    push_str(&mut out, "\n    {.move = LEVEL_UP_MOVE_END, .level = 0}\n};\n\nstatic const u16 ");
    push_str(&mut out, teach_name.as_str());
    push_str(&mut out, "[] = {\n");
    push_str(&mut out, tms.as_str());
    push_str(&mut out, "\n    MOVE_UNAVAILABLE\n};");
    Ok(out)
}

/// The learnsets of the species that are present, one after the other.
pub open spec fn spec_learnsets_body(entries: Seq<Personal>) -> Seq<char>
    decreases entries.len(),
{
    if entries.len() == 0 {
        Seq::empty()
    } else {
        spec_learnsets_body(entries.drop_last()) + if entries.last().is_present {
            spec_learnset(entries.last())
        } else {
            Seq::empty()
        }
    }
}

/// The learnset tables of every present species, after the tables of the
/// placeholder species.
pub open spec fn spec_learnsets(entries: Seq<Personal>) -> Seq<char> {
    "\nstatic const struct LevelUpMove sNoneLevelUpLearnset[] = {\n    {.move = MOVE_SYNTHESIS, .level = 1},\n    {.move = LEVEL_UP_MOVE_END, .level = 0},\n};\n\nstatic const u16 sNoneTeachableLearnset[] = {\n    MOVE_UNAVAILABLE,\n};\n\n"@
        + spec_learnsets_body(entries) + "\n    "@
}

/// The learnset tables of every present species.
pub fn build_learnsets(entries: &[Personal]) -> (res: Result<String, ImportError>)
    ensures
        res matches Ok(s) && s@ == spec_learnsets(entries@),
{
    let mut learnsets = String::new();
    let mut i: usize = 0;
    assert(entries@.subrange(0, 0) =~= Seq::<Personal>::empty());
    while i < entries.len()
        invariant
            i <= entries.len(),
            learnsets@ == spec_learnsets_body(entries@.subrange(0, i as int)),
        decreases entries.len() - i,
    {
        let ghost before = learnsets@;
        if entries[i].is_present {
            let one = build_learnset(&entries[i])?;
            push_str(&mut learnsets, one.as_str());
        } else {
            assert(learnsets@ =~= before + Seq::<char>::empty());
        }
        proof {
            assert(entries@.subrange(0, i + 1).drop_last() =~= entries@.subrange(0, i as int));
        }
        i = i + 1;
    }
    assert(entries@.subrange(0, entries.len() as int) =~= entries@);
    let mut out = text(
        "\nstatic const struct LevelUpMove sNoneLevelUpLearnset[] = {\n    {.move = MOVE_SYNTHESIS, .level = 1},\n    {.move = LEVEL_UP_MOVE_END, .level = 0},\n};\n\nstatic const u16 sNoneTeachableLearnset[] = {\n    MOVE_UNAVAILABLE,\n};\n\n",
    );
    push_str(&mut out, learnsets.as_str());
    push_str(&mut out, "\n    ");
    Ok(out)
}


/// A level-up evolution restricted to a gender is written with the method
/// of that gender, at its level and into its species: `LevelUp_Male` gives
/// `EVO_LEVEL_MALE`, `LevelUp_Female` (and Meowstic's) gives
/// `EVO_LEVEL_FEMALE`, and the two never give the same initializer.
pub proof fn law_gendered_evolutions(evo: EvoData, other: EvoData, sp: Seq<char>, moves: Seq<String>)
    ensures
        evo.condition@ == "LevelUp_Male"@ ==> spec_evo_text(evo, Some(sp), moves) == Some(
            "{EVO_LEVEL_MALE, "@ + spec_decimal(evo.level as nat) + ", "@ + sp + "}"@,
        ),
        evo.condition@ == "LevelUp_Female"@ || evo.condition@ == "LevelUp_Female_Meowstic"@
            ==> spec_evo_text(evo, Some(sp), moves) == Some(
            "{EVO_LEVEL_FEMALE, "@ + spec_decimal(evo.level as nat) + ", "@ + sp + "}"@,
        ),
        evo.condition@ == "LevelUp_Male"@ && (other.condition@ == "LevelUp_Female"@
            || other.condition@ == "LevelUp_Female_Meowstic"@) && other.level == evo.level
            ==> spec_evo_text(evo, Some(sp), moves) != spec_evo_text(other, Some(sp), moves),
{
    reveal_strlit("LevelUp");
    reveal_strlit("LevelUp_Male");
    reveal_strlit("LevelUp_Female");
    reveal_strlit("LevelUp_Female_Meowstic");
    reveal_strlit("EVO_LEVEL_MALE");
    reveal_strlit("EVO_LEVEL_FEMALE");
    reveal_strlit("{EVO_LEVEL_MALE, ");
    reveal_strlit("{EVO_LEVEL_FEMALE, ");
    reveal_strlit("{");
    reveal_strlit(", ");
    reveal_strlit("}");
    assert("LevelUp_Male"@[8] != "LevelUp_Female"@[8]);
    assert("LevelUp_Male"@.len() != "LevelUp_Female_Meowstic"@.len());
    assert("{"@ + "EVO_LEVEL_MALE"@ + ", "@ =~= "{EVO_LEVEL_MALE, "@);
    assert("{"@ + "EVO_LEVEL_FEMALE"@ + ", "@ =~= "{EVO_LEVEL_FEMALE, "@);
    let level = spec_decimal(evo.level as nat);
    assert(spec_level_evo("EVO_LEVEL_MALE"@, evo.level, sp) =~= "{EVO_LEVEL_MALE, "@ + level + ", "@
        + sp + "}"@);
    assert(spec_level_evo("EVO_LEVEL_FEMALE"@, evo.level, sp) =~= "{EVO_LEVEL_FEMALE, "@ + level
        + ", "@ + sp + "}"@);
    assert("LevelUp"@.len() == 7 && "LevelUp_Male"@.len() == 12 && "LevelUp_Female"@.len() == 14
        && "LevelUp_Female_Meowstic"@.len() == 23);
    let male = "{EVO_LEVEL_MALE, "@ + level + ", "@ + sp + "}"@;
    let female = "{EVO_LEVEL_FEMALE, "@ + level + ", "@ + sp + "}"@;
    assert(male.len() + 2 == female.len());
    if evo.condition@ == "LevelUp_Female"@ || evo.condition@ == "LevelUp_Female_Meowstic"@ {
        assert(evo.condition@ != "LevelUp"@);
        assert(spec_evo_text(evo, Some(sp), moves) == Some(spec_level_evo(
            "EVO_LEVEL_FEMALE"@,
            evo.level,
            sp,
        )));
    }
    if evo.condition@ == "LevelUp_Male"@ && (other.condition@ == "LevelUp_Female"@
        || other.condition@ == "LevelUp_Female_Meowstic"@) && other.level == evo.level {
        assert(other.condition@ != "LevelUp"@);
        assert(evo.condition@ != "LevelUp"@);
        assert(evo.condition@ != "LevelUp_Female"@ && evo.condition@ != "LevelUp_Female_Meowstic"@);
        assert(spec_evo_text(evo, Some(sp), moves) == Some(male));
        assert(spec_evo_text(other, Some(sp), moves) == Some(female));
        assert(male != female);
    }
}


/// Each plain, night and day level-up evolution is written with its own
/// method at its level and into its species: `LevelUp` gives `EVO_LEVEL`,
/// `LevelUp_Night` gives `EVO_LEVEL_NIGHT`, `LevelUp_Day` gives
/// `EVO_LEVEL_DAY`.
pub proof fn law_level_evolution_methods(evo: EvoData, sp: Seq<char>, moves: Seq<String>)
    ensures
        evo.condition@ == "LevelUp"@ ==> spec_evo_text(evo, Some(sp), moves) == Some(
            "{EVO_LEVEL, "@ + spec_decimal(evo.level as nat) + ", "@ + sp + "}"@,
        ),
        evo.condition@ == "LevelUp_Night"@ ==> spec_evo_text(evo, Some(sp), moves) == Some(
            "{EVO_LEVEL_NIGHT, "@ + spec_decimal(evo.level as nat) + ", "@ + sp + "}"@,
        ),
        evo.condition@ == "LevelUp_Day"@ ==> spec_evo_text(evo, Some(sp), moves) == Some(
            "{EVO_LEVEL_DAY, "@ + spec_decimal(evo.level as nat) + ", "@ + sp + "}"@,
        ),
{
    reveal_strlit("LevelUp");
    reveal_strlit("LevelUp_Male");
    reveal_strlit("LevelUp_Female");
    reveal_strlit("LevelUp_Female_Meowstic");
    reveal_strlit("LevelUp_Night");
    reveal_strlit("LevelUp_Day");
    reveal_strlit("EVO_LEVEL");
    reveal_strlit("EVO_LEVEL_NIGHT");
    reveal_strlit("EVO_LEVEL_DAY");
    reveal_strlit("{EVO_LEVEL, ");
    reveal_strlit("{EVO_LEVEL_NIGHT, ");
    reveal_strlit("{EVO_LEVEL_DAY, ");
    reveal_strlit("{");
    reveal_strlit(", ");
    reveal_strlit("}");
    assert("LevelUp"@.len() == 7 && "LevelUp_Male"@.len() == 12 && "LevelUp_Female"@.len() == 14
        && "LevelUp_Female_Meowstic"@.len() == 23 && "LevelUp_Night"@.len() == 13
        && "LevelUp_Day"@.len() == 11);
    assert("LevelUp_Night"@[8] != "LevelUp_Female"@[8]);
    let level = spec_decimal(evo.level as nat);
    assert(spec_level_evo("EVO_LEVEL"@, evo.level, sp) =~= "{EVO_LEVEL, "@ + level + ", "@ + sp
        + "}"@);
    assert(spec_level_evo("EVO_LEVEL_NIGHT"@, evo.level, sp) =~= "{EVO_LEVEL_NIGHT, "@ + level
        + ", "@ + sp + "}"@);
    assert(spec_level_evo("EVO_LEVEL_DAY"@, evo.level, sp) =~= "{EVO_LEVEL_DAY, "@ + level + ", "@
        + sp + "}"@);
}

} // verus!
