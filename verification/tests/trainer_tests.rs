use emerald_tools::importers::trainers::{
    max_ivs, pair_trainers, party_defs, party_member_text, pokemon, pokemon_override,
    stats_to_string, trainer, Move,
    Pokemon, Stats, Trainer, TrainerEntry,
};
use emerald_tools::importers::{ImportError, Personal, PersonalArray, Species, Stats as BaseStats};

fn mv(id: &str) -> Move {
    Move { move_id: id.into() }
}

fn member(poke_id: &str, ability: &str, gem: &str) -> Pokemon {
    Pokemon {
        poke_id: poke_id.into(),
        form_id: 0,
        item: "Leftovers".into(),
        level: 50,
        nature: "Adamant".into(),
        gem_type: gem.into(),
        move1: mv("Tackle"),
        move2: mv("ThunderShock"),
        move3: mv("Growl"),
        move4: mv("QuickAttack"),
        ability: ability.into(),
        iv_values: max_ivs(),
        effort_value: Stats { hp: 252, atk: 4, def: 0, spa: 0, spd: 0, spe: 252 },
    }
}

fn egg() -> Pokemon {
    member("Egg", "Set_1", "Default")
}

fn personal(species: &str) -> Personal {
    Personal {
        species: Species { species: species.into(), form: 0 },
        is_present: true,
        type_1: "Electric".into(),
        type_2: "Electric".into(),
        ability_1: "Static".into(),
        ability_2: "Static".into(),
        ability_hidden: "LightningRod".into(),
        base_stats: BaseStats { hp: 35, atk: 55, def: 40, spa: 50, spd: 50, spe: 90 },
        evo_data: vec![],
        tm_moves: vec![],
        levelup_moves: vec![],
    }
}

fn personal_data() -> PersonalArray {
    PersonalArray { entry: vec![personal("Bulbasaur"), personal("Pikachu")] }
}

const PIKACHU: &str = "\nSPECIES_PIKACHU @ ITEM_LEFTOVERS\nLevel: 50\nAbility: ABILITY_LIGHTNING_ROD\nIVs: 31 HP / 31 Atk / 31 Def / 31 SpA / 31 SpD / 31 Spe\nEVs: 252 HP / 4 Atk / 0 Def / 0 SpA / 0 SpD / 252 Spe\nNature: Adamant\nTera Type: Electric\n- MOVE_TACKLE\n- MOVE_THUNDER_SHOCK\n- MOVE_GROWL\n- MOVE_QUICK_ATTACK\n";

#[test]
fn stats_in_party_format() {
    assert_eq!(stats_to_string(&max_ivs()), "31 HP / 31 Atk / 31 Def / 31 SpA / 31 SpD / 31 Spe");
    let s = Stats { hp: 1, atk: 2, def: 3, spa: 4, spd: 5, spe: 6 };
    assert_eq!(stats_to_string(&s), "1 HP / 2 Atk / 3 Def / 4 SpA / 5 SpD / 6 Spe");
}

#[test]
fn member_in_party_format() {
    let p = member("Pikachu", "Set_3", "Electric");
    let sp = Some("SPECIES_PIKACHU".to_string());
    assert_eq!(pokemon(&p, &sp, &personal_data(), true).unwrap(), PIKACHU);
    let no_tera = pokemon(&p, &sp, &personal_data(), false).unwrap();
    assert_eq!(no_tera, PIKACHU.replace("Tera Type: Electric\n", ""));
    let plain = member("Pikachu", "Set_1", "Default");
    let text = pokemon(&plain, &sp, &personal_data(), true).unwrap();
    assert!(text.contains("\nAbility: ABILITY_STATIC\n"));
    assert!(!text.contains("Tera Type"));
}

#[test]
fn member_without_species_constant_gets_a_fallback() {
    let p = member("Pikachu", "Set_2", "Default");
    let text = pokemon(&p, &None, &personal_data(), true).unwrap();
    assert!(text.starts_with("\nSPECIES_PIKACHU /* Pikachu */ @ ITEM_LEFTOVERS\n"));
}

#[test]
fn member_errors() {
    assert_eq!(pokemon(&egg(), &None, &personal_data(), true).unwrap(), "");
    let unknown = member("Mew", "Set_1", "Default");
    assert_eq!(
        pokemon(&unknown, &None, &personal_data(), true).err().unwrap(),
        ImportError::UnknownPokemon("Mew".into())
    );
    let mut other_form = member("Pikachu", "Set_1", "Default");
    other_form.form_id = 1;
    assert_eq!(
        pokemon(&other_form, &None, &personal_data(), true).err().unwrap(),
        ImportError::UnknownPokemon("Pikachu".into())
    );
    let odd = member("Pikachu", "Set_4", "Default");
    assert_eq!(
        pokemon(&odd, &None, &personal_data(), true).err().unwrap(),
        ImportError::UnexpectedAbility("Set_4".into())
    );
}

#[test]
fn override_names_everything_in_constant_case() {
    let p = member("MrMime", "FilterIt", "Psychic");
    let text = pokemon_override(&p).unwrap();
    assert!(text.starts_with("\nSPECIES_MR_MIME @ ITEM_LEFTOVERS\nLevel: 50\nAbility: ABILITY_FILTER_IT\n"));
    assert!(text.contains("\nTera Type: Psychic\n- MOVE_TACKLE\n"));
    let q = member("MrMime", "FilterIt", "Default");
    assert!(!pokemon_override(&q).unwrap().contains("Tera Type"));
}

fn trainer_data(id: &str, battle: &str) -> Trainer {
    Trainer {
        tr_id: id.into(),
        change_gem: true,
        battle_type: battle.into(),
        poke1: member("Pikachu", "Set_3", "Electric"),
        poke2: egg(),
        poke3: egg(),
        poke4: egg(),
        poke5: egg(),
        poke6: egg(),
    }
}

fn entry(id: &str) -> TrainerEntry {
    TrainerEntry { id: id.into(), pic: "Youngster".into(), name: "Joey".into(), pokemon_override: vec![] }
}

fn species_ids() -> Vec<Option<String>> {
    let mut v = vec![Some("SPECIES_PIKACHU".to_string())];
    v.extend(std::iter::repeat(None).take(5));
    v
}

#[test]
fn trainer_in_party_format() {
    let text = trainer(&trainer_data("tr_a", "Double"), &entry("tr_a"), &species_ids(), &personal_data(), "TRAINER").unwrap();
    let expected = format!(
        "\n=== TRAINER_TR_A ===\nName: JOEY\nPic: Youngster\nGender: Male\nMusic: Female\nDouble Battle: Yes\nAI: Basic Trainer / Ace Pokemon\n\n{PIKACHU}\n"
    );
    assert_eq!(text, expected);
    let single = trainer(&trainer_data("tr_a", "Single"), &entry("tr_a"), &species_ids(), &personal_data(), "PARTNER").unwrap();
    assert!(single.starts_with("\n=== PARTNER_TR_A ===\n"));
    assert!(single.contains("\nDouble Battle: No\n"));
}

#[test]
fn overrides_replace_members() {
    let mut e = entry("tr_a");
    e.pokemon_override = vec![(0, member("Raichu", "Static", "Default")), (2, member("Eevee", "RunAway", "Normal"))];
    let text = trainer(&trainer_data("tr_a", "Single"), &e, &species_ids(), &personal_data(), "TRAINER").unwrap();
    assert!(!text.contains("SPECIES_PIKACHU"));
    let raichu = text.find("\nSPECIES_RAICHU @ ITEM_LEFTOVERS\n").unwrap();
    let eevee = text.find("\nSPECIES_EEVEE @ ITEM_LEFTOVERS\n").unwrap();
    assert!(raichu < eevee);
    assert!(text.contains("Ability: ABILITY_RUN_AWAY\n"));
    e.pokemon_override = vec![(6, member("Raichu", "Static", "Default"))];
    assert_eq!(
        trainer(&trainer_data("tr_a", "Single"), &e, &species_ids(), &personal_data(), "TRAINER").err().unwrap(),
        ImportError::BadOverrideIndex(6)
    );
}

#[test]
fn first_failing_member_fails_the_trainer() {
    let mut t = trainer_data("tr_a", "Single");
    t.poke3 = member("Mew", "Set_1", "Default");
    t.poke5 = member("Pikachu", "Set_9", "Default");
    assert_eq!(
        trainer(&t, &entry("tr_a"), &species_ids(), &personal_data(), "TRAINER").err().unwrap(),
        ImportError::UnknownPokemon("Mew".into())
    );
}

#[test]
fn trainers_pair_with_their_first_entry() {
    let table = vec![trainer_data("a", "Single"), trainer_data("b", "Single"), trainer_data("c", "Single")];
    let entries = vec![entry("c"), entry("a"), entry("c")];
    assert_eq!(pair_trainers(&table, &entries), vec![(0, 1), (2, 0)]);
    assert_eq!(pair_trainers(&table, &[]), vec![]);
}

#[test]
fn party_definitions_of_paired_trainers() {
    let table = vec![trainer_data("a", "Single"), trainer_data("b", "Double")];
    let entries = vec![entry("b"), entry("zz")];
    let ids = vec![species_ids(), species_ids()];
    let out = party_defs(&table, &entries, &ids, &personal_data(), "TRAINER").unwrap();
    let one = trainer(&table[1], &entries[0], &ids[1], &personal_data(), "TRAINER").unwrap();
    assert_eq!(out, one);
    let both = vec![entry("a"), entry("b")];
    let out = party_defs(&table, &both, &ids, &personal_data(), "PARTNER").unwrap();
    assert!(out.starts_with("\n=== PARTNER_A ===\n"));
    assert!(out.contains("\n=== PARTNER_B ===\n"));
    assert_eq!(party_defs(&table, &[], &ids, &personal_data(), "TRAINER").unwrap(), "");
}

#[test]
fn member_text_from_constant_names() {
    let evs = Stats { hp: 0, atk: 252, def: 0, spa: 0, spd: 4, spe: 252 };
    let moves = vec!["TACKLE".to_string(), "EMBER".to_string()];
    let text = party_member_text("SPECIES_X", "NONE", 7, "BLAZE", &max_ivs(), &evs, "Bold", "Tera Type: Fire\n", &moves);
    assert_eq!(
        text,
        "\nSPECIES_X @ ITEM_NONE\nLevel: 7\nAbility: ABILITY_BLAZE\nIVs: 31 HP / 31 Atk / 31 Def / 31 SpA / 31 SpD / 31 Spe\nEVs: 0 HP / 252 Atk / 0 Def / 0 SpA / 4 SpD / 252 Spe\nNature: Bold\nTera Type: Fire\n- MOVE_TACKLE\n- MOVE_EMBER\n"
    );
    let none: Vec<String> = vec![];
    assert!(party_member_text("S", "I", 1, "A", &max_ivs(), &max_ivs(), "N", "", &none).ends_with("\nNature: N\n\n"));
}
