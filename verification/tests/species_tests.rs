use emerald_tools::importers::species::{
    build_learnset, build_learnsets, evo_text, handle_abilities, handle_base_stats, handle_evos,
    handle_species, handle_types, learnset_name, nth_matching, teachable_name,
};
use emerald_tools::importers::tree_utils::{
    edit_field, field_edit, get_field, get_field_value, replace_range, EntryNode, FieldMatch,
    TokenStart,
};
use emerald_tools::importers::{
    apply_edits, edits_fit, sort_edits, try_apply_edits, Edit, EvoData, EvoParameter, ImportError, InputEdit, LevelUpMove,
    Personal, Point, Range, Species, Stats,
};

const SPECIES_TEXT: &str = "{\n    .baseHP = 45,\n    .baseAttack = 49,\n    .types = MON_TYPES(TYPE_GRASS),\n    .abilities = { ABILITY_OVERGROW, ABILITY_NONE, ABILITY_NONE },\n    .evolutions = NULL,\n}";

fn point(text: &[u8], byte: usize) -> Point {
    let before = &text[..byte];
    let row = before.iter().filter(|b| **b == b'\n').count();
    let column = match before.iter().rposition(|b| *b == b'\n') {
        Some(p) => byte - p - 1,
        None => byte,
    };
    Point { row, column }
}

fn span(text: &[u8], start: usize, end: usize) -> Range {
    Range { start_byte: start, end_byte: end, start_point: point(text, start), end_point: point(text, end) }
}

fn entry_node(text: &str) -> EntryNode {
    let bytes = text.as_bytes();
    let mut matches = Vec::new();
    let mut offset = 0;
    for line in text.split_inclusive('\n') {
        let trimmed = line.trim_start();
        if trimmed.starts_with('.') {
            let indent = line.len() - trimmed.len();
            let eq = line.find(" = ").unwrap();
            let comma = line.rfind(',').unwrap();
            matches.push(FieldMatch {
                name_start: offset + indent + 1,
                name_end: offset + eq,
                value: span(bytes, offset + eq + 3, offset + comma),
            });
        }
        offset += line.len();
    }
    let close = text.rfind('}').unwrap();
    EntryNode { matches, last_token: Some(TokenStart { byte: close, point: point(bytes, close) }) }
}

fn value_span(text: &str, field: &str) -> Range {
    let key = format!(".{field} = ");
    let start = text.find(&key).unwrap() + key.len();
    let end = start + text[start..].find(",\n").unwrap();
    span(text.as_bytes(), start, end)
}

fn closing(text: &str) -> Range {
    let close = text.rfind('}').unwrap();
    span(text.as_bytes(), close, close)
}

fn inserted(field: &str, value: &str) -> String {
    format!("    .{field} = {value},\n    ")
}

fn assert_edit(e: &Edit, range: Range, replace: &str) {
    assert_eq!(e.range, range);
    assert_eq!(e.replace, replace);
}

fn evo(condition: &str, level: u8, parameter: EvoParameter) -> EvoData {
    EvoData { level, condition: condition.into(), parameter, species: "Ivysaur".into(), form: 0 }
}

fn personal() -> Personal {
    Personal {
        species: Species { species: "Bulbasaur".into(), form: 0 },
        is_present: true,
        type_1: "Grass".into(),
        type_2: "Poison".into(),
        ability_1: "Overgrow".into(),
        ability_2: "Overgrow".into(),
        ability_hidden: "Chlorophyll".into(),
        base_stats: Stats { hp: 45, atk: 49, def: 49, spa: 65, spd: 65, spe: 300 },
        evo_data: vec![evo("LevelUp", 16, EvoParameter::Other)],
        tm_moves: vec!["Toxic".into(), "SolarBeam".into()],
        levelup_moves: vec![
            LevelUpMove { move_name: "VineWhip".into(), level: 3 },
            LevelUpMove { move_name: "Tackle".into(), level: 1 },
            LevelUpMove { move_name: "Growl".into(), level: 1 },
            LevelUpMove { move_name: "RazorLeaf".into(), level: 253 },
        ],
    }
}

#[test]
fn learnset_names() {
    let p = personal();
    assert_eq!(learnset_name(&p), "sBulbasaur0LevelUpLearnset");
    assert_eq!(teachable_name(&p), "sBulbasaur0TeachableLearnset");
}

#[test]
fn types_once_or_twice() {
    let node = entry_node(SPECIES_TEXT);
    let mut p = personal();
    let e = handle_types(&node, SPECIES_TEXT.as_bytes(), &p).unwrap().unwrap();
    assert_edit(&e, value_span(SPECIES_TEXT, "types"), "MON_TYPES(TYPE_GRASS, TYPE_POISON)");
    p.type_2 = "Grass".into();
    let e = handle_types(&node, SPECIES_TEXT.as_bytes(), &p).unwrap().unwrap();
    assert_eq!(e.replace, "MON_TYPES(TYPE_GRASS)");
}

#[test]
fn base_stats_are_capped_in_order() {
    let node = entry_node(SPECIES_TEXT);
    let es = handle_base_stats(&node, SPECIES_TEXT.as_bytes(), &personal()).unwrap();
    assert_eq!(es.len(), 6);
    assert_edit(&es[0], value_span(SPECIES_TEXT, "baseHP"), "45");
    assert_edit(&es[1], value_span(SPECIES_TEXT, "baseAttack"), "49");
    assert_edit(&es[2], closing(SPECIES_TEXT), &inserted("baseDefense", "49"));
    assert_eq!(es[3].replace, inserted("baseSpeed", "255"));
    assert_eq!(es[4].replace, inserted("baseSpAttack", "65"));
    assert_eq!(es[5].replace, inserted("baseSpDefense", "65"));
}

#[test]
fn abilities_list_with_overrides() {
    let node = entry_node(SPECIES_TEXT);
    let mut p = personal();
    let e = handle_abilities(&node, SPECIES_TEXT.as_bytes(), &p).unwrap();
    assert_edit(
        &e,
        value_span(SPECIES_TEXT, "abilities"),
        "{ ABILITY_OVERGROW, ABILITY_NONE, ABILITY_CHLOROPHYLL }",
    );
    p.ability_1 = "Brazen".into();
    p.ability_2 = "Ruthless".into();
    p.ability_hidden = "Brazen".into();
    let e = handle_abilities(&node, SPECIES_TEXT.as_bytes(), &p).unwrap();
    assert_eq!(e.replace, "{ ABILITY_IRON_FIST, ABILITY_SNIPER, ABILITY_NONE }");
}

#[test]
fn evolution_texts() {
    let sp = Some("SPECIES_IVYSAUR".to_string());
    let moves = vec!["Pound".to_string(), "RageFist".to_string()];
    assert_eq!(
        evo_text(&evo("LevelUp", 16, EvoParameter::Other), &sp, &moves).unwrap(),
        "{EVO_LEVEL, 16, SPECIES_IVYSAUR}"
    );
    assert_eq!(
        evo_text(&evo("LevelUp_Night", 20, EvoParameter::Other), &sp, &moves).unwrap(),
        "{EVO_LEVEL_NIGHT, 20, SPECIES_IVYSAUR}"
    );
    assert_eq!(
        evo_text(&evo("Spinning", 0, EvoParameter::Other), &sp, &moves).unwrap(),
        "{EVO_LEVEL, 0, SPECIES_IVYSAUR"
    );
    assert_eq!(
        evo_text(&evo("LevelUp_WithMove", 0, EvoParameter::Number(Some(1))), &sp, &moves).unwrap(),
        "{EVO_MOVE, MOVE_RAGE_FIST, SPECIES_IVYSAUR, 0}"
    );
    assert_eq!(
        evo_text(&evo("LevelUp_WithMove", 0, EvoParameter::Text("0".into())), &sp, &moves).unwrap(),
        "{EVO_MOVE, MOVE_POUND, SPECIES_IVYSAUR, 0}"
    );
    assert_eq!(evo_text(&evo("LevelUp_WithMove", 0, EvoParameter::Number(Some(5))), &sp, &moves), None);
    assert_eq!(
        evo_text(&evo("UseItem", 0, EvoParameter::Number(Some(252))), &sp, &moves).unwrap(),
        "{EVO_ITEM, ITEM_UPGRADE, SPECIES_IVYSAUR, 0}"
    );
    assert_eq!(evo_text(&evo("UseItem", 0, EvoParameter::Number(Some(1))), &sp, &moves), None);
    assert_eq!(
        evo_text(&evo("Use_RageFist", 0, EvoParameter::Other), &sp, &moves).unwrap(),
        "{EVO_USE_MOVE_TWENTY_TIMES, MOVE_RAGE_FIST, SPECIES_IVYSAUR}"
    );
    assert_eq!(evo_text(&evo("Trade", 0, EvoParameter::Other), &sp, &moves), None);
    assert_eq!(evo_text(&evo("LevelUp", 16, EvoParameter::Other), &None, &moves), None);
}

#[test]
fn evolutions_field() {
    let node = entry_node(SPECIES_TEXT);
    let mut p = personal();
    let sp = vec![Some("SPECIES_IVYSAUR".to_string())];
    let e = handle_evos(&node, SPECIES_TEXT.as_bytes(), &p, &sp, &[]).unwrap().unwrap();
    assert_edit(&e, value_span(SPECIES_TEXT, "evolutions"), "EVOLUTION({EVO_LEVEL, 16, SPECIES_IVYSAUR})");
    p.evo_data.push(evo("LevelUp_Day", 32, EvoParameter::Other));
    let sp2 = vec![Some("SPECIES_IVYSAUR".to_string()), Some("SPECIES_VENUSAUR".to_string())];
    let e = handle_evos(&node, SPECIES_TEXT.as_bytes(), &p, &sp2, &[]).unwrap().unwrap();
    assert_eq!(e.replace, "EVOLUTION({EVO_LEVEL, 16, SPECIES_IVYSAUR}, {EVO_LEVEL_DAY, 32, SPECIES_VENUSAUR})");
    let sp3 = vec![Some("SPECIES_IVYSAUR".to_string()), None];
    assert!(handle_evos(&node, SPECIES_TEXT.as_bytes(), &p, &sp3, &[]).unwrap().is_none());
    p.evo_data.clear();
    let e = handle_evos(&node, SPECIES_TEXT.as_bytes(), &p, &[], &[]).unwrap().unwrap();
    assert_eq!(e.replace, "NULL");
}

#[test]
fn nth_matching_counts_from_zero() {
    let ids = vec!["SPECIES_A".to_string(), "SPECIES_B".to_string(), "SPECIES_C".to_string()];
    let marks = [true, false, true];
    assert_eq!(nth_matching(&ids, &marks, 0), Some("SPECIES_A".to_string()));
    assert_eq!(nth_matching(&ids, &marks, 1), Some("SPECIES_C".to_string()));
    assert_eq!(nth_matching(&ids, &marks, 2), None);
}

#[test]
fn species_edits_in_order() {
    let node = entry_node(SPECIES_TEXT);
    let p = personal();
    let sp = vec![Some("SPECIES_IVYSAUR".to_string())];
    let es = handle_species(&node, SPECIES_TEXT.as_bytes(), &p, &sp, &[]).unwrap();
    assert_eq!(es.len(), 11);
    assert_eq!(es[0].replace, "MON_TYPES(TYPE_GRASS, TYPE_POISON)");
    assert_eq!(es[1].replace, "45");
    assert_eq!(es[7].replace, "EVOLUTION({EVO_LEVEL, 16, SPECIES_IVYSAUR})");
    assert_eq!(es[8].replace, "{ ABILITY_OVERGROW, ABILITY_NONE, ABILITY_CHLOROPHYLL }");
    assert_eq!(es[9].replace, inserted("levelUpLearnset", "sBulbasaur0LevelUpLearnset"));
    assert_eq!(es[10].replace, inserted("teachableLearnset", "sBulbasaur0TeachableLearnset"));
    let mut text = SPECIES_TEXT.as_bytes().to_vec();
    apply_edits(&mut text, es).unwrap();
    let out = String::from_utf8(text).unwrap();
    assert!(out.starts_with("{\n    .baseHP = 45,\n    .baseAttack = 49,\n    .types = MON_TYPES(TYPE_GRASS, TYPE_POISON),\n"));
    assert!(out.ends_with("    .teachableLearnset = sBulbasaur0TeachableLearnset,\n    }"));
}

#[test]
fn missing_closing_token_is_an_error() {
    let mut node = entry_node(SPECIES_TEXT);
    node.last_token = None;
    let err = handle_base_stats(&node, SPECIES_TEXT.as_bytes(), &personal()).err().unwrap();
    assert_eq!(err, ImportError::NoLastChild);
}

const LEARNSET: &str = "\nstatic const struct LevelUpMove sBulbasaur0LevelUpLearnset[] = {\n    {.move = MOVE_RAZOR_LEAF, .level = 0},\n    {.move = MOVE_TACKLE, .level = 1},\n    {.move = MOVE_GROWL, .level = 1},\n    {.move = MOVE_VINE_WHIP, .level = 3},\n\n    {.move = LEVEL_UP_MOVE_END, .level = 0}\n};\n\nstatic const u16 sBulbasaur0TeachableLearnset[] = {\n    MOVE_TOXIC,\n    MOVE_SOLAR_BEAM,\n\n    MOVE_UNAVAILABLE\n};";

#[test]
fn learnset_sorted_by_level_keeping_order() {
    assert_eq!(build_learnset(&personal()).unwrap(), LEARNSET);
}

#[test]
fn learnsets_of_present_species_only() {
    let mut absent = personal();
    absent.is_present = false;
    let out = build_learnsets(&[absent.clone(), personal(), absent]).unwrap();
    let head = "\nstatic const struct LevelUpMove sNoneLevelUpLearnset[] = {\n    {.move = MOVE_SYNTHESIS, .level = 1},\n    {.move = LEVEL_UP_MOVE_END, .level = 0},\n};\n\nstatic const u16 sNoneTeachableLearnset[] = {\n    MOVE_UNAVAILABLE,\n};\n\n";
    assert_eq!(out, format!("{head}{LEARNSET}\n    "));
    assert_eq!(build_learnsets(&[]).unwrap(), format!("{head}\n    "));
}

#[test]
fn fields_are_found_by_name() {
    let node = entry_node(SPECIES_TEXT);
    let t = SPECIES_TEXT.as_bytes();
    assert_eq!(get_field(&node.matches, t, "types"), Some(value_span(SPECIES_TEXT, "types")));
    assert_eq!(get_field(&node.matches, t, "baseSpeed"), None);
    assert_eq!(get_field_value(&node.matches, t, "baseAttack"), Some("49"));
    assert_eq!(get_field_value(&node.matches, t, "evolutions"), Some("NULL"));
    assert_eq!(get_field_value(&node.matches, t, "missing"), None);
}

#[test]
fn field_edits_replace_or_insert() {
    let node = entry_node(SPECIES_TEXT);
    let t = SPECIES_TEXT.as_bytes();
    let e = edit_field(&node, t, "baseHP", "50").unwrap();
    assert_edit(&e, value_span(SPECIES_TEXT, "baseHP"), "50");
    let e = edit_field(&node, t, "eggGroups", "EGG_GROUP_MONSTER").unwrap();
    assert_edit(&e, closing(SPECIES_TEXT), &inserted("eggGroups", "EGG_GROUP_MONSTER"));
    let token = TokenStart { byte: 3, point: Point { row: 0, column: 3 } };
    let e = field_edit(None, Some(token), "x", "1").unwrap();
    assert_eq!(e.range, Range { start_byte: 3, end_byte: 3, start_point: token.point, end_point: token.point });
    assert_eq!(field_edit(None, None, "x", "1").err().unwrap(), ImportError::NoLastChild);
}

#[test]
fn replace_range_reports_where_the_text_ends() {
    let mut text = b"ab\ncd".to_vec();
    let r = Range {
        start_byte: 1,
        end_byte: 4,
        start_point: Point { row: 0, column: 1 },
        end_point: Point { row: 1, column: 1 },
    };
    let ie = replace_range(&mut text, r, "XY\nZ\nW").unwrap();
    assert_eq!(text, b"aXY\nZ\nWd".to_vec());
    assert_eq!(
        ie,
        InputEdit {
            start_byte: 1,
            old_end_byte: 4,
            new_end_byte: 7,
            start_position: Point { row: 0, column: 1 },
            old_end_position: Point { row: 1, column: 1 },
            new_end_position: Point { row: 2, column: 1 },
        }
    );
    let mut text = b"hello".to_vec();
    let r = Range {
        start_byte: 2,
        end_byte: 2,
        start_point: Point { row: 4, column: 2 },
        end_point: Point { row: 4, column: 2 },
    };
    let ie = replace_range(&mut text, r, "--").unwrap();
    assert_eq!(text, b"he--llo".to_vec());
    assert_eq!(ie.new_end_position, Point { row: 4, column: 4 });
    assert_eq!(ie.new_end_byte, 4);
}

fn edit_at(start: usize, end: usize, replace: &str) -> Edit {
    let p = Point { row: 0, column: start };
    let q = Point { row: 0, column: end };
    Edit { range: Range { start_byte: start, end_byte: end, start_point: p, end_point: q }, replace: replace.into() }
}

#[test]
fn edits_sort_by_start_then_end_stably() {
    let sorted = sort_edits(vec![
        edit_at(5, 6, "a"),
        edit_at(1, 3, "b"),
        edit_at(1, 2, "c"),
        edit_at(5, 6, "d"),
        edit_at(0, 0, "e"),
    ]);
    let order: Vec<&str> = sorted.iter().map(|e| e.replace.as_str()).collect();
    assert_eq!(order, vec!["e", "c", "b", "a", "d"]);
}

#[test]
fn edits_apply_from_the_back() {
    let mut text = b"0123456789".to_vec();
    let done = apply_edits(&mut text, vec![edit_at(8, 9, "EIGHT"), edit_at(1, 2, "one"), edit_at(4, 4, "+")]).unwrap();
    assert_eq!(String::from_utf8(text).unwrap(), "0one23+4567EIGHT9");
    assert_eq!(done.len(), 3);
    assert_eq!(done[0].start_byte, 8);
    assert_eq!(done[0].new_end_byte, 13);
    assert_eq!(done[2].start_byte, 1);
    assert_eq!(done[2].new_end_byte, 4);
}

#[test]
fn evolution_parameters_parse_as_decimal() {
    let sp = Some("SPECIES_IVYSAUR".to_string());
    let moves = vec!["Pound".to_string(), "RageFist".to_string()];
    let with = |p: &str| evo_text(&evo("LevelUp_WithMove", 0, EvoParameter::Text(p.into())), &sp, &moves);
    assert_eq!(with("+1").unwrap(), "{EVO_MOVE, MOVE_RAGE_FIST, SPECIES_IVYSAUR, 0}");
    assert_eq!(with("001").unwrap(), "{EVO_MOVE, MOVE_RAGE_FIST, SPECIES_IVYSAUR, 0}");
    assert_eq!(with("1x"), None);
    assert_eq!(with(""), None);
    assert_eq!(with("+"), None);
    assert_eq!(with("-0"), None);
    assert_eq!(with("99999999999999999999999"), None);
}

#[test]
fn edits_are_checked_before_they_are_applied() {
    let text = b"0123456789".to_vec();
    assert!(edits_fit(&text, &sort_edits(vec![edit_at(8, 9, "EIGHT"), edit_at(1, 2, "one")])));
    assert!(!edits_fit(&text, &vec![edit_at(8, 12, "x")]));
    assert!(!edits_fit(&text, &vec![edit_at(5, 4, "x")]));
    assert!(edits_fit(&text, &vec![edit_at(0, 2, ""), edit_at(5, 10, "")]));
    assert!(!edits_fit(&text, &vec![edit_at(5, 10, ""), edit_at(0, 7, "")]));
    let mut t = text.clone();
    let done = try_apply_edits(&mut t, vec![edit_at(8, 9, "EIGHT"), edit_at(1, 2, "one")]).unwrap();
    assert_eq!(done.len(), 2);
    assert_eq!(String::from_utf8(t).unwrap(), "0one234567EIGHT9");
    let mut u = text.clone();
    assert!(try_apply_edits(&mut u, vec![edit_at(1, 2, "x"), edit_at(9, 11, "y")]).is_none());
    assert_eq!(u, text);
}
