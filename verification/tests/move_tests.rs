use emerald_tools::importers::moves::{
    additional_effects, effect_list, handle_accuracy, handle_category, handle_changes,
    handle_crit_stage, handle_effects, handle_hit_count, handle_inverted_flags,
    handle_move_category, handle_power, handle_recoil, handle_simple_changes, handle_target,
    handle_type, has_key, move_effect_name, quality_kind, Context, InflictStatus, Move,
    MoveFields, QualityKind, StatAmps,
};
use emerald_tools::importers::tree_utils::{EntryNode, FieldMatch, TokenStart};
use emerald_tools::importers::{apply_edits, Edit, ImportError, Point, Range};

const MOVE_TEXT: &str = "{\n    .name = COMPOUND_STRING(\"Pound\"),\n    .effect = EFFECT_HIT,\n    .power = 40,\n    .type = TYPE_NORMAL,\n    .accuracy = 100,\n    .pp = 35,\n    .target = MOVE_TARGET_SELECTED,\n}";

fn point(text: &[u8], byte: usize) -> Point {
    let before = &text[..byte];
    let row = before.iter().filter(|b| **b == b'\n').count();
    let column = match before.iter().rposition(|b| *b == b'\n') {
        Some(p) => byte - p - 1,
        None => byte,
    };
    Point { row, column }
}

fn span(text: &[u8], start: usize, end: usize) -> Range {
    Range { start_byte: start, end_byte: end, start_point: point(text, start), end_point: point(text, end) }
}

fn entry_node(text: &str) -> EntryNode {
    let bytes = text.as_bytes();
    let mut matches = Vec::new();
    let mut offset = 0;
    for line in text.split_inclusive('\n') {
        let trimmed = line.trim_start();
        if trimmed.starts_with('.') {
            let indent = line.len() - trimmed.len();
            let eq = line.find(" = ").unwrap();
            let comma = line.rfind(',').unwrap();
            matches.push(FieldMatch {
                name_start: offset + indent + 1,
                name_end: offset + eq,
                value: span(bytes, offset + eq + 3, offset + comma),
            });
        }
        offset += line.len();
    }
    let close = text.rfind('}').unwrap();
    EntryNode { matches, last_token: Some(TokenStart { byte: close, point: point(bytes, close) }) }
}

fn value_span(text: &str, field: &str) -> Range {
    let key = format!(".{field} = ");
    let start = text.find(&key).unwrap() + key.len();
    let end = start + text[start..].find(",\n").unwrap();
    span(text.as_bytes(), start, end)
}

fn closing(text: &str) -> Range {
    let close = text.rfind('}').unwrap();
    span(text.as_bytes(), close, close)
}

fn fields() -> MoveFields {
    MoveFields {
        simple: vec![],
        flag_metronome: None,
        power: None,
        accuracy: None,
        crit_stage: None,
        move_type: None,
        category: None,
        recoil: None,
        quality: None,
        hit_min: None,
        hit_max: None,
        raw_target: None,
        move_category: None,
        flinch: None,
        flag_rechargeg: None,
        inflict_status: None,
        stat_amps: None,
    }
}

fn keys(ks: &[&str]) -> Vec<String> {
    ks.iter().map(|k| k.to_string()).collect()
}

fn no_stats() -> StatAmps {
    StatAmps {
        fstat1: "None".into(),
        fstat1_stage: 0,
        fstat1_percent: 0,
        fstat2: "None".into(),
        fstat2_stage: 0,
        fstat2_percent: 0,
        fstat3: "None".into(),
        fstat3_stage: 0,
        fstat3_percent: 0,
    }
}

fn no_status() -> InflictStatus {
    InflictStatus { status: "NONE".into(), chance: 0, turn1: 0, turn2: 0, turn3: 0 }
}

fn assert_edit(e: &Edit, range: Range, replace: &str) {
    assert_eq!(e.range, range);
    assert_eq!(e.replace, replace);
}

fn inserted(field: &str, value: &str) -> String {
    format!("    .{field} = {value},\n    ")
}

fn with_context<R>(diff: &[&str], f: MoveFields, run: impl FnOnce(&Context) -> R) -> R {
    let node = entry_node(MOVE_TEXT);
    let diff_keys = keys(diff);
    let entry = Move { move_id: "Pound".into(), fields: f };
    let ctx = Context { node: &node, text: MOVE_TEXT.as_bytes(), diff_keys: &diff_keys, entry: &entry };
    run(&ctx)
}

#[test]
fn diff_keys_are_found() {
    let ks = keys(&["pp", "power"]);
    assert!(has_key(&ks, "power"));
    assert!(!has_key(&ks, "type"));
}

#[test]
fn power_is_read_unsigned() {
    let mut f = fields();
    f.power = Some(-56);
    let e = with_context(&["power"], f.clone(), |c| handle_power(c)).unwrap().unwrap();
    assert_edit(&e, value_span(MOVE_TEXT, "power"), "200");
    f.power = Some(90);
    let e = with_context(&["power"], f.clone(), |c| handle_power(c)).unwrap().unwrap();
    assert_edit(&e, value_span(MOVE_TEXT, "power"), "90");
    assert!(with_context(&["pp"], f, |c| handle_power(c)).unwrap().is_none());
    let err = with_context(&["power"], fields(), |c| handle_power(c)).err().unwrap();
    assert_eq!(err, ImportError::MissingField("power".into()));
}

#[test]
fn accuracy_above_hundred_never_misses() {
    let mut f = fields();
    f.accuracy = Some(101);
    let e = with_context(&["accuracy"], f.clone(), |c| handle_accuracy(c)).unwrap().unwrap();
    assert_edit(&e, value_span(MOVE_TEXT, "accuracy"), "0");
    f.accuracy = Some(95);
    let e = with_context(&["accuracy"], f, |c| handle_accuracy(c)).unwrap().unwrap();
    assert_edit(&e, value_span(MOVE_TEXT, "accuracy"), "95");
}

#[test]
fn crit_stage_is_added_when_missing() {
    let mut f = fields();
    f.crit_stage = Some(6);
    let e = with_context(&["crit_stage"], f.clone(), |c| handle_crit_stage(c)).unwrap().unwrap();
    assert_edit(&e, closing(MOVE_TEXT), &inserted("criticalHitStage", "3"));
    f.crit_stage = Some(4);
    let e = with_context(&["crit_stage"], f.clone(), |c| handle_crit_stage(c)).unwrap().unwrap();
    assert_eq!(e.replace, inserted("criticalHitStage", "0"));
    f.crit_stage = Some(2);
    let e = with_context(&["crit_stage"], f, |c| handle_crit_stage(c)).unwrap().unwrap();
    assert_eq!(e.replace, inserted("criticalHitStage", "2"));
}

#[test]
fn type_and_category_constants() {
    let mut f = fields();
    f.move_type = Some("Fire".into());
    f.category = Some("Special".into());
    let e = with_context(&["type"], f.clone(), |c| handle_type(c)).unwrap().unwrap();
    assert_edit(&e, value_span(MOVE_TEXT, "type"), "TYPE_FIRE");
    let e = with_context(&["category"], f, |c| handle_category(c)).unwrap().unwrap();
    assert_edit(&e, closing(MOVE_TEXT), &inserted("category", "DAMAGE_CATEGORY_SPECIAL"));
}

#[test]
fn recoil_is_negated_or_absorbed() {
    let mut f = fields();
    f.recoil = Some(33);
    f.quality = Some("OnlyDMG".into());
    let es = with_context(&["recoil"], f.clone(), |c| handle_recoil(c)).unwrap();
    assert_eq!(es.len(), 1);
    assert_edit(&es[0], closing(MOVE_TEXT), &inserted("recoil", "-33"));
    f.recoil = Some(50);
    f.quality = Some("DAMAGEHeal".into());
    let es = with_context(&["recoil"], f.clone(), |c| handle_recoil(c)).unwrap();
    assert_eq!(es.len(), 2);
    assert_edit(&es[0], value_span(MOVE_TEXT, "effect"), "EFFECT_ABSORB");
    assert_edit(&es[1], closing(MOVE_TEXT), &inserted("argument", "50"));
    f.quality = None;
    let err = with_context(&["recoil"], f, |c| handle_recoil(c)).err().unwrap();
    assert_eq!(err, ImportError::MissingField("quality".into()));
    assert!(with_context(&[], fields(), |c| handle_recoil(c)).unwrap().is_empty());
}

#[test]
fn hit_counts() {
    let mut f = fields();
    f.hit_min = Some(2);
    f.hit_max = Some(5);
    let es = with_context(&["hit_max"], f.clone(), |c| handle_hit_count(c)).unwrap();
    assert_edit(&es[0], value_span(MOVE_TEXT, "effect"), "EFFECT_MULTI_HIT");
    f.hit_min = Some(3);
    f.hit_max = Some(3);
    let es = with_context(&["hit_min"], f.clone(), |c| handle_hit_count(c)).unwrap();
    assert_edit(&es[0], closing(MOVE_TEXT), &inserted("strikeCount", "3"));
    f.hit_max = Some(4);
    let err = with_context(&["hit_min"], f.clone(), |c| handle_hit_count(c)).err().unwrap();
    assert_eq!(err, ImportError::InvalidHitCount);
    f.hit_max = None;
    let err = with_context(&["hit_min"], f, |c| handle_hit_count(c)).err().unwrap();
    assert_eq!(err, ImportError::MissingField("hit_max".into()));
}

#[test]
fn targets() {
    let mut f = fields();
    f.raw_target = Some("AllFoes".into());
    let e = with_context(&["raw_target"], f.clone(), |c| handle_target(c)).unwrap().unwrap();
    assert_edit(&e, value_span(MOVE_TEXT, "target"), "MOVE_TARGET_BOTH");
    f.raw_target = Some("Self".into());
    let e = with_context(&["raw_target"], f.clone(), |c| handle_target(c)).unwrap().unwrap();
    assert_eq!(e.replace, "MOVE_TARGET_USER");
    f.raw_target = Some("Ally".into());
    let err = with_context(&["raw_target"], f, |c| handle_target(c)).err().unwrap();
    assert_eq!(err, ImportError::UnhandledTarget("Ally".into()));
}

#[test]
fn move_categories() {
    let mut f = fields();
    f.move_category = Some("AlwaysCritical".into());
    let e = with_context(&["move_category"], f.clone(), |c| handle_move_category(c)).unwrap().unwrap();
    assert_edit(&e, closing(MOVE_TEXT), &inserted("alwaysCriticalHit", "TRUE"));
    f.move_category = Some("StatusSelf".into());
    assert!(with_context(&["move_category"], f.clone(), |c| handle_move_category(c)).unwrap().is_none());
    f.move_category = Some("Weird".into());
    let err = with_context(&["move_category"], f, |c| handle_move_category(c)).err().unwrap();
    assert_eq!(err, ImportError::UnhandledMoveCategory("Weird".into()));
}

#[test]
fn metronome_flag_is_inverted() {
    let mut f = fields();
    f.flag_metronome = Some(true);
    let es = with_context(&["flag_metronome"], f.clone(), |c| handle_inverted_flags(c)).unwrap();
    assert_edit(&es[0], closing(MOVE_TEXT), &inserted("metronomeBanned", "FALSE"));
    f.flag_metronome = Some(false);
    let es = with_context(&["flag_metronome"], f, |c| handle_inverted_flags(c)).unwrap();
    assert_eq!(es[0].replace, inserted("metronomeBanned", "TRUE"));
}

#[test]
fn simple_fields_are_copied_in_table_order() {
    let mut f = fields();
    f.simple = vec![("contact".into(), "TRUE".into()), ("pp".into(), "20".into())];
    let es = with_context(&["contact", "pp"], f.clone(), |c| handle_simple_changes(c)).unwrap();
    assert_eq!(es.len(), 2);
    assert_edit(&es[0], value_span(MOVE_TEXT, "pp"), "20");
    assert_edit(&es[1], closing(MOVE_TEXT), &inserted("makesContact", "TRUE"));
    let err = with_context(&["priority"], f, |c| handle_simple_changes(c)).err().unwrap();
    assert_eq!(err, ImportError::MissingField("priority".into()));
}

#[test]
fn move_effect_names() {
    assert_eq!(move_effect_name("Attack", 2).unwrap(), "MOVE_EFFECT_ATK_PLUS_2");
    assert_eq!(move_effect_name("Speed", -1).unwrap(), "MOVE_EFFECT_SPD_MINUS_1");
    assert_eq!(move_effect_name("SpecialDefense", -2).unwrap(), "MOVE_EFFECT_SP_DEF_MINUS_2");
    assert_eq!(move_effect_name("Luck", 1).err().unwrap(), ImportError::UnexpectedStat("Luck".into()));
    assert_eq!(move_effect_name("Attack", 0).err().unwrap(), ImportError::ZeroStatChange);
}

#[test]
fn quality_kinds() {
    assert_eq!(quality_kind("OnlyDMG"), QualityKind::Damage);
    assert_eq!(quality_kind("DAMAGEHeal"), QualityKind::Damage);
    assert_eq!(quality_kind("OHKO"), QualityKind::Ohko);
    assert_eq!(quality_kind("STATUSStatChange"), QualityKind::Status);
    assert_eq!(quality_kind("Weather"), QualityKind::Unhandled);
}

fn effect_fields() -> MoveFields {
    let mut f = fields();
    f.quality = Some("DAMAGETARGETStat".into());
    f.flag_rechargeg = Some(true);
    f.flinch = Some(30);
    f.inflict_status = Some(InflictStatus { status: "Burn".into(), chance: 10, turn1: 0, turn2: 0, turn3: 0 });
    let mut sa = no_stats();
    sa.fstat1 = "Attack".into();
    sa.fstat1_stage = -1;
    sa.fstat1_percent = 100;
    f.stat_amps = Some(sa);
    f
}

const EFFECTS_TEXT: &str = "ADDITIONAL_EFFECTS({.moveEffect = MOVE_EFFECT_RECHARGE,.self = TRUE,},{.moveEffect = MOVE_EFFECT_FLINCH,.chance = 30,},{.moveEffect = MOVE_EFFECT_BURN,.chance = 10,},{.moveEffect = MOVE_EFFECT_ATK_MINUS_1,.chance = 100,},)";

#[test]
fn effect_lists_in_order() {
    let effects = effect_list(&effect_fields(), "DAMAGETARGETStat").unwrap().unwrap();
    assert_eq!(effects.len(), 4);
    assert_eq!(additional_effects(&effects), EFFECTS_TEXT);
    let mut f = effect_fields();
    f.inflict_status = Some(InflictStatus { status: "Sleep".into(), chance: 0, turn1: 1, turn2: 2, turn3: 3 });
    f.flag_rechargeg = Some(false);
    f.flinch = Some(0);
    let mut sa = no_stats();
    sa.fstat2 = "Speed".into();
    sa.fstat2_stage = 1;
    f.stat_amps = Some(sa);
    let effects = effect_list(&f, "DAMAGEUSERStat").unwrap().unwrap();
    assert_eq!(
        additional_effects(&effects),
        "ADDITIONAL_EFFECTS({.moveEffect = MOVE_EFFECT_SLEEP /* 1 2 3 */,},{.moveEffect = MOVE_EFFECT_SPD_PLUS_1,.self = TRUE,},)"
    );
    f.inflict_status = Some(InflictStatus { status: "Infatuation".into(), chance: 5, turn1: 0, turn2: 0, turn3: 0 });
    assert!(effect_list(&f, "DAMAGEUSERStat").unwrap().is_none());
    f.flinch = None;
    assert_eq!(effect_list(&f, "OnlyDMG").err().unwrap(), ImportError::MissingField("flinch".into()));
}

#[test]
fn effects_edits_by_quality() {
    let es = with_context(&["stat_amps"], effect_fields(), |c| handle_effects(c)).unwrap();
    assert_eq!(es.len(), 1);
    assert_edit(&es[0], closing(MOVE_TEXT), &inserted("additionalEffects", EFFECTS_TEXT));
    let mut f = effect_fields();
    f.quality = Some("STATUSStatChange".into());
    f.flag_rechargeg = Some(false);
    f.flinch = Some(0);
    f.inflict_status = Some(no_status());
    f.stat_amps = Some(no_stats());
    let es = with_context(&["quality"], f.clone(), |c| handle_effects(c)).unwrap();
    assert_eq!(es.len(), 1);
    assert_edit(&es[0], value_span(MOVE_TEXT, "effect"), "EFFECT_DO_NOTHING");
    f.quality = Some("Weather".into());
    assert!(with_context(&["quality"], f.clone(), |c| handle_effects(c)).unwrap().is_empty());
    assert!(with_context(&["pp"], f, |c| handle_effects(c)).unwrap().is_empty());
}

#[test]
fn changes_carry_over_a_move() {
    let node = entry_node(MOVE_TEXT);
    let diff = keys(&["power", "type", "pp"]);
    let mut f = fields();
    f.power = Some(50);
    f.move_type = Some("Water".into());
    f.simple = vec![("pp".into(), "25".into())];
    let modded = Move { move_id: "Pound".into(), fields: f };
    let edits = handle_changes(&diff, &modded, &node, MOVE_TEXT.as_bytes(), "Splash Hit", "It \"splashes\".").unwrap();
    assert_eq!(edits.len(), 5);
    assert_edit(&edits[0], value_span(MOVE_TEXT, "name"), "COMPOUND_STRING(\"Splash Hit\")");
    assert_edit(&edits[1], closing(MOVE_TEXT), &inserted("description", "COMPOUND_STRING(\"It \\\"splashes\\\".\")"));
    assert_edit(&edits[2], value_span(MOVE_TEXT, "pp"), "25");
    assert_edit(&edits[3], value_span(MOVE_TEXT, "power"), "50");
    assert_edit(&edits[4], value_span(MOVE_TEXT, "type"), "TYPE_WATER");
    let mut text = MOVE_TEXT.as_bytes().to_vec();
    let done = apply_edits(&mut text, edits).unwrap();
    assert_eq!(done.len(), 5);
    let out = String::from_utf8(text).unwrap();
    assert!(out.contains(".power = 50,\n"));
    assert!(out.contains(".type = TYPE_WATER,\n"));
    assert!(out.contains(".pp = 25,\n"));
    assert!(out.contains(".name = COMPOUND_STRING(\"Splash Hit\"),\n"));
    assert!(out.ends_with("    .description = COMPOUND_STRING(\"It \\\"splashes\\\".\"),\n    }"));
}

#[test]
fn changes_stop_at_the_first_failure() {
    let node = entry_node(MOVE_TEXT);
    let diff = keys(&["power", "raw_target"]);
    let mut f = fields();
    f.raw_target = Some("Ally".into());
    let modded = Move { move_id: "Pound".into(), fields: f };
    let err = handle_changes(&diff, &modded, &node, MOVE_TEXT.as_bytes(), "A", "B").err().unwrap();
    assert_eq!(err, ImportError::MissingField("power".into()));
}

#[test]
fn unreached_stages_may_be_anything() {
    let mut f = effect_fields();
    let mut sa = no_stats();
    sa.fstat1_stage = i16::MIN;
    sa.fstat2 = "Speed".into();
    sa.fstat2_stage = 2;
    sa.fstat3_stage = i16::MIN;
    f.stat_amps = Some(sa);
    assert!(with_context(&["pp"], f.clone(), |c| handle_effects(c)).unwrap().is_empty());
    let es = with_context(&["stat_amps"], f, |c| handle_effects(c)).unwrap();
    assert!(es[0].replace.contains("MOVE_EFFECT_SPD_PLUS_2"));
    let mut g = effect_fields();
    let mut sb = no_stats();
    sb.fstat1 = "Luck".into();
    sb.fstat2 = "Attack".into();
    sb.fstat2_stage = i16::MIN;
    g.stat_amps = Some(sb);
    assert_eq!(
        with_context(&["stat_amps"], g, |c| handle_effects(c)).err().unwrap(),
        ImportError::UnexpectedStat("Luck".into())
    );
    assert_eq!(move_effect_name("Luck", i16::MIN).err().unwrap(), ImportError::UnexpectedStat("Luck".into()));
}

#[test]
fn extreme_recoil_is_negated_only_when_reached() {
    let mut f = fields();
    f.recoil = Some(i16::MIN);
    f.quality = Some("DAMAGEHeal".into());
    let es = with_context(&["recoil"], f.clone(), |c| handle_recoil(c)).unwrap();
    assert_eq!(es[1].replace, inserted("argument", "-32768"));
    f.quality = Some("OnlyDMG".into());
    assert!(with_context(&["pp"], f, |c| handle_recoil(c)).unwrap().is_empty());
}
