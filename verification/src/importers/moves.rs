//! Edits to the C table of moves that carry over a changed move.
use super::text::{
    decimal_i64, decimal_u64, push_str, spec_decimal, spec_signed_decimal, str_eq, text,
    to_debug_quoted, debug_quoted, to_uppercase, uppercase,
};
use super::tree_utils::{edit_field, spec_edit_field, EntryNode};
use super::{
    edit_is, edits_are, opt_edit_is, then_edits, opt_as_seq, one_as_seq, Edit, EditView,
    ImportError, ImportErrorView,
};
use vstd::prelude::*;

verus! {

/// The status a move inflicts and its chance.
#[derive(Clone, PartialEq, Eq, Debug)]
pub struct InflictStatus {
    pub status: String,
    pub chance: u16,
    pub turn1: u16,
    pub turn2: u16,
    pub turn3: u16,
}

/// Up to three stat changes a move makes.
#[derive(Clone, PartialEq, Eq, Debug)]
pub struct StatAmps {
    pub fstat1: String,
    pub fstat1_stage: i16,
    pub fstat1_percent: u16,
    pub fstat2: String,
    pub fstat2_stage: i16,
    pub fstat2_percent: u16,
    pub fstat3: String,
    pub fstat3_stage: i16,
    pub fstat3_percent: u16,
}

/// The exported data of a move; a field is `None` where the data lacks it.
#[derive(Clone, PartialEq, Eq, Debug)]
pub struct MoveFields {
    /// The text of each field that is copied as it stands, by key.
    pub simple: Vec<(String, String)>,
    pub flag_metronome: Option<bool>,
    pub power: Option<i8>,
    pub accuracy: Option<i32>,
    pub crit_stage: Option<i16>,
    pub move_type: Option<String>,
    pub category: Option<String>,
    pub recoil: Option<i16>,
    pub quality: Option<String>,
    pub hit_min: Option<u16>,
    pub hit_max: Option<u16>,
    pub raw_target: Option<String>,
    pub move_category: Option<String>,
    pub flinch: Option<u16>,
    pub flag_rechargeg: Option<bool>,
    pub inflict_status: Option<InflictStatus>,
    pub stat_amps: Option<StatAmps>,
}

/// A changed move.
#[derive(Clone, PartialEq, Eq, Debug)]
pub struct Move {
    pub move_id: String,
    pub fields: MoveFields,
}

/// The changed move, its C initializer and which of its fields changed.
pub struct Context<'a> {
    pub node: &'a EntryNode,
    pub text: &'a [u8],
    pub diff_keys: &'a [String],
    pub entry: &'a Move,
}

/// `keys` holds `k`.
pub open spec fn spec_has_key(keys: Seq<String>, k: Seq<char>) -> bool {
    exists|i: int| 0 <= i < keys.len() && (#[trigger] keys[i])@ == k
}

/// Whether `keys` holds `k`.
pub fn has_key(keys: &[String], k: &str) -> (res: bool)
    ensures
        res == spec_has_key(keys@, k@),
{
    let mut i: usize = 0;
    while i < keys.len()
        invariant
            i <= keys.len(),
            forall|j: int| 0 <= j < i ==> (#[trigger] keys@[j])@ != k@,
        decreases keys.len() - i,
    {
        if str_eq(keys[i].as_str(), k) {
            return true;
        }
        i = i + 1;
    }
    false
}

/// The failure for a field missing from the data.
pub open spec fn missing(name: Seq<char>) -> ImportErrorView {
    ImportErrorView::MissingField(name)
}

fn missing_field(name: &str) -> (res: ImportError)
    ensures
        res@ == missing(name@),
{
    ImportError::MissingField(text(name))
}

/// The edit that sets `field` of the move's initializer to `value`.
pub open spec fn spec_set(ctx: Context, field: Seq<char>, value: Seq<char>) -> Result<
    EditView,
    ImportErrorView,
> {
    spec_edit_field(ctx.node, ctx.text@, field, value)
}

/// The text of a field copied as it stands.
pub open spec fn spec_simple_value(simple: Seq<(String, String)>, key: Seq<char>) -> Option<
    Seq<char>,
>
    decreases simple.len(),
{
    if simple.len() == 0 {
        None
    } else if simple[0].0@ == key {
        Some(simple[0].1@)
    } else {
        spec_simple_value(simple.drop_first(), key)
    }
}

fn simple_value(simple: &Vec<(String, String)>, key: &str) -> (res: Result<String, ImportError>)
    ensures
        match spec_simple_value(simple@, key@) {
            Some(v) => res matches Ok(s) && s@ == v,
            None => res matches Err(e) && e@ == missing(key@),
        },
{
    let mut i: usize = 0;
    assert(simple@.subrange(0, simple.len() as int) =~= simple@);
    while i < simple.len()
        invariant
            i <= simple.len(),
            spec_simple_value(simple@, key@) == spec_simple_value(
                simple@.subrange(i as int, simple.len() as int),
                key@,
            ),
        decreases simple.len() - i,
    {
        let ghost rest = simple@.subrange(i as int, simple.len() as int);
        assert(rest[0] == simple@[i as int]);
        if str_eq(simple[i].0.as_str(), key) {
            return Ok(text(simple[i].1.as_str()));
        }
        assert(rest.drop_first() =~= simple@.subrange(i + 1, simple.len() as int));
        i = i + 1;
    }
    Err(missing_field(key))
}

/// The fields copied as they stand: the key in the data and the C field.
pub open spec fn simple_fields() -> Seq<(Seq<char>, Seq<char>)> {
    seq![
        ("pp"@, "pp"@),
        ("priority"@, "priority"@),
        ("drops_your_stats_flag"@, "punchingMove"@),
        ("flag_defrost"@, "thawsUser"@),
        ("flag_cant_use_twice"@, "cantUseTwice"@),
        ("flag_no_multi_hit"@, "parentalBondBanned"@),
        ("flag_gravity"@, "gravityBanned"@),
        ("sound_flag"@, "soundMove"@),
        ("rapid_fire_flag"@, "healingMove"@),
        ("sharpness_flag"@, "slicingMove"@),
        ("mega_launcher_flag"@, "pulseMove"@),
        ("bulletproof_flag"@, "ballisticMove"@),
        ("wind_flag"@, "windMove"@),
        ("contact"@, "makesContact"@),
    ]
}

/// The edits for the copied fields from position `i` of `fields` on: each
/// changed one is set to its text, in order; the first failure wins.
pub open spec fn spec_simple_changes_from(
    ctx: Context,
    fields: Seq<(Seq<char>, Seq<char>)>,
    i: int,
) -> Result<Seq<EditView>, ImportErrorView>
    decreases fields.len() - i,
{
    if i < 0 || i >= fields.len() {
        Ok(Seq::empty())
    } else {
        let (key, field) = fields[i];
        let rest = spec_simple_changes_from(ctx, fields, i + 1);
        if !spec_has_key(ctx.diff_keys@, key) {
            rest
        } else {
            match spec_simple_value(ctx.entry.fields.simple@, key) {
                None => Err(missing(key)),
                Some(v) => then_edits(one_as_seq(spec_set(ctx, field, v)), rest),
            }
        }
    }
}

/// The edits for the fields that are copied as they stand.
pub open spec fn spec_simple_changes(ctx: Context) -> Result<Seq<EditView>, ImportErrorView> {
    spec_simple_changes_from(ctx, simple_fields(), 0)
}

fn simple_field(i: usize) -> (res: (&'static str, &'static str))
    requires
        i < 14,
    ensures
        (res.0@, res.1@) == simple_fields()[i as int],
{
    let table: [(&'static str, &'static str); 14] = [
        ("pp", "pp"),
        ("priority", "priority"),
        ("drops_your_stats_flag", "punchingMove"),
        ("flag_defrost", "thawsUser"),
        ("flag_cant_use_twice", "cantUseTwice"),
        ("flag_no_multi_hit", "parentalBondBanned"),
        ("flag_gravity", "gravityBanned"),
        ("sound_flag", "soundMove"),
        ("rapid_fire_flag", "healingMove"),
        ("sharpness_flag", "slicingMove"),
        ("mega_launcher_flag", "pulseMove"),
        ("bulletproof_flag", "ballisticMove"),
        ("wind_flag", "windMove"),
        ("contact", "makesContact"),
    ];
    table[i]
}

/// The edits for the changed fields that are copied as they stand.
pub fn handle_simple_changes(context: &Context) -> (res: Result<Vec<Edit>, ImportError>)
    ensures
        edits_are(res, spec_simple_changes(*context)),
{
    let Context { node, text, diff_keys, entry } = *context;
    let mut edits: Vec<Edit> = Vec::new();
    let mut i: usize = 0;
    let ghost fields = simple_fields();
    assert(fields.len() == 14);
    proof {
        super::lemma_then_empty(spec_simple_changes(*context));
        assert(super::edit_views(edits@) =~= Seq::<EditView>::empty());
    }
    while i < 14
        invariant
            i <= 14,
            fields == simple_fields(),
            fields.len() == 14,
            node == context.node,
            text == context.text,
            diff_keys == context.diff_keys,
            entry == context.entry,
            then_edits(Ok(super::edit_views(edits@)), spec_simple_changes_from(*context, fields, i as int))
                == spec_simple_changes(*context),
        decreases 14 - i,
    {
        let (key, field) = simple_field(i);
        let ghost rest = spec_simple_changes_from(*context, fields, i + 1);
        if has_key(diff_keys, key) {
            let value = match simple_value(&entry.fields.simple, key) {
                Ok(v) => v,
                Err(e) => return Err(e),
            };
            let edit = match edit_field(node, text, field, value.as_str()) {
                Ok(e) => e,
                Err(e) => return Err(e),
            };
            let ghost prev = edits@;
            edits.push(edit);
            proof {
                assert(super::edit_views(edits@) =~= super::edit_views(prev) + seq![
                    (edit.range, edit.replace@),
                ]);
                super::lemma_then_ok_assoc(
                    super::edit_views(prev),
                    seq![(edit.range, edit.replace@)],
                    rest,
                );
            }
        }
        i = i + 1;
    }
    Ok(edits)
}

/// The optional edit that sets `c_field` to `value` where `key` changed;
/// `value` is `None` where the data lacks the field.
pub open spec fn spec_mapped(
    ctx: Context,
    key: Seq<char>,
    value: Option<Seq<char>>,
    c_field: Seq<char>,
) -> Result<Option<EditView>, ImportErrorView> {
    if !spec_has_key(ctx.diff_keys@, key) {
        Ok(None)
    } else {
        match value {
            None => Err(missing(key)),
            Some(t) => match spec_set(ctx, c_field, t) {
                Ok(e) => Ok(Some(e)),
                Err(e) => Err(e),
            },
        }
    }
}

fn set_opt(context: &Context, c_field: &str, value: &str) -> (res: Result<Option<Edit>, ImportError>)
    ensures
        opt_edit_is(
            res,
            match spec_set(*context, c_field@, value@) {
                Ok(e) => Ok(Some(e)),
                Err(e) => Err(e),
            },
        ),
{
    match edit_field(context.node, context.text, c_field, value) {
        Ok(e) => Ok(Some(e)),
        Err(e) => Err(e),
    }
}

/// The `TRUE` or `FALSE` of a C flag.
pub open spec fn spec_c_bool(b: bool) -> Seq<char> {
    if b {
        "TRUE"@
    } else {
        "FALSE"@
    }
}

fn c_bool(b: bool) -> (res: String)
    ensures
        res@ == spec_c_bool(b),
{
    if b {
        text("TRUE")
    } else {
        text("FALSE")
    }
}

/// The edits for the flags that the C table keeps the other way round: a
/// move that Metronome may call is one that is not banned from it.
pub open spec fn spec_inverted_flags(ctx: Context) -> Result<Seq<EditView>, ImportErrorView> {
    opt_as_seq(
        spec_mapped(
            ctx,
            "flag_metronome"@,
            match ctx.entry.fields.flag_metronome {
                Some(v) => Some(spec_c_bool(!v)),
                None => None,
            },
            "metronomeBanned"@,
        ),
    )
}

/// The edits for the flags that the C table keeps the other way round.
pub fn handle_inverted_flags(context: &Context) -> (res: Result<Vec<Edit>, ImportError>)
    ensures
        edits_are(res, spec_inverted_flags(*context)),
{
    let mut edits: Vec<Edit> = Vec::new();
    if !has_key(context.diff_keys, "flag_metronome") {
        assert(super::edit_views(edits@) =~= Seq::<EditView>::empty());
        return Ok(edits);
    }
    let value = match context.entry.fields.flag_metronome {
        Some(v) => v,
        None => return Err(missing_field("flag_metronome")),
    };
    let shown = c_bool(!value);
    match edit_field(context.node, context.text, "metronomeBanned", shown.as_str()) {
        Ok(e) => {
            edits.push(e);
            assert(super::edit_views(edits@) =~= seq![(e.range, e.replace@)]);
            Ok(edits)
        },
        Err(e) => Err(e),
    }
}

/// The power in the C table: the exported byte read as unsigned.
pub open spec fn spec_power_value(power: i8) -> int {
    if power >= 0 {
        power as int
    } else {
        256 + power
    }
}

/// The edit for a changed power.
pub open spec fn spec_power(ctx: Context) -> Result<Option<EditView>, ImportErrorView> {
    spec_mapped(
        ctx,
        "power"@,
        match ctx.entry.fields.power {
            Some(p) => Some(spec_signed_decimal(spec_power_value(p))),
            None => None,
        },
        "power"@,
    )
}

/// The edit for a changed power.
pub fn handle_power(context: &Context) -> (res: Result<Option<Edit>, ImportError>)
    ensures
        opt_edit_is(res, spec_power(*context)),
{
    if !has_key(context.diff_keys, "power") {
        return Ok(None);
    }
    let power = match context.entry.fields.power {
        Some(p) => p,
        None => return Err(missing_field("power")),
    };
    let value: i16 = if power >= 0 {
        power as i16
    } else {
        256 + power as i16
    };
    set_opt(context, "power", decimal_i64(value as i64).as_str())
}

/// The accuracy in the C table: 0, never missing, for anything above 100.
pub open spec fn spec_accuracy_value(accuracy: i32) -> int {
    if accuracy >= 101 {
        0
    } else {
        accuracy as int
    }
}

/// The edit for a changed accuracy.
pub open spec fn spec_accuracy(ctx: Context) -> Result<Option<EditView>, ImportErrorView> {
    spec_mapped(
        ctx,
        "accuracy"@,
        match ctx.entry.fields.accuracy {
            Some(a) => Some(spec_signed_decimal(spec_accuracy_value(a))),
            None => None,
        },
        "accuracy"@,
    )
}

/// The edit for a changed accuracy.
pub fn handle_accuracy(context: &Context) -> (res: Result<Option<Edit>, ImportError>)
    ensures
        opt_edit_is(res, spec_accuracy(*context)),
{
    if !has_key(context.diff_keys, "accuracy") {
        return Ok(None);
    }
    let accuracy = match context.entry.fields.accuracy {
        Some(a) => a,
        None => return Err(missing_field("accuracy")),
    };
    let value = match accuracy {
        101.. => 0,
        acc => acc,
    };
    set_opt(context, "accuracy", decimal_i64(value as i64).as_str())
}

/// The critical-hit stage in the C table: stages 0-2 stay, 6 (always) is 3;
/// any other is unknown and taken as 0.
pub open spec fn spec_crit_value(crit: i16) -> int {
    if crit == 0 {
        0
    } else if crit == 1 {
        1
    } else if crit == 2 {
        2
    } else if crit == 6 {
        3
    } else {
        0
    }
}

/// The edit for a changed critical-hit stage.
pub open spec fn spec_crit_stage(ctx: Context) -> Result<Option<EditView>, ImportErrorView> {
    spec_mapped(
        ctx,
        "crit_stage"@,
        match ctx.entry.fields.crit_stage {
            Some(c) => Some(spec_signed_decimal(spec_crit_value(c))),
            None => None,
        },
        "criticalHitStage"@,
    )
}

/// The edit for a changed critical-hit stage.
pub fn handle_crit_stage(context: &Context) -> (res: Result<Option<Edit>, ImportError>)
    ensures
        opt_edit_is(res, spec_crit_stage(*context)),
{
    if !has_key(context.diff_keys, "crit_stage") {
        return Ok(None);
    }
    let crit = match context.entry.fields.crit_stage {
        Some(c) => c,
        None => return Err(missing_field("crit_stage")),
    };
    let value: i16 = match crit {
        0 => 0,
        1 => 1,
        2 => 2,
        6 => 3,
        _ => 0,
    };
    set_opt(context, "criticalHitStage", decimal_i64(value as i64).as_str())
}

/// The edit for a changed type: the type's C constant.
pub open spec fn spec_type(ctx: Context) -> Result<Option<EditView>, ImportErrorView> {
    spec_mapped(
        ctx,
        "type"@,
        match ctx.entry.fields.move_type {
            Some(t) => Some("TYPE_"@ + uppercase(t@)),
            None => None,
        },
        "type"@,
    )
}

/// The edit for a changed type.
pub fn handle_type(context: &Context) -> (res: Result<Option<Edit>, ImportError>)
    ensures
        opt_edit_is(res, spec_type(*context)),
{
    if !has_key(context.diff_keys, "type") {
        return Ok(None);
    }
    let type_ = match &context.entry.fields.move_type {
        Some(t) => t,
        None => return Err(missing_field("type")),
    };
    let mut value = text("TYPE_");
    push_str(&mut value, to_uppercase(type_.as_str()).as_str());
    set_opt(context, "type", value.as_str())
}

/// The edit for a changed damage category: the category's C constant.
pub open spec fn spec_category(ctx: Context) -> Result<Option<EditView>, ImportErrorView> {
    spec_mapped(
        ctx,
        "category"@,
        match ctx.entry.fields.category {
            Some(c) => Some("DAMAGE_CATEGORY_"@ + uppercase(c@)),
            None => None,
        },
        "category"@,
    )
}

/// The edit for a changed damage category.
pub fn handle_category(context: &Context) -> (res: Result<Option<Edit>, ImportError>)
    ensures
        opt_edit_is(res, spec_category(*context)),
{
    if !has_key(context.diff_keys, "category") {
        return Ok(None);
    }
    let cat = match &context.entry.fields.category {
        Some(c) => c,
        None => return Err(missing_field("category")),
    };
    let mut value = text("DAMAGE_CATEGORY_");
    push_str(&mut value, to_uppercase(cat.as_str()).as_str());
    set_opt(context, "category", value.as_str())
}

/// The edits for a changed recoil: a draining move absorbs the given
/// share; any other takes the recoil, negated, as the C table counts it.
pub open spec fn spec_recoil(ctx: Context) -> Result<Seq<EditView>, ImportErrorView> {
    if !spec_has_key(ctx.diff_keys@, "recoil"@) {
        Ok(Seq::empty())
    } else {
        match ctx.entry.fields.recoil {
            None => Err(missing("recoil"@)),
            Some(recoil) => match ctx.entry.fields.quality {
                None => Err(missing("quality"@)),
                Some(quality) => if quality@ == "DAMAGEHeal"@ {
                    then_edits(
                        one_as_seq(spec_set(ctx, "effect"@, "EFFECT_ABSORB"@)),
                        one_as_seq(spec_set(ctx, "argument"@, spec_signed_decimal(recoil as int))),
                    )
                } else {
                    one_as_seq(spec_set(ctx, "recoil"@, spec_signed_decimal(-recoil)))
                },
            },
        }
    }
}

/// Handling a changed recoil negates it, which overflows 16 bits for
/// `i16::MIN`: the recoil changed, the quality is there and is not
/// `DAMAGEHeal`, and the recoil is `i16::MIN`.
pub open spec fn recoil_overflows(ctx: Context) -> bool {
    &&& spec_has_key(ctx.diff_keys@, "recoil"@)
    &&& ctx.entry.fields.recoil == Some(i16::MIN)
    &&& ctx.entry.fields.quality matches Some(q) && q@ != "DAMAGEHeal"@
}

fn push_edit(edits: &mut Vec<Edit>, r: Result<Edit, ImportError>) -> (ok: Result<(), ImportError>)
    ensures
        r matches Ok(e) ==> ok is Ok && super::edit_views(final(edits)@) == super::edit_views(
            old(edits)@,
        ).push((e.range, e.replace@)),
        r matches Err(e) ==> ok == Err::<(), ImportError>(e) && final(edits)@ == old(edits)@,
{
    match r {
        Ok(e) => {
            let ghost prev = edits@;
            edits.push(e);
            assert(super::edit_views(edits@) =~= super::edit_views(prev).push((e.range, e.replace@)));
            Ok(())
        },
        Err(e) => Err(e),
    }
}

/// The edits for a changed recoil.
pub fn handle_recoil(context: &Context) -> (res: Result<Vec<Edit>, ImportError>)
    requires
        !recoil_overflows(*context),
    ensures
        edits_are(res, spec_recoil(*context)),
{
    let mut edits: Vec<Edit> = Vec::new();
    if !has_key(context.diff_keys, "recoil") {
        assert(super::edit_views(edits@) =~= Seq::<EditView>::empty());
        return Ok(edits);
    }
    let recoil = match context.entry.fields.recoil {
        Some(r) => r,
        None => return Err(missing_field("recoil")),
    };
    let quality = match &context.entry.fields.quality {
        Some(q) => q,
        None => return Err(missing_field("quality")),
    };
    let node = context.node;
    let text = context.text;
    if str_eq(quality.as_str(), "DAMAGEHeal") {
        push_edit(&mut edits, edit_field(node, text, "effect", "EFFECT_ABSORB"))?;
        push_edit(
            &mut edits,
            edit_field(node, text, "argument", decimal_i64(recoil as i64).as_str()),
        )?;
        assert(super::edit_views(edits@) =~= seq![super::edit_views(edits@)[0]] + seq![
            super::edit_views(edits@)[1],
        ]);
    } else {
        push_edit(
            &mut edits,
            edit_field(node, text, "recoil", decimal_i64((-recoil) as i64).as_str()),
        )?;
        assert(super::edit_views(edits@) =~= seq![super::edit_views(edits@)[0]]);
    }
    Ok(edits)
}

/// The edits for a changed hit count: 2 to 5 hits is the multi-hit
/// effect, a fixed count is a strike count, anything else is refused.
pub open spec fn spec_hit_count(ctx: Context) -> Result<Seq<EditView>, ImportErrorView> {
    if !spec_has_key(ctx.diff_keys@, "hit_max"@) && !spec_has_key(ctx.diff_keys@, "hit_min"@) {
        Ok(Seq::empty())
    } else {
        match ctx.entry.fields.hit_min {
            None => Err(missing("hit_min"@)),
            Some(min) => match ctx.entry.fields.hit_max {
                None => Err(missing("hit_max"@)),
                Some(max) => if min == 2 && max == 5 {
                    one_as_seq(spec_set(ctx, "effect"@, "EFFECT_MULTI_HIT"@))
                } else if min == max {
                    one_as_seq(spec_set(ctx, "strikeCount"@, spec_decimal(min as nat)))
                } else {
                    Err(ImportErrorView::InvalidHitCount)
                },
            },
        }
    }
}

/// The edits for a changed hit count.
pub fn handle_hit_count(context: &Context) -> (res: Result<Vec<Edit>, ImportError>)
    ensures
        edits_are(res, spec_hit_count(*context)),
{
    let mut edits: Vec<Edit> = Vec::new();
    if !has_key(context.diff_keys, "hit_max") && !has_key(context.diff_keys, "hit_min") {
        assert(super::edit_views(edits@) =~= Seq::<EditView>::empty());
        return Ok(edits);
    }
    let min = match context.entry.fields.hit_min {
        Some(v) => v,
        None => return Err(missing_field("hit_min")),
    };
    let max = match context.entry.fields.hit_max {
        Some(v) => v,
        None => return Err(missing_field("hit_max")),
    };
    let node = context.node;
    let text = context.text;
    if min == 2 && max == 5 {
        push_edit(&mut edits, edit_field(node, text, "effect", "EFFECT_MULTI_HIT"))?;
    } else if min == max {
        push_edit(
            &mut edits,
            edit_field(node, text, "strikeCount", decimal_u64(min as u64).as_str()),
        )?;
    } else {
        return Err(ImportError::InvalidHitCount);
    }
    assert(super::edit_views(edits@) =~= seq![super::edit_views(edits@)[0]]);
    Ok(edits)
}

/// The C target of an exported target, if it is one the importer knows.
pub open spec fn spec_target_name(target: Seq<char>) -> Option<Seq<char>> {
    if target == "One"@ {
        Some("MOVE_TARGET_SELECTED"@)
    } else if target == "AllFoes"@ {
        Some("MOVE_TARGET_BOTH"@)
    } else if target == "Self"@ {
        Some("MOVE_TARGET_USER"@)
    } else {
        None
    }
}

/// The edit for a changed target; an unknown target is refused.
pub open spec fn spec_target(ctx: Context) -> Result<Option<EditView>, ImportErrorView> {
    if !spec_has_key(ctx.diff_keys@, "raw_target"@) {
        Ok(None)
    } else {
        match ctx.entry.fields.raw_target {
            None => Err(missing("raw_target"@)),
            Some(t) => match spec_target_name(t@) {
                None => Err(ImportErrorView::UnhandledTarget(t@)),
                Some(name) => match spec_set(ctx, "target"@, name) {
                    Ok(e) => Ok(Some(e)),
                    Err(e) => Err(e),
                },
            },
        }
    }
}

/// The edit for a changed target.
pub fn handle_target(context: &Context) -> (res: Result<Option<Edit>, ImportError>)
    ensures
        opt_edit_is(res, spec_target(*context)),
{
    if !has_key(context.diff_keys, "raw_target") {
        return Ok(None);
    }
    let raw = match &context.entry.fields.raw_target {
        Some(t) => t,
        None => return Err(missing_field("raw_target")),
    };
    let target = if str_eq(raw.as_str(), "One") {
        "MOVE_TARGET_SELECTED"
    } else if str_eq(raw.as_str(), "AllFoes") {
        "MOVE_TARGET_BOTH"
    } else if str_eq(raw.as_str(), "Self") {
        "MOVE_TARGET_USER"
    } else {
        return Err(ImportError::UnhandledTarget(text(raw.as_str())));
    };
    set_opt(context, "target", target)
}

/// The edit for a changed move category: a move that always lands a
/// critical hit gets the flag; a self-targeting status move needs none; any
/// other category is refused.
pub open spec fn spec_move_category(ctx: Context) -> Result<Option<EditView>, ImportErrorView> {
    if !spec_has_key(ctx.diff_keys@, "move_category"@) {
        Ok(None)
    } else {
        match ctx.entry.fields.move_category {
            None => Err(missing("move_category"@)),
            Some(c) => if c@ == "AlwaysCritical"@ {
                match spec_set(ctx, "alwaysCriticalHit"@, "TRUE"@) {
                    Ok(e) => Ok(Some(e)),
                    Err(e) => Err(e),
                }
            } else if c@ == "StatusSelf"@ {
                Ok(None)
            } else {
                Err(ImportErrorView::UnhandledMoveCategory(c@))
            },
        }
    }
}

/// The edit for a changed move category.
pub fn handle_move_category(context: &Context) -> (res: Result<Option<Edit>, ImportError>)
    ensures
        opt_edit_is(res, spec_move_category(*context)),
{
    if !has_key(context.diff_keys, "move_category") {
        return Ok(None);
    }
    let cat = match &context.entry.fields.move_category {
        Some(c) => c,
        None => return Err(missing_field("move_category")),
    };
    if str_eq(cat.as_str(), "AlwaysCritical") {
        set_opt(context, "alwaysCriticalHit", "TRUE")
    } else if str_eq(cat.as_str(), "StatusSelf") {
        Ok(None)
    } else {
        Err(ImportError::UnhandledMoveCategory(text(cat.as_str())))
    }
}

/// The short name of a stat in move-effect constants.
pub open spec fn spec_stat_abbrev(stat: Seq<char>) -> Option<Seq<char>> {
    if stat == "Attack"@ {
        Some("ATK"@)
    } else if stat == "Defense"@ {
        Some("DEF"@)
    } else if stat == "Speed"@ {
        Some("SPD"@)
    } else if stat == "SpecialAttack"@ {
        Some("SP_ATK"@)
    } else if stat == "SpecialDefense"@ {
        Some("SP_DEF"@)
    } else if stat == "Accuracy"@ {
        Some("ACC"@)
    } else if stat == "Evasion"@ {
        Some("EVS"@)
    } else if stat == "All"@ {
        Some("ALL"@)
    } else {
        None
    }
}

/// The move-effect constant that changes `stat` by `count` stages.
pub open spec fn spec_move_effect_name(stat: Seq<char>, count: int) -> Result<
    Seq<char>,
    ImportErrorView,
> {
    match spec_stat_abbrev(stat) {
        None => Err(ImportErrorView::UnexpectedStat(stat)),
        Some(a) => if count >= 1 {
            Ok("MOVE_EFFECT_"@ + a + "_PLUS_"@ + spec_decimal(count as nat))
        } else if count <= -1 {
            Ok("MOVE_EFFECT_"@ + a + "_MINUS_"@ + spec_decimal((-count) as nat))
        } else {
            Err(ImportErrorView::ZeroStatChange)
        },
    }
}

fn stat_abbrev(stat: &str) -> (res: Option<&'static str>)
    ensures
        match spec_stat_abbrev(stat@) {
            Some(a) => res matches Some(r) && r@ == a,
            None => res is None,
        },
{
    if str_eq(stat, "Attack") {
        Some("ATK")
    } else if str_eq(stat, "Defense") {
        Some("DEF")
    } else if str_eq(stat, "Speed") {
        Some("SPD")
    } else if str_eq(stat, "SpecialAttack") {
        Some("SP_ATK")
    } else if str_eq(stat, "SpecialDefense") {
        Some("SP_DEF")
    } else if str_eq(stat, "Accuracy") {
        Some("ACC")
    } else if str_eq(stat, "Evasion") {
        Some("EVS")
    } else if str_eq(stat, "All") {
        Some("ALL")
    } else {
        None
    }
}

/// Naming the change of `stat` by `count` stages negates `count`, which
/// overflows 16 bits for `i16::MIN`; an unknown stat is refused first.
pub open spec fn stage_negation_overflows(stat: Seq<char>, count: i16) -> bool {
    spec_stat_abbrev(stat) is Some && count == i16::MIN
}

/// The move-effect constant that changes `stat` by `count` stages.
pub fn move_effect_name(stat: &str, count: i16) -> (res: Result<String, ImportError>)
    requires
        !stage_negation_overflows(stat@, count),
    ensures
        match spec_move_effect_name(stat@, count as int) {
            Ok(t) => res matches Ok(s) && s@ == t,
            Err(ev) => res matches Err(e) && e@ == ev,
        },
{
    let stat_name = match stat_abbrev(stat) {
        Some(a) => a,
        None => return Err(ImportError::UnexpectedStat(text(stat))),
    };
    let mut res = text("MOVE_EFFECT_");
    push_str(&mut res, stat_name);
    if count >= 1 {
        push_str(&mut res, "_PLUS_");
        push_str(&mut res, decimal_u64(count as u64).as_str());
        Ok(res)
    } else if count <= -1 {
        push_str(&mut res, "_MINUS_");
        push_str(&mut res, decimal_u64((-count) as u64).as_str());
        Ok(res)
    } else {
        Err(ImportError::ZeroStatChange)
    }
}

/// One field of an additional effect: its C name and value.
pub type EffectField = (Seq<char>, Seq<char>);

/// The fields of an additional effect.
pub open spec fn effect_view(e: Vec<(String, String)>) -> Seq<EffectField> {
    e@.map_values(|p: (String, String)| (p.0@, p.1@))
}

/// The additional effects.
pub open spec fn effects_view(es: Seq<Vec<(String, String)>>) -> Seq<Seq<EffectField>> {
    es.map_values(|e: Vec<(String, String)>| effect_view(e))
}

/// The effect constant of an inflicted status, if the importer knows it;
/// for sleep the three turn numbers go along in a comment.
pub open spec fn spec_status_effect(status: Seq<char>, turn1: u16, turn2: u16, turn3: u16) -> Option<
    Seq<char>,
> {
    if status == "Poison"@ {
        Some("MOVE_EFFECT_POISON"@)
    } else if status == "Burn"@ {
        Some("MOVE_EFFECT_BURN"@)
    } else if status == "Paralysis"@ {
        Some("MOVE_EFFECT_PARALYSIS"@)
    } else if status == "Toxic"@ {
        Some("MOVE_EFFECT_TOXIC"@)
    } else if status == "Freeze"@ {
        Some("MOVE_EFFECT_FREEZE"@)
    } else if status == "Sleep"@ {
        Some(
            "MOVE_EFFECT_SLEEP /* "@ + spec_decimal(turn1 as nat) + " "@ + spec_decimal(turn2 as nat)
                + " "@ + spec_decimal(turn3 as nat) + " */"@,
        )
    } else if status == "Confusion"@ {
        Some("MOVE_EFFECT_CONFUSION"@)
    } else if status == "Bind"@ {
        Some("MOVE_EFFECT_WRAP"@)
    } else {
        None
    }
}

/// The chance field of an effect, none for a chance of 0.
pub open spec fn spec_chance(chance: u16) -> Seq<EffectField> {
    if chance != 0 {
        seq![("chance"@, spec_decimal(chance as nat))]
    } else {
        Seq::empty()
    }
}

/// The effect of one stat change, none for the stat `None`; a move whose
/// quality is to change the user's stats gets it on itself.
pub open spec fn spec_stat_effect(stat: Seq<char>, stage: i16, percent: u16, quality: Seq<char>) -> Result<
    Seq<Seq<EffectField>>,
    ImportErrorView,
> {
    if stat == "None"@ {
        Ok(Seq::empty())
    } else {
        match spec_move_effect_name(stat, stage as int) {
            Err(e) => Err(e),
            Ok(name) => Ok(
                seq![
                    seq![("moveEffect"@, name)] + spec_chance(percent) + if quality
                        == "DAMAGEUSERStat"@ {
                        seq![("self"@, "TRUE"@)]
                    } else {
                        Seq::empty()
                    },
                ],
            ),
        }
    }
}

/// The effects of `a`, then those of `b`; the first failure wins.
pub open spec fn then_effects(
    a: Result<Seq<Seq<EffectField>>, ImportErrorView>,
    b: Result<Seq<Seq<EffectField>>, ImportErrorView>,
) -> Result<Seq<Seq<EffectField>>, ImportErrorView> {
    match a {
        Err(e) => Err(e),
        Ok(x) => match b {
            Err(e) => Err(e),
            Ok(y) => Ok(x + y),
        },
    }
}

/// The effects of the three stat changes, in order.
pub open spec fn spec_stat_effects(sa: StatAmps, quality: Seq<char>) -> Result<
    Seq<Seq<EffectField>>,
    ImportErrorView,
> {
    then_effects(
        spec_stat_effect(sa.fstat1@, sa.fstat1_stage, sa.fstat1_percent, quality),
        then_effects(
            spec_stat_effect(sa.fstat2@, sa.fstat2_stage, sa.fstat2_percent, quality),
            spec_stat_effect(sa.fstat3@, sa.fstat3_stage, sa.fstat3_percent, quality),
        ),
    )
}

/// The additional effects of a move: recharging, flinching, an inflicted
/// status and stat changes, in that order; `None` where the inflicted
/// status is one the importer does not know, which leaves the move as it
/// is.
pub open spec fn spec_effect_list(fields: MoveFields, quality: Seq<char>) -> Result<
    Option<Seq<Seq<EffectField>>>,
    ImportErrorView,
> {
    match fields.flag_rechargeg {
        None => Err(missing("flag_rechargeg"@)),
        Some(recharge) => {
            let e1: Seq<Seq<EffectField>> = if recharge {
                seq![seq![("moveEffect"@, "MOVE_EFFECT_RECHARGE"@), ("self"@, "TRUE"@)]]
            } else {
                Seq::empty()
            };
            match fields.flinch {
                None => Err(missing("flinch"@)),
                Some(flinch) => {
                    let e2 = e1 + if flinch > 0 {
                        seq![
                            seq![
                                ("moveEffect"@, "MOVE_EFFECT_FLINCH"@),
                                ("chance"@, spec_decimal(flinch as nat)),
                            ],
                        ]
                    } else {
                        Seq::<Seq<EffectField>>::empty()
                    };
                    match fields.inflict_status {
                        None => Err(missing("inflict_status"@)),
                        Some(inf) => {
                            let known = spec_status_effect(
                                inf.status@,
                                inf.turn1,
                                inf.turn2,
                                inf.turn3,
                            );
                            if inf.status@ != "NONE"@ && known is None {
                                Ok(None)
                            } else {
                                let e3 = e2 + if inf.status@ != "NONE"@ {
                                    seq![seq![("moveEffect"@, known.unwrap())] + spec_chance(inf.chance)]
                                } else {
                                    Seq::<Seq<EffectField>>::empty()
                                };
                                match fields.stat_amps {
                                    None => Err(missing("stat_amps"@)),
                                    Some(sa) => match spec_stat_effects(sa, quality) {
                                        Err(e) => Err(e),
                                        Ok(e4) => Ok(Some(e3 + e4)),
                                    },
                                }
                            }
                        },
                    }
                },
            }
        },
    }
}

/// The text of the fields of one effect.
pub open spec fn spec_fields_text(fields: Seq<EffectField>) -> Seq<char>
    decreases fields.len(),
{
    if fields.len() == 0 {
        Seq::empty()
    } else {
        spec_fields_text(fields.drop_last()) + "."@ + fields.last().0 + " = "@ + fields.last().1
            + ","@
    }
}

/// The text of a list of effects, each in braces.
pub open spec fn spec_effects_body(effects: Seq<Seq<EffectField>>) -> Seq<char>
    decreases effects.len(),
{
    if effects.len() == 0 {
        Seq::empty()
    } else {
        spec_effects_body(effects.drop_last()) + "{"@ + spec_fields_text(effects.last()) + "},"@
    }
}

/// The C initializer of a list of additional effects.
pub open spec fn spec_additional_effects(effects: Seq<Seq<EffectField>>) -> Seq<char> {
    "ADDITIONAL_EFFECTS("@ + spec_effects_body(effects) + ")"@
}

/// How the importer treats a move of a quality.
#[derive(Clone, Copy, PartialEq, Eq, Structural, Debug)]
pub enum QualityKind {
    /// A damaging move: its effect stays.
    Damage,
    /// A one-hit knock-out move: its effect stays.
    Ohko,
    /// A status move: its own effect is dropped for the additional ones.
    Status,
    /// A quality the importer does not handle: the move stays as it is.
    Unhandled,
}

/// How the importer treats a move of quality `q`.
pub open spec fn spec_quality_kind(q: Seq<char>) -> QualityKind {
    if q == "OnlyDMG"@ || q == "DAMAGEInflictsStatus"@ || q == "DAMAGETARGETStat"@ || q
        == "DAMAGEUSERStat"@ || q == "DAMAGEHeal"@ {
        QualityKind::Damage
    } else if q == "OHKO"@ {
        QualityKind::Ohko
    } else if q == "STATUSStatChange"@ || q == "STATUSInflictsStatus"@ || q
        == "STATUSStatChangeANDStatus"@ {
        QualityKind::Status
    } else {
        QualityKind::Unhandled
    }
}

/// How the importer treats a move of quality `q`.
pub fn quality_kind(q: &str) -> (res: QualityKind)
    ensures
        res == spec_quality_kind(q@),
{
    if str_eq(q, "OnlyDMG") || str_eq(q, "DAMAGEInflictsStatus") || str_eq(q, "DAMAGETARGETStat")
        || str_eq(q, "DAMAGEUSERStat") || str_eq(q, "DAMAGEHeal") {
        QualityKind::Damage
    } else if str_eq(q, "OHKO") {
        QualityKind::Ohko
    } else if str_eq(q, "STATUSStatChange") || str_eq(q, "STATUSInflictsStatus") || str_eq(
        q,
        "STATUSStatChangeANDStatus",
    ) {
        QualityKind::Status
    } else {
        QualityKind::Unhandled
    }
}

/// Some of the fields that additional effects come from changed.
pub open spec fn spec_effect_keys_changed(keys: Seq<String>) -> bool {
    spec_has_key(keys, "quality"@) || spec_has_key(keys, "flinch"@) || spec_has_key(
        keys,
        "flag_rechargeg"@,
    ) || spec_has_key(keys, "inflict_status"@) || spec_has_key(keys, "stat_amps"@)
}

/// The edits for changed additional effects: a status move drops its own
/// effect, and any additional effects are written as a list.
pub open spec fn spec_effects(ctx: Context) -> Result<Seq<EditView>, ImportErrorView> {
    if !spec_effect_keys_changed(ctx.diff_keys@) {
        Ok(Seq::empty())
    } else {
        match ctx.entry.fields.quality {
            None => Err(missing("quality"@)),
            Some(q) => match spec_effect_list(ctx.entry.fields, q@) {
                Err(e) => Err(e),
                Ok(None) => Ok(Seq::empty()),
                Ok(Some(effects)) => {
                    let kind = spec_quality_kind(q@);
                    if kind == QualityKind::Unhandled {
                        Ok(Seq::empty())
                    } else {
                        then_edits(
                            if kind == QualityKind::Status {
                                one_as_seq(spec_set(ctx, "effect"@, "EFFECT_DO_NOTHING"@))
                            } else {
                                Ok(Seq::empty())
                            },
                            if effects.len() > 0 {
                                one_as_seq(
                                    spec_set(
                                        ctx,
                                        "additionalEffects"@,
                                        spec_additional_effects(effects),
                                    ),
                                )
                            } else {
                                Ok(Seq::empty())
                            },
                        )
                    }
                },
            },
        }
    }
}

fn pair(a: &str, b: &str) -> (res: (String, String))
    ensures
        res.0@ == a@,
        res.1@ == b@,
{
    (text(a), text(b))
}

fn push_chance(fields: &mut Vec<(String, String)>, chance: u16)
    ensures
        effect_view(*final(fields)) == effect_view(*old(fields)) + spec_chance(chance),
{
    let ghost prev = effect_view(*fields);
    if chance != 0 {
        fields.push(pair("chance", decimal_u64(chance as u64).as_str()));
        assert(effect_view(*fields) =~= prev + spec_chance(chance));
    } else {
        assert(effect_view(*fields) =~= prev + spec_chance(chance));
    }
}

fn stat_effect(stat: &str, stage: i16, percent: u16, quality: &str) -> (res: Result<
    Vec<Vec<(String, String)>>,
    ImportError,
>)
    requires
        !stat_effect_overflows(stat@, stage),
    ensures
        match spec_stat_effect(stat@, stage, percent, quality@) {
            Ok(v) => res matches Ok(es) && effects_view(es@) == v,
            Err(ev) => res matches Err(e) && e@ == ev,
        },
{
    let mut out: Vec<Vec<(String, String)>> = Vec::new();
    if str_eq(stat, "None") {
        assert(effects_view(out@) =~= Seq::<Seq<EffectField>>::empty());
        return Ok(out);
    }
    let name = move_effect_name(stat, stage)?;
    let mut fields: Vec<(String, String)> = Vec::new();
    fields.push(pair("moveEffect", name.as_str()));
    assert(effect_view(fields) =~= seq![("moveEffect"@, name@)]);
    push_chance(&mut fields, percent);
    let ghost before_self = effect_view(fields);
    if str_eq(quality, "DAMAGEUSERStat") {
        fields.push(pair("self", "TRUE"));
        assert(effect_view(fields) =~= before_self + seq![("self"@, "TRUE"@)]);
    } else {
        assert(effect_view(fields) =~= before_self + Seq::<EffectField>::empty());
    }
    out.push(fields);
    assert(effects_view(out@) =~= seq![effect_view(fields)]);
    Ok(out)
}

fn append_effects(a: &mut Vec<Vec<(String, String)>>, b: Vec<Vec<(String, String)>>)
    ensures
        effects_view(final(a)@) == effects_view(old(a)@) + effects_view(b@),
{
    let mut b = b;
    let ghost start = effects_view(a@);
    let ghost orig = b@;
    let mut i: usize = 0;
    let n = b.len();
    while b.len() > 0
        invariant
            n == orig.len(),
            i + b.len() == n,
            b@ == orig.subrange(i as int, n as int),
            effects_view(a@) == start + effects_view(orig.subrange(0, i as int)),
        decreases b.len(),
    {
        let e = b.remove(0);
        proof {
            assert(e == orig[i as int]);
            assert(effects_view(orig.subrange(0, i + 1)) =~= effects_view(
                orig.subrange(0, i as int),
            ).push(effect_view(e)));
        }
        let ghost prev = a@;
        a.push(e);
        proof {
            assert(effects_view(a@) =~= effects_view(prev).push(effect_view(e)));
        }
        i = i + 1;
        assert(b@ =~= orig.subrange(i as int, n as int));
    }
    assert(orig.subrange(0, n as int) =~= orig);
}

/// A stat change whose stat is not `None` names its effect, which
/// overflows for a stage of `i16::MIN`; a `None` stat is skipped.
pub open spec fn stat_effect_overflows(stat: Seq<char>, stage: i16) -> bool {
    stat != "None"@ && stage_negation_overflows(stat, stage)
}

/// The three stat changes are taken in order, each after the ones before
/// succeeded; one of those reached overflows.
pub open spec fn stat_effects_overflow(sa: StatAmps, quality: Seq<char>) -> bool {
    ||| stat_effect_overflows(sa.fstat1@, sa.fstat1_stage)
    ||| (spec_stat_effect(sa.fstat1@, sa.fstat1_stage, sa.fstat1_percent, quality) is Ok && (
    stat_effect_overflows(sa.fstat2@, sa.fstat2_stage) || (spec_stat_effect(
        sa.fstat2@,
        sa.fstat2_stage,
        sa.fstat2_percent,
        quality,
    ) is Ok && stat_effect_overflows(sa.fstat3@, sa.fstat3_stage))))
}

/// Listing the additional effects reaches the stat changes (every field
/// before them is there and the inflicted status is none or known) and one
/// of them overflows.
pub open spec fn effect_list_overflows(fields: MoveFields, quality: Seq<char>) -> bool {
    &&& fields.flag_rechargeg is Some
    &&& fields.flinch is Some
    &&& fields.inflict_status matches Some(inf) && (inf.status@ == "NONE"@ || spec_status_effect(
        inf.status@,
        inf.turn1,
        inf.turn2,
        inf.turn3,
    ) is Some)
    &&& fields.stat_amps matches Some(sa) && stat_effects_overflow(sa, quality)
}

/// Handling changed effects reaches a stat change that overflows: an
/// effect key changed and the quality is there.
pub open spec fn effects_overflow(ctx: Context) -> bool {
    &&& spec_effect_keys_changed(ctx.diff_keys@)
    &&& ctx.entry.fields.quality matches Some(q) && effect_list_overflows(ctx.entry.fields, q@)
}

fn status_effect(inf: &InflictStatus) -> (res: Option<String>)
    ensures
        match spec_status_effect(inf.status@, inf.turn1, inf.turn2, inf.turn3) {
            Some(t) => res matches Some(s) && s@ == t,
            None => res is None,
        },
{
    let status = inf.status.as_str();
    if str_eq(status, "Poison") {
        Some(text("MOVE_EFFECT_POISON"))
    } else if str_eq(status, "Burn") {
        Some(text("MOVE_EFFECT_BURN"))
    } else if str_eq(status, "Paralysis") {
        Some(text("MOVE_EFFECT_PARALYSIS"))
    } else if str_eq(status, "Toxic") {
        Some(text("MOVE_EFFECT_TOXIC"))
    } else if str_eq(status, "Freeze") {
        Some(text("MOVE_EFFECT_FREEZE"))
    } else if str_eq(status, "Sleep") {
        let mut s = text("MOVE_EFFECT_SLEEP /* ");
        push_str(&mut s, decimal_u64(inf.turn1 as u64).as_str());
        push_str(&mut s, " ");
        push_str(&mut s, decimal_u64(inf.turn2 as u64).as_str());
        push_str(&mut s, " ");
        push_str(&mut s, decimal_u64(inf.turn3 as u64).as_str());
        push_str(&mut s, " */");
        Some(s)
    } else if str_eq(status, "Confusion") {
        Some(text("MOVE_EFFECT_CONFUSION"))
    } else if str_eq(status, "Bind") {
        Some(text("MOVE_EFFECT_WRAP"))
    } else {
        None
    }
}

/// The additional effects of a move; see [`spec_effect_list`].
#[verifier::rlimit(50)]
#[verifier::spinoff_prover]
pub fn effect_list(fields: &MoveFields, quality: &str) -> (res: Result<
    Option<Vec<Vec<(String, String)>>>,
    ImportError,
>)
    requires
        !effect_list_overflows(*fields, quality@),
    ensures
        match spec_effect_list(*fields, quality@) {
            Ok(None) => res matches Ok(None),
            Ok(Some(v)) => res matches Ok(Some(es)) && effects_view(es@) == v,
            Err(ev) => res matches Err(e) && e@ == ev,
        },
{
    let mut effects: Vec<Vec<(String, String)>> = Vec::new();
    let recharge = match fields.flag_rechargeg {
        Some(v) => v,
        None => return Err(missing_field("flag_rechargeg")),
    };
    if recharge {
        let mut e: Vec<(String, String)> = Vec::new();
        e.push(pair("moveEffect", "MOVE_EFFECT_RECHARGE"));
        e.push(pair("self", "TRUE"));
        assert(effect_view(e) =~= seq![("moveEffect"@, "MOVE_EFFECT_RECHARGE"@), ("self"@, "TRUE"@)]);
        effects.push(e);
    }
    let ghost e1 = effects_view(effects@);
    assert(e1 =~= (if recharge {
        seq![seq![("moveEffect"@, "MOVE_EFFECT_RECHARGE"@), ("self"@, "TRUE"@)]]
    } else {
        Seq::<Seq<EffectField>>::empty()
    }));
    let flinch = match fields.flinch {
        Some(v) => v,
        None => return Err(missing_field("flinch")),
    };
    if flinch > 0 {
        let mut e: Vec<(String, String)> = Vec::new();
        e.push(pair("moveEffect", "MOVE_EFFECT_FLINCH"));
        e.push(pair("chance", decimal_u64(flinch as u64).as_str()));
        assert(effect_view(e) =~= seq![
            ("moveEffect"@, "MOVE_EFFECT_FLINCH"@),
            ("chance"@, spec_decimal(flinch as nat)),
        ]);
        effects.push(e);
        assert(effects_view(effects@) =~= e1 + seq![effect_view(e)]);
    } else {
        assert(effects_view(effects@) =~= e1 + Seq::<Seq<EffectField>>::empty());
    }
    let ghost e2 = effects_view(effects@);
    let inf = match &fields.inflict_status {
        Some(v) => v,
        None => return Err(missing_field("inflict_status")),
    };
    if !str_eq(inf.status.as_str(), "NONE") {
        let status = match status_effect(inf) {
            Some(s) => s,
            None => return Ok(None),
        };
        let mut e: Vec<(String, String)> = Vec::new();
        e.push(pair("moveEffect", status.as_str()));
        assert(effect_view(e) =~= seq![("moveEffect"@, status@)]);
        push_chance(&mut e, inf.chance);
        effects.push(e);
        assert(effects_view(effects@) =~= e2 + seq![effect_view(e)]);
    } else {
        assert(effects_view(effects@) =~= e2 + Seq::<Seq<EffectField>>::empty());
    }
    let ghost e3 = effects_view(effects@);
    let sa = match &fields.stat_amps {
        Some(v) => v,
        None => return Err(missing_field("stat_amps")),
    };
    let s1 = stat_effect(sa.fstat1.as_str(), sa.fstat1_stage, sa.fstat1_percent, quality)?;
    let s2 = stat_effect(sa.fstat2.as_str(), sa.fstat2_stage, sa.fstat2_percent, quality)?;
    let s3 = stat_effect(sa.fstat3.as_str(), sa.fstat3_stage, sa.fstat3_percent, quality)?;
    let ghost v1 = effects_view(s1@);
    let ghost v2 = effects_view(s2@);
    let ghost v3 = effects_view(s3@);
    append_effects(&mut effects, s1);
    append_effects(&mut effects, s2);
    append_effects(&mut effects, s3);
    assert(effects_view(effects@) =~= e3 + (v1 + (v2 + v3)));
    Ok(Some(effects))
}

fn fields_text(out: &mut String, fields: &Vec<(String, String)>)
    ensures
        final(out)@ == old(out)@ + spec_fields_text(effect_view(*fields)),
{
    let ghost start = out@;
    let ghost fv = effect_view(*fields);
    let mut i: usize = 0;
    assert(spec_fields_text(fv.subrange(0, 0)) =~= Seq::<char>::empty());
    while i < fields.len()
        invariant
            i <= fields.len(),
            fv == effect_view(*fields),
            out@ == start + spec_fields_text(fv.subrange(0, i as int)),
        decreases fields.len() - i,
    {
        push_str(out, ".");
        push_str(out, fields[i].0.as_str());
        push_str(out, " = ");
        push_str(out, fields[i].1.as_str());
        push_str(out, ",");
        proof {
            assert(fv.subrange(0, i + 1).drop_last() =~= fv.subrange(0, i as int));
            assert(fv.subrange(0, i + 1).last() == (fields@[i as int].0@, fields@[i as int].1@));
        }
        i = i + 1;
    }
    assert(fv.subrange(0, fields.len() as int) =~= fv);
}

/// The C initializer of a list of additional effects.
pub fn additional_effects(effects: &Vec<Vec<(String, String)>>) -> (res: String)
    ensures
        res@ == spec_additional_effects(effects_view(effects@)),
{
    let mut add_str = text("ADDITIONAL_EFFECTS(");
    let ghost ev = effects_view(effects@);
    let mut i: usize = 0;
    assert(spec_effects_body(ev.subrange(0, 0)) =~= Seq::<char>::empty());
    while i < effects.len()
        invariant
            i <= effects.len(),
            ev == effects_view(effects@),
            add_str@ == "ADDITIONAL_EFFECTS("@ + spec_effects_body(ev.subrange(0, i as int)),
        decreases effects.len() - i,
    {
        push_str(&mut add_str, "{");
        fields_text(&mut add_str, &effects[i]);
        push_str(&mut add_str, "},");
        proof {
            assert(ev.subrange(0, i + 1).drop_last() =~= ev.subrange(0, i as int));
            assert(ev.subrange(0, i + 1).last() == effect_view(effects@[i as int]));
        }
        i = i + 1;
    }
    push_str(&mut add_str, ")");
    assert(ev.subrange(0, effects.len() as int) =~= ev);
    add_str
}

/// The edits for changed additional effects.
pub fn handle_effects(context: &Context) -> (res: Result<Vec<Edit>, ImportError>)
    requires
        !effects_overflow(*context),
    ensures
        edits_are(res, spec_effects(*context)),
{
    let mut edits: Vec<Edit> = Vec::new();
    assert(super::edit_views(edits@) =~= Seq::<EditView>::empty());
    let keys = context.diff_keys;
    if !(has_key(keys, "quality") || has_key(keys, "flinch") || has_key(keys, "flag_rechargeg")
        || has_key(keys, "inflict_status") || has_key(keys, "stat_amps")) {
        return Ok(edits);
    }
    let fields = &context.entry.fields;
    let quality = match &fields.quality {
        Some(q) => q,
        None => return Err(missing_field("quality")),
    };
    let effects = match effect_list(fields, quality.as_str()) {
        Ok(Some(e)) => e,
        Ok(None) => return Ok(edits),
        Err(e) => return Err(e),
    };
    let kind = quality_kind(quality.as_str());
    match kind {
        QualityKind::Damage | QualityKind::Ohko => {},
        QualityKind::Status => {
            push_edit(
                &mut edits,
                edit_field(context.node, context.text, "effect", "EFFECT_DO_NOTHING"),
            )?;
            assert(super::edit_views(edits@) =~= seq![super::edit_views(edits@)[0]]);
        },
        QualityKind::Unhandled => {
            return Ok(edits);
        },
    }
    let ghost first = super::edit_views(edits@);
    if effects.len() > 0 {
        let add_str = additional_effects(&effects);
        push_edit(
            &mut edits,
            edit_field(context.node, context.text, "additionalEffects", add_str.as_str()),
        )?;
        assert(super::edit_views(edits@) =~= first + seq![super::edit_views(edits@).last()]);
    } else {
        assert(super::edit_views(edits@) =~= first + Seq::<EditView>::empty());
    }
    Ok(edits)
}

pub(crate) fn extend_edits(a: &mut Vec<Edit>, r: Result<Vec<Edit>, ImportError>) -> (ok: Result<(), ImportError>)
    ensures
        r matches Ok(es) ==> ok is Ok && super::edit_views(final(a)@) == super::edit_views(old(a)@)
            + super::edit_views(es@),
        r matches Err(e) ==> ok == Err::<(), ImportError>(e),
{
    let mut b = match r {
        Ok(es) => es,
        Err(e) => return Err(e),
    };
    let ghost start = super::edit_views(a@);
    let ghost orig = b@;
    let mut i: usize = 0;
    let n = b.len();
    while b.len() > 0
        invariant
            n == orig.len(),
            i + b.len() == n,
            b@ == orig.subrange(i as int, n as int),
            super::edit_views(a@) == start + super::edit_views(orig.subrange(0, i as int)),
        decreases b.len(),
    {
        let e = b.remove(0);
        proof {
            assert(e == orig[i as int]);
            assert(super::edit_views(orig.subrange(0, i + 1)) =~= super::edit_views(
                orig.subrange(0, i as int),
            ).push((e.range, e.replace@)));
        }
        let ghost prev = a@;
        a.push(e);
        proof {
            assert(super::edit_views(a@) =~= super::edit_views(prev).push((e.range, e.replace@)));
        }
        i = i + 1;
        assert(b@ =~= orig.subrange(i as int, n as int));
    }
    assert(orig.subrange(0, n as int) =~= orig);
    Ok(())
}

pub(crate) fn extend_opt(a: &mut Vec<Edit>, r: Result<Option<Edit>, ImportError>) -> (ok: Result<
    (),
    ImportError,
>)
    ensures
        r matches Ok(None) ==> ok is Ok && final(a)@ == old(a)@,
        r matches Ok(Some(e)) ==> ok is Ok && super::edit_views(final(a)@) == super::edit_views(
            old(a)@,
        ) + seq![(e.range, e.replace@)],
        r matches Err(e) ==> ok == Err::<(), ImportError>(e),
{
    match r {
        Ok(Some(e)) => {
            let ghost prev = a@;
            a.push(e);
            assert(super::edit_views(a@) =~= super::edit_views(prev) + seq![(e.range, e.replace@)]);
            Ok(())
        },
        Ok(None) => Ok(()),
        Err(e) => Err(e),
    }
}

/// The C text of a name or description: a compound string of the quoted
/// text.
pub open spec fn spec_compound_string(s: Seq<char>) -> Seq<char> {
    "COMPOUND_STRING("@ + debug_quoted(s) + ")"@
}

/// Every edit for a changed move, in order: its name, its description, the
/// copied fields, the inverted flags, recoil, hit count, additional
/// effects, accuracy, power, type, damage category, target, critical-hit
/// stage and move category; the first failure wins.
pub open spec fn spec_changes(ctx: Context, name: Seq<char>, desc: Seq<char>) -> Result<
    Seq<EditView>,
    ImportErrorView,
> {
    then_edits(
        one_as_seq(spec_set(ctx, "name"@, spec_compound_string(name))),
        then_edits(
            one_as_seq(spec_set(ctx, "description"@, spec_compound_string(desc))),
            then_edits(
                spec_simple_changes(ctx),
                then_edits(
                    spec_inverted_flags(ctx),
                    then_edits(
                        spec_recoil(ctx),
                        then_edits(
                            spec_hit_count(ctx),
                            then_edits(
                                spec_effects(ctx),
                                then_edits(
                                    opt_as_seq(spec_accuracy(ctx)),
                                    then_edits(
                                        opt_as_seq(spec_power(ctx)),
                                        then_edits(
                                            opt_as_seq(spec_type(ctx)),
                                            then_edits(
                                                opt_as_seq(spec_category(ctx)),
                                                then_edits(
                                                    opt_as_seq(spec_target(ctx)),
                                                    then_edits(
                                                        opt_as_seq(spec_crit_stage(ctx)),
                                                        opt_as_seq(spec_move_category(ctx)),
                                                    ),
                                                ),
                                            ),
                                        ),
                                    ),
                                ),
                            ),
                        ),
                    ),
                ),
            ),
        ),
    )
}

/// The edits made before the recoil is handled: name, description, copied
/// fields and inverted flags.
pub open spec fn spec_changes_before_recoil(ctx: Context, name: Seq<char>, desc: Seq<char>) -> Result<
    Seq<EditView>,
    ImportErrorView,
> {
    then_edits(
        one_as_seq(spec_set(ctx, "name"@, spec_compound_string(name))),
        then_edits(
            one_as_seq(spec_set(ctx, "description"@, spec_compound_string(desc))),
            then_edits(spec_simple_changes(ctx), spec_inverted_flags(ctx)),
        ),
    )
}

/// Carrying over a move reaches a negation that overflows: the recoil, when
/// every edit before it succeeded, or a stat stage, when every edit before
/// the effects succeeded.
pub open spec fn changes_overflow(ctx: Context, name: Seq<char>, desc: Seq<char>) -> bool {
    let before = spec_changes_before_recoil(ctx, name, desc);
    ||| before is Ok && recoil_overflows(ctx)
    ||| before is Ok && spec_recoil(ctx) is Ok && spec_hit_count(ctx) is Ok && effects_overflow(
        ctx,
    )
}

proof fn lemma_step(acc: Seq<EditView>, step: Result<Seq<EditView>, ImportErrorView>, rest: Result<
    Seq<EditView>,
    ImportErrorView,
>)
    requires
        step is Ok,
    ensures
        then_edits(Ok(acc), then_edits(step, rest)) == then_edits(Ok(acc + step->Ok_0), rest),
{
    super::lemma_then_ok_assoc(acc, step->Ok_0, rest);
}

/// The edits that carry a changed move into its C initializer `move_node`,
/// with its new name and description.
pub fn handle_changes(
    diff_keys: &[String],
    modded: &Move,
    move_node: &EntryNode,
    text: &[u8],
    name: &str,
    desc: &str,
) -> (res: Result<Vec<Edit>, ImportError>)
    requires
        !changes_overflow(
            Context { node: move_node, text, diff_keys, entry: modded },
            name@,
            desc@,
        ),
    ensures
        edits_are(
            res,
            spec_changes(
                Context { node: move_node, text, diff_keys, entry: modded },
                name@,
                desc@,
            ),
        ),
{
    let context = Context { node: move_node, text, diff_keys, entry: modded };
    let ghost ctx = context;
    let mut field_name = super::text::text("COMPOUND_STRING(");
    push_str(&mut field_name, to_debug_quoted(name).as_str());
    push_str(&mut field_name, ")");
    let mut desc_name = super::text::text("COMPOUND_STRING(");
    push_str(&mut desc_name, to_debug_quoted(desc).as_str());
    push_str(&mut desc_name, ")");

    let ghost r14 = opt_as_seq(spec_move_category(ctx));
    let ghost r13 = then_edits(opt_as_seq(spec_crit_stage(ctx)), r14);
    let ghost r12 = then_edits(opt_as_seq(spec_target(ctx)), r13);
    let ghost r11 = then_edits(opt_as_seq(spec_category(ctx)), r12);
    let ghost r10 = then_edits(opt_as_seq(spec_type(ctx)), r11);
    let ghost r9 = then_edits(opt_as_seq(spec_power(ctx)), r10);
    let ghost r8 = then_edits(opt_as_seq(spec_accuracy(ctx)), r9);
    let ghost r7 = then_edits(spec_effects(ctx), r8);
    let ghost r6 = then_edits(spec_hit_count(ctx), r7);
    let ghost r5 = then_edits(spec_recoil(ctx), r6);
    let ghost r4 = then_edits(spec_inverted_flags(ctx), r5);
    let ghost r3 = then_edits(spec_simple_changes(ctx), r4);
    let ghost r2 = then_edits(
        one_as_seq(spec_set(ctx, "description"@, spec_compound_string(desc@))),
        r3,
    );
    let ghost total = spec_changes(ctx, name@, desc@);
    assert(total == then_edits(one_as_seq(spec_set(ctx, "name"@, spec_compound_string(name@))), r2));

    let mut edits: Vec<Edit> = Vec::new();
    proof {
        super::lemma_then_empty(total);
        assert(super::edit_views(edits@) =~= Seq::<EditView>::empty());
    }
    extend_opt(&mut edits, set_opt(&context, "name", field_name.as_str()))?;
    proof {
        lemma_step(Seq::empty(), one_as_seq(spec_set(ctx, "name"@, spec_compound_string(name@))), r2);
        assert(Seq::<EditView>::empty() + super::edit_views(edits@) =~= super::edit_views(edits@));
    }
    let ghost acc = super::edit_views(edits@);
    extend_opt(&mut edits, set_opt(&context, "description", desc_name.as_str()))?;
    proof {
        lemma_step(acc, one_as_seq(spec_set(ctx, "description"@, spec_compound_string(desc@))), r3);
    }
    let ghost acc = super::edit_views(edits@);
    extend_edits(&mut edits, handle_simple_changes(&context))?;
    proof {
        lemma_step(acc, spec_simple_changes(ctx), r4);
    }
    let ghost acc = super::edit_views(edits@);
    extend_edits(&mut edits, handle_inverted_flags(&context))?;
    proof {
        lemma_step(acc, spec_inverted_flags(ctx), r5);
    }
    let ghost acc = super::edit_views(edits@);
    extend_edits(&mut edits, handle_recoil(&context))?;
    proof {
        lemma_step(acc, spec_recoil(ctx), r6);
    }
    let ghost acc = super::edit_views(edits@);
    extend_edits(&mut edits, handle_hit_count(&context))?;
    proof {
        lemma_step(acc, spec_hit_count(ctx), r7);
    }
    let ghost acc = super::edit_views(edits@);
    extend_edits(&mut edits, handle_effects(&context))?;
    proof {
        lemma_step(acc, spec_effects(ctx), r8);
    }
    let ghost acc = super::edit_views(edits@);
    extend_opt(&mut edits, handle_accuracy(&context))?;
    proof {
        lemma_step(acc, opt_as_seq(spec_accuracy(ctx)), r9);
    }
    let ghost acc = super::edit_views(edits@);
    extend_opt(&mut edits, handle_power(&context))?;
    proof {
        lemma_step(acc, opt_as_seq(spec_power(ctx)), r10);
    }
    let ghost acc = super::edit_views(edits@);
    extend_opt(&mut edits, handle_type(&context))?;
    proof {
        lemma_step(acc, opt_as_seq(spec_type(ctx)), r11);
    }
    let ghost acc = super::edit_views(edits@);
    extend_opt(&mut edits, handle_category(&context))?;
    proof {
        lemma_step(acc, opt_as_seq(spec_category(ctx)), r12);
    }
    let ghost acc = super::edit_views(edits@);
    extend_opt(&mut edits, handle_target(&context))?;
    proof {
        lemma_step(acc, opt_as_seq(spec_target(ctx)), r13);
    }
    let ghost acc = super::edit_views(edits@);
    extend_opt(&mut edits, handle_crit_stage(&context))?;
    proof {
        lemma_step(acc, opt_as_seq(spec_crit_stage(ctx)), r14);
    }
    let ghost acc = super::edit_views(edits@);
    extend_opt(&mut edits, handle_move_category(&context))?;
    proof {
        if let Ok(x) = r14 {
            assert(acc + x =~= super::edit_views(edits@));
        }
    }
    Ok(edits)
}


/// Each known exported target has a C target of its own: `One` (a single
/// foe) is `MOVE_TARGET_SELECTED`, `AllFoes` is `MOVE_TARGET_BOTH`, `Self` is
/// `MOVE_TARGET_USER`, and no other target is known. A changed target of
/// `One` is written as `MOVE_TARGET_SELECTED`.
pub proof fn law_targets_keep_their_meaning(t: Seq<char>, ctx: Context)
    ensures
        (spec_target_name(t) == Some("MOVE_TARGET_SELECTED"@)) <==> (t == "One"@),
        (spec_target_name(t) == Some("MOVE_TARGET_BOTH"@)) <==> (t == "AllFoes"@),
        (spec_target_name(t) == Some("MOVE_TARGET_USER"@)) <==> (t == "Self"@),
        spec_target_name(t) is Some <==> (t == "One"@ || t == "AllFoes"@ || t == "Self"@),
        (spec_has_key(ctx.diff_keys@, "raw_target"@) && ctx.entry.fields.raw_target is Some
            && ctx.entry.fields.raw_target->0@ == "One"@) ==> spec_target(ctx) == match spec_set(
            ctx,
            "target"@,
            "MOVE_TARGET_SELECTED"@,
        ) {
            Ok(e) => Ok(Some(e)),
            Err(e) => Err(e),
        },
{
    reveal_strlit("One");
    reveal_strlit("AllFoes");
    reveal_strlit("Self");
    reveal_strlit("MOVE_TARGET_SELECTED");
    reveal_strlit("MOVE_TARGET_BOTH");
    reveal_strlit("MOVE_TARGET_USER");
    assert("MOVE_TARGET_BOTH"@[12] != "MOVE_TARGET_USER"@[12]);
    assert("MOVE_TARGET_BOTH"@ != "MOVE_TARGET_USER"@);
    assert("MOVE_TARGET_SELECTED"@.len() != "MOVE_TARGET_BOTH"@.len());
    assert("MOVE_TARGET_SELECTED"@.len() != "MOVE_TARGET_USER"@.len());
    assert("One"@.len() == 3 && "AllFoes"@.len() == 7 && "Self"@.len() == 4);
    if t == "One"@ {
        assert(t != "AllFoes"@ && t != "Self"@);
    } else if t == "AllFoes"@ {
        assert(t != "Self"@);
        assert(spec_target_name(t) == Some("MOVE_TARGET_BOTH"@));
    } else if t == "Self"@ {
        assert(spec_target_name(t) == Some("MOVE_TARGET_USER"@));
    }
}

} // verus!
