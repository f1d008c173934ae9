use emerald_tools::data::{MonData, Party, Pokemon, AILMENT_FAINTED};
use emerald_tools::future::{sleep, Done, Executor, FuturePoll, PollOutcome};
use emerald_tools::input::Button;
use emerald_tools::party_screen::{
    action_count, action_outcome, choose_switch_step, effective_style, entry_blocks, entry_slots,
    give_hold_item, hp_bar, hp_text, index_leftright, index_updown, initial_style, level_text,
    level_text_x, main_loop_step, mon_pos,
    sprite_positions, status_animation, switch_frame_positions, switch_previous_style,
    take_hold_item, update_index, ActionOutcome, BackgroundStyle, HpBar, MenuStep, PokeAction,
    SwitchStep,
};
use emerald_tools::party_screen::graphics::Vec2D;

const KEY_A: u16 = 1;
const KEY_B: u16 = 2;
const KEY_RIGHT: u16 = 16;
const KEY_LEFT: u16 = 32;
const KEY_UP: u16 = 64;
const KEY_DOWN: u16 = 128;

fn mon(level: u32, hp: u32, item: u32, ailment: u8) -> MonData {
    MonData {
        species: 25,
        species_or_egg: 25,
        level,
        hp,
        max_hp: 40,
        tera_type: 3,
        is_egg: 0,
        personality: 0xDEADBEEF,
        is_shiny: 1,
        held_item: item,
        status: 0,
        ailment,
    }
}

fn party() -> Party {
    Party { mons: vec![mon(12, 30, 0, 0), mon(40, 0, 7, 2), mon(5, 5, 0, 3)], count: 2 }
}

#[test]
fn button_codes_are_bits() {
    assert_eq!(Button::A.code(), 1);
    assert_eq!(Button::B.code(), 2);
    assert_eq!(Button::Start.code(), 8);
    assert_eq!(Button::Down.code(), 128);
    assert_eq!(Button::L.code(), 512);
}

#[test]
fn button_pressed_held_repeat_read_their_bit() {
    assert!(Button::Start.pressed(0b1000));
    assert!(!Button::Start.pressed(0b0111));
    assert!(Button::R.held(0x100));
    assert!(!Button::B.held(0x1));
    assert!(Button::Left.repeat(KEY_LEFT | KEY_A));
    assert!(!Button::Up.repeat(KEY_DOWN));
}

#[test]
fn future_poll_pending_then_ready() {
    let mut f = FuturePoll::new(5u8);
    assert_eq!(f.poll(PollOutcome::Pending), None);
    assert_eq!(f.future, Some(5));
    assert_eq!(f.poll(PollOutcome::Ready), Some(Done));
    assert_eq!(f.future, None);
    assert_eq!(f.poll(PollOutcome::Pending), Some(Done));
}

#[test]
fn executor_runs_the_task_it_was_given() {
    let mut ex: Executor<u32> = Executor::new();
    assert!(ex.task().is_none());
    assert_eq!(ex.poll(PollOutcome::Pending), Some(Done));
    ex.set(7);
    if let Some(t) = ex.task() {
        *t = 9;
    }
    assert_eq!(ex.0.future, Some(9));
    assert_eq!(ex.poll(PollOutcome::Pending), None);
    assert_eq!(ex.poll(PollOutcome::Ready), Some(Done));
    assert!(ex.task().is_none());
}

#[test]
fn sleep_is_ready_after_exactly_its_frames() {
    let mut w = sleep(3);
    assert_eq!(w.poll_step(), PollOutcome::Pending);
    assert_eq!(w.poll_step(), PollOutcome::Pending);
    assert_eq!(w.poll_step(), PollOutcome::Pending);
    assert_eq!(w.poll_step(), PollOutcome::Ready);
    assert_eq!(w.poll_step(), PollOutcome::Ready);
    let mut z = sleep(0);
    assert_eq!(z.poll_step(), PollOutcome::Ready);
}

#[test]
fn party_members_read_their_data() {
    let p = party();
    let first = Pokemon::get_player_party(0, &p).unwrap();
    assert_eq!(first.as_ptr(), 0);
    assert_eq!(first.level(&p), 12);
    assert_eq!(first.hp(&p), 30);
    assert_eq!(first.max_hp(&p), 40);
    assert_eq!(first.tera_type(&p), 3);
    assert_eq!(first.species(&p), 25);
    assert!(!first.is_egg(&p));
    assert_eq!(first.personality(&p), 0xDEADBEEF);
    assert!(first.shiny(&p));
    assert_eq!(first.item(&p), None);
    assert!(Pokemon::get_player_party(2, &p).is_none());
}

#[test]
fn fainted_member_shows_fainted_status() {
    let p = party();
    let second = Pokemon::get_player_party(1, &p).unwrap();
    assert_eq!(second.status(&p), AILMENT_FAINTED);
    let first = Pokemon::get_player_party(0, &p).unwrap();
    assert_eq!(first.status(&p), 0);
}

#[test]
fn item_reads_back_after_set() {
    let mut p = party();
    let first = Pokemon::get_player_party(0, &p).unwrap();
    first.set_item(&mut p, 42);
    assert_eq!(first.item(&p), Some(42));
    assert_eq!(p.mons[1].held_item, 7);
    first.set_item(&mut p, 0);
    assert_eq!(first.item(&p), None);
}

#[test]
fn swap_twice_restores_the_party() {
    let mut p = party();
    let mut a = Pokemon::get_player_party(0, &p).unwrap();
    let mut b = Pokemon::get_player_party(1, &p).unwrap();
    let before = p.mons.clone();
    Pokemon::swap(&mut a, &mut b, &mut p);
    assert_eq!(p.mons[0], before[1]);
    assert_eq!(p.mons[1], before[0]);
    assert_eq!(a.as_ptr(), 0);
    Pokemon::swap(&mut a, &mut b, &mut p);
    assert_eq!(p.mons, before);
}

#[test]
fn slot_positions_and_windows() {
    assert_eq!(mon_pos(0), (1, 1));
    assert_eq!(mon_pos(2), (21, 1));
    assert_eq!(mon_pos(4), (11, 10));
    assert_eq!(entry_blocks(0), (32, 104));
    assert_eq!(entry_blocks(1), (176, 248));
    let (_, text0) = entry_blocks(0);
    let (bg1, _) = entry_blocks(1);
    assert!(text0 + 72 <= bg1);
}

#[test]
fn styles_and_palettes() {
    assert_eq!(BackgroundStyle::Focused.palette_index(), 0);
    assert_eq!(BackgroundStyle::KoUnfocused.palette_index(), 5);
    assert_eq!(effective_style(BackgroundStyle::Focused, 0), BackgroundStyle::KoFocused);
    assert_eq!(effective_style(BackgroundStyle::Unfocused, 0), BackgroundStyle::KoUnfocused);
    assert_eq!(effective_style(BackgroundStyle::Focused, 3), BackgroundStyle::Focused);
    assert_eq!(effective_style(BackgroundStyle::SwitchFocused, 0), BackgroundStyle::SwitchFocused);
    assert_eq!(switch_previous_style(2, 2), BackgroundStyle::SwitchUnfocused);
    assert_eq!(switch_previous_style(2, 3), BackgroundStyle::Unfocused);
}

#[test]
fn sprite_offsets_from_slot() {
    let p = sprite_positions(Vec2D::new(8, 8));
    assert_eq!((p.poke.x, p.poke.y), (44, 40));
    assert_eq!((p.item.x, p.item.y), (70, 60));
    assert_eq!((p.tera.x, p.tera.y), (70, 28));
    assert_eq!((p.status.x, p.status.y), (20, 52));
}

#[test]
fn switch_animation_ends_on_the_other_slot() {
    let a = Vec2D::new(8, 8);
    let b = Vec2D::new(88, 80);
    let (s0, o0) = switch_frame_positions(a, b, 0, 4);
    assert_eq!((s0.x, s0.y, o0.x, o0.y), (8, 8, 88, 80));
    let (s2, o2) = switch_frame_positions(a, b, 2, 4);
    assert_eq!((s2.x, s2.y), (48, 44));
    assert_eq!((o2.x, o2.y), (48, 44));
    let (s4, o4) = switch_frame_positions(a, b, 4, 4);
    assert_eq!((s4.x, s4.y, o4.x, o4.y), (88, 80, 8, 8));
    let (s1, _) = switch_frame_positions(a, b, 1, 3);
    assert_eq!((s1.x, s1.y), (29 + 5, 26 + 5));
}

#[test]
fn navigation_wraps_and_clamps() {
    assert_eq!(index_updown(6, 4, -3), 1);
    assert_eq!(index_updown(6, 1, -3), 4);
    assert_eq!(index_updown(3, 1, -3), 2);
    assert_eq!(index_leftright(3, 2, 1), 0);
    assert_eq!(index_leftright(3, 0, -1), 2);
    assert_eq!(update_index(6, 0, KEY_RIGHT), 1);
    assert_eq!(update_index(6, 0, KEY_LEFT), 5);
    assert_eq!(update_index(6, 0, KEY_DOWN), 3);
    assert_eq!(update_index(6, 4, KEY_UP), 1);
    assert_eq!(update_index(6, 4, 0), 4);
    assert_eq!(update_index(6, 0, KEY_RIGHT | KEY_LEFT), 1);
}

#[test]
fn hp_bar_widths_and_colours() {
    assert_eq!(hp_bar(20, 20), HpBar { width: 48, color1: 13, color2: 12 });
    assert_eq!(hp_bar(10, 20), HpBar { width: 24, color1: 13, color2: 12 });
    assert_eq!(hp_bar(5, 20), HpBar { width: 12, color1: 11, color2: 10 });
    assert_eq!(hp_bar(1, 20), HpBar { width: 2, color1: 15, color2: 14 });
    assert_eq!(hp_bar(0, 20), HpBar { width: 0, color1: 15, color2: 14 });
}

#[test]
fn level_text_and_status_icons() {
    assert_eq!(level_text_x(20), 49);
    assert_eq!(level_text_x(0), 69);
    assert_eq!(status_animation(0), None);
    assert_eq!(status_animation(3), Some(2));
}

#[test]
fn actions_round_trip_through_ids() {
    for a in [PokeAction::Summary, PokeAction::Switch, PokeAction::GiveItem, PokeAction::TakeItem] {
        assert_eq!(PokeAction::try_from_id(a.id()), Some(a));
    }
    assert_eq!(PokeAction::TakeItem.id(), 4);
    assert_eq!(PokeAction::try_from_id(0), None);
    assert_eq!(PokeAction::try_from_id(5), None);
    assert_eq!(action_count(true), 2);
    assert_eq!(action_count(false), 4);
}

#[test]
fn menu_loop_steps() {
    assert_eq!(main_loop_step(6, 0, KEY_B), MenuStep::Exit);
    assert_eq!(main_loop_step(6, 0, KEY_B | KEY_RIGHT), MenuStep::Exit);
    assert_eq!(main_loop_step(6, 0, KEY_RIGHT), MenuStep::ChangeFocus(1));
    assert_eq!(main_loop_step(6, 0, KEY_A), MenuStep::OpenActions);
    assert_eq!(main_loop_step(6, 0, KEY_A | KEY_RIGHT), MenuStep::ChangeFocus(1));
    assert_eq!(main_loop_step(1, 0, KEY_RIGHT | KEY_A), MenuStep::OpenActions);
    assert_eq!(main_loop_step(6, 0, 0), MenuStep::Idle);
}

#[test]
fn action_outcomes() {
    assert_eq!(action_outcome(Some(PokeAction::Summary)), (ActionOutcome::OpenSummary, true));
    assert_eq!(action_outcome(Some(PokeAction::GiveItem)), (ActionOutcome::ChooseItemToGive, true));
    assert_eq!(action_outcome(Some(PokeAction::TakeItem)), (ActionOutcome::TakeItem, false));
    assert_eq!(action_outcome(Some(PokeAction::Switch)), (ActionOutcome::Switch, false));
    assert_eq!(action_outcome(None), (ActionOutcome::Stay, false));
}

#[test]
fn switch_choice_steps() {
    assert_eq!(choose_switch_step(6, 2, 2, KEY_B | KEY_A), SwitchStep::Cancel);
    assert_eq!(choose_switch_step(6, 2, 4, KEY_A), SwitchStep::Chosen(2));
    assert_eq!(
        choose_switch_step(6, 2, 2, KEY_RIGHT),
        SwitchStep::Move { new_index: 3, previous: BackgroundStyle::SwitchUnfocused }
    );
    assert_eq!(
        choose_switch_step(6, 2, 3, KEY_LEFT),
        SwitchStep::Move { new_index: 2, previous: BackgroundStyle::Unfocused }
    );
    assert_eq!(choose_switch_step(6, 2, 3, 0), SwitchStep::Idle);
}

#[test]
fn take_and_give_items() {
    let mut p = party();
    let second = Pokemon::get_player_party(1, &p).unwrap();
    assert_eq!(take_hold_item(&second, &mut p), Some(7));
    assert_eq!(second.item(&p), None);
    assert_eq!(take_hold_item(&second, &mut p), None);
    assert_eq!(give_hold_item(&mut p, 0, 11), (true, None));
    assert_eq!(give_hold_item(&mut p, 0, 12), (true, Some(11)));
    assert_eq!(p.mons[0].held_item, 12);
    let before = p.mons.clone();
    assert_eq!(give_hold_item(&mut p, 2, 5), (false, None));
    assert_eq!(p.mons, before);
}

#[test]
fn entry_slots_are_the_slots_in_use() {
    assert_eq!(entry_slots(&party()), vec![0, 1]);
    let full = Party { mons: vec![mon(1, 1, 0, 0); 8], count: 8 };
    assert_eq!(entry_slots(&full), vec![0, 1, 2, 3, 4, 5]);
    let empty = Party { mons: vec![], count: 0 };
    assert_eq!(entry_slots(&empty), Vec::<u8>::new());
}

#[test]
fn initial_styles() {
    assert_eq!(initial_style(2, 2), BackgroundStyle::Focused);
    assert_eq!(initial_style(1, 2), BackgroundStyle::Unfocused);
}

#[test]
fn level_and_hp_texts() {
    assert_eq!(level_text(5), "Lv5");
    assert_eq!(level_text(100), "Lv100");
    assert_eq!(hp_text(5, 120), "5  /120");
    assert_eq!(hp_text(0, 7), "0  /7  ");
    assert_eq!(hp_text(1000, 1000), "1000/1000");
}

#[test]
fn right_then_left_and_rows_twice_come_back() {
    for len in 1..=6usize {
        for b in 0..len as u8 {
            let r = index_leftright(len, b, 1);
            assert_eq!(index_leftright(len, r, -1), b);
        }
    }
    for b in 0..6u8 {
        assert_eq!(update_index(6, update_index(6, b, KEY_UP), KEY_DOWN), b);
    }
}

#[test]
fn sprite_offsets_off_screen() {
    let p = sprite_positions(Vec2D::new(-40, 500));
    assert_eq!((p.poke.x, p.poke.y), (-4, 532));
    assert_eq!((p.status.x, p.status.y), (-28, 544));
}

#[test]
fn switch_over_many_frames() {
    let a = Vec2D::new(168, 80);
    let b = Vec2D::new(8, 8);
    let (s, o) = switch_frame_positions(a, b, 68, 136);
    assert_eq!((s.x, s.y), (88, 44));
    assert_eq!((o.x, o.y), (88, 44));
    let (s, o) = switch_frame_positions(a, b, 136, 136);
    assert_eq!((s.x, s.y, o.x, o.y), (8, 8, 168, 80));
    let (s, _) = switch_frame_positions(Vec2D::new(-16, 0), b, 1, 2);
    assert_eq!((s.x, s.y), (4 - 8, 4));
}
