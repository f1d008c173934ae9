//! The full-screen party menu: layout of the party slots, navigation
//! between them, the hit-point bar and the decisions of the menu loop.
pub mod data;
pub mod graphics;

use crate::data::{MonData, Party, Pokemon};
use crate::input::Button;
use crate::future::PollOutcome;
use crate::importers::text::{decimal_u64, push_str, spec_decimal, text};
use graphics::{div_toward_zero, div_i16, Vec2D};
use vstd::prelude::*;

verus! {

/// The most party members the screen shows.
pub const PARTY_SIZE: usize = 6;

/// The tile position of party slot `index` on screen: three slots per row.
pub open spec fn spec_mon_pos(index: int) -> (u8, u8) {
    if index == 0 {
        (1, 1)
    } else if index == 1 {
        (11, 1)
    } else if index == 2 {
        (21, 1)
    } else if index == 3 {
        (1, 10)
    } else if index == 4 {
        (11, 10)
    } else {
        (21, 10)
    }
}

/// The tile position of party slot `index` on screen.
pub fn mon_pos(index: u8) -> (res: (u8, u8))
    requires
        index < PARTY_SIZE,
    ensures
        res == spec_mon_pos(index as int),
{
    match index {
        0 => (1, 1),
        1 => (11, 1),
        2 => (21, 1),
        3 => (1, 10),
        4 => (11, 10),
        _ => (21, 10),
    }
}

/// Tile blocks of the two windows of a party slot.
pub const BASE_BLOCK: u16 = 0x20;

/// Tiles that the background window of a slot takes (9 by 8).
pub const BG_WINDOW_TILES: u16 = 72;

/// Tiles that both windows of a slot take.
pub const BLOCK_SIZE: u16 = 144;

/// The first tile of the background window and of the text window of party
/// slot `index`: the slots' windows lie one after the other from
/// `BASE_BLOCK` on.
pub fn entry_blocks(index: u8) -> (res: (u16, u16))
    requires
        index < PARTY_SIZE,
    ensures
        res.0 == BLOCK_SIZE * index + BASE_BLOCK,
        res.1 == res.0 + BG_WINDOW_TILES,
{
    let block = BLOCK_SIZE * index as u16 + BASE_BLOCK;
    (block, block + BG_WINDOW_TILES)
}

/// The windows of different slots never share a tile.
pub proof fn law_entry_windows_disjoint(i: u8, j: u8)
    requires
        i < PARTY_SIZE,
        j < PARTY_SIZE,
        i < j,
    ensures
        BLOCK_SIZE * i + BASE_BLOCK + BLOCK_SIZE <= BLOCK_SIZE * j + BASE_BLOCK,
{
    assert(BLOCK_SIZE * i + BLOCK_SIZE <= BLOCK_SIZE * j) by (nonlinear_arith)
        requires
            i < j,
    ;
}

/// How a party slot's background is drawn.
#[derive(Clone, Copy, PartialEq, Eq, Structural, Debug)]
pub enum BackgroundStyle {
    Focused,
    Unfocused,
    SwitchFocused,
    SwitchUnfocused,
    KoFocused,
    KoUnfocused,
}

impl BackgroundStyle {
    /// The palette that draws this style.
    pub open spec fn spec_palette_index(self) -> usize {
        match self {
            BackgroundStyle::Focused => 0,
            BackgroundStyle::Unfocused => 1,
            BackgroundStyle::SwitchFocused => 2,
            BackgroundStyle::SwitchUnfocused => 3,
            BackgroundStyle::KoFocused => 4,
            BackgroundStyle::KoUnfocused => 5,
        }
    }

    /// The palette that draws this style.
    pub fn palette_index(self) -> (res: usize)
        ensures
            res == self.spec_palette_index(),
    {
        match self {
            BackgroundStyle::Focused => 0,
            BackgroundStyle::Unfocused => 1,
            BackgroundStyle::SwitchFocused => 2,
            BackgroundStyle::SwitchUnfocused => 3,
            BackgroundStyle::KoFocused => 4,
            BackgroundStyle::KoUnfocused => 5,
        }
    }
}

/// Every style has a palette of its own.
pub proof fn law_palette_index_injective(a: BackgroundStyle, b: BackgroundStyle)
    ensures
        a.spec_palette_index() == b.spec_palette_index() ==> a == b,
        a.spec_palette_index() < 6,
{
}

/// The style a slot is drawn in: a member with no hit points left is drawn
/// in the fainted variant of the focused and unfocused styles.
pub fn effective_style(style: BackgroundStyle, hp: u16) -> (res: BackgroundStyle)
    ensures
        hp == 0 && style == BackgroundStyle::Focused ==> res == BackgroundStyle::KoFocused,
        hp == 0 && style == BackgroundStyle::Unfocused ==> res == BackgroundStyle::KoUnfocused,
        !(hp == 0 && (style == BackgroundStyle::Focused || style == BackgroundStyle::Unfocused))
            ==> res == style,
{
    let ko = hp <= 0;
    match style {
        BackgroundStyle::Focused if ko => BackgroundStyle::KoFocused,
        BackgroundStyle::Unfocused if ko => BackgroundStyle::KoUnfocused,
        style => style,
    }
}

/// Pixel offsets, from a slot's top left corner, of its member's picture,
/// held-item icon, tera-type icon and status icon.
pub const POKE_SPRITE_OFFS: (i16, i16) = (36, 32);

pub const ITEM_SPRITE_OFFS: (i16, i16) = (62, 52);

pub const TERA_SPRITE_OFFS: (i16, i16) = (62, 20);

pub const STATUS_SPRITE_OFFS: (i16, i16) = (12, 44);

/// Where the picture, held item, tera type and status icons of a slot go.
#[derive(Clone, Copy, PartialEq, Eq, Structural, Debug)]
pub struct EntrySpritePositions {
    pub poke: Vec2D<i16>,
    pub item: Vec2D<i16>,
    pub tera: Vec2D<i16>,
    pub status: Vec2D<i16>,
}

/// Where the picture, held item, tera type and status icons of a slot at
/// pixel `pos` go.
pub fn sprite_positions(pos: Vec2D<i16>) -> (res: EntrySpritePositions)
    requires
        pos.x <= i16::MAX - 62,
        pos.y <= i16::MAX - 52,
    ensures
        res.poke.x == pos.x + 36 && res.poke.y == pos.y + 32,
        res.item.x == pos.x + 62 && res.item.y == pos.y + 52,
        res.tera.x == pos.x + 62 && res.tera.y == pos.y + 20,
        res.status.x == pos.x + 12 && res.status.y == pos.y + 44,
{
    EntrySpritePositions {
        poke: pos.add_vec(Vec2D::new(POKE_SPRITE_OFFS.0, POKE_SPRITE_OFFS.1)),
        item: pos.add_vec(Vec2D::new(ITEM_SPRITE_OFFS.0, ITEM_SPRITE_OFFS.1)),
        tera: pos.add_vec(Vec2D::new(TERA_SPRITE_OFFS.0, TERA_SPRITE_OFFS.1)),
        status: pos.add_vec(Vec2D::new(STATUS_SPRITE_OFFS.0, STATUS_SPRITE_OFFS.1)),
    }
}

/// One coordinate of a slot that moves from `from` to `to`, at frame `i`
/// of `frames`.
pub open spec fn spec_lerp(from: int, to: int, i: int, frames: int) -> int {
    div_toward_zero(to * i, frames) + div_toward_zero(from * (frames - i), frames)
}

/// One coordinate of a slot in motion can be computed in 16 bits: both
/// products and their quotients' sum fit.
pub open spec fn lerp_fits(from: int, to: int, i: int, frames: int) -> bool {
    &&& i16::MIN <= to * i <= i16::MAX
    &&& i16::MIN <= from * (frames - i) <= i16::MAX
    &&& i16::MIN <= spec_lerp(from, to, i, frames) <= i16::MAX
}

fn lerp_coord(from: i16, to: i16, i: i16, frames: i16) -> (res: i16)
    requires
        0 < frames,
        0 <= i <= frames,
        lerp_fits(from as int, to as int, i as int, frames as int),
    ensures
        res == spec_lerp(from as int, to as int, i as int, frames as int),
{
    let a = div_i16(to * i, frames);
    let b = div_i16(from * (frames - i), frames);
    a + b
}

/// The positions of two slots that trade places, at frame `i` of `frames`:
/// each moves in a straight line from where it is to where the other is.
pub fn switch_frame_positions(pos_self: Vec2D<i16>, pos_other: Vec2D<i16>, i: i16, frames: i16)
    -> (res: (Vec2D<i16>, Vec2D<i16>))
    requires
        0 < frames,
        0 <= i <= frames,
        lerp_fits(pos_self.x as int, pos_other.x as int, i as int, frames as int),
        lerp_fits(pos_self.y as int, pos_other.y as int, i as int, frames as int),
        lerp_fits(pos_other.x as int, pos_self.x as int, i as int, frames as int),
        lerp_fits(pos_other.y as int, pos_self.y as int, i as int, frames as int),
    ensures
        res.0.x == spec_lerp(pos_self.x as int, pos_other.x as int, i as int, frames as int),
        res.0.y == spec_lerp(pos_self.y as int, pos_other.y as int, i as int, frames as int),
        res.1.x == spec_lerp(pos_other.x as int, pos_self.x as int, i as int, frames as int),
        res.1.y == spec_lerp(pos_other.y as int, pos_self.y as int, i as int, frames as int),
{
    let fpos_self = Vec2D::new(
        lerp_coord(pos_self.x, pos_other.x, i, frames),
        lerp_coord(pos_self.y, pos_other.y, i, frames),
    );
    let fpos_other = Vec2D::new(
        lerp_coord(pos_other.x, pos_self.x, i, frames),
        lerp_coord(pos_other.y, pos_self.y, i, frames),
    );
    (fpos_self, fpos_other)
}

/// Slots on the screen (coordinates 0 to 240) can trade places over up to
/// 136 frames: every frame is computed in 16 bits.
pub proof fn law_switch_fits_up_to_136_frames(from: int, to: int, i: int, frames: int)
    requires
        0 <= from <= 240,
        0 <= to <= 240,
        0 < frames <= 136,
        0 <= i <= frames,
    ensures
        lerp_fits(from, to, i, frames),
{
    assert(0 <= to * i <= 240 * 136) by (nonlinear_arith)
        requires
            0 <= to <= 240,
            0 <= i <= 136,
    ;
    assert(0 <= from * (frames - i) <= 240 * 136) by (nonlinear_arith)
        requires
            0 <= from <= 240,
            0 <= frames - i <= 136,
    ;
    assert((to * i) / frames <= to) by (nonlinear_arith)
        requires
            0 <= to,
            0 <= i <= frames,
            frames > 0,
    ;
    assert((from * (frames - i)) / frames <= from) by (nonlinear_arith)
        requires
            0 <= from,
            0 <= frames - i <= frames,
            frames > 0,
    ;
    assert(0 <= (to * i) / frames) by (nonlinear_arith)
        requires
            0 <= to * i,
            frames > 0,
    ;
    assert(0 <= (from * (frames - i)) / frames) by (nonlinear_arith)
        requires
            0 <= from * (frames - i),
            frames > 0,
    ;
}

/// A slot in motion starts where it is and ends exactly where the other
/// slot was.
pub proof fn law_switch_ends_on_the_other_slot(from: int, to: int, frames: int)
    requires
        0 <= from,
        0 <= to,
        frames > 0,
    ensures
        spec_lerp(from, to, 0, frames) == from,
        spec_lerp(from, to, frames, frames) == to,
{
    assert((to * frames) / frames == to) by (nonlinear_arith)
        requires
            frames > 0,
            to >= 0,
    ;
    assert((from * frames) / frames == from) by (nonlinear_arith)
        requires
            frames > 0,
            from >= 0,
    ;
    assert(to * 0 == 0);
    assert(from * 0 == 0);
}

/// `b` read as a signed byte.
pub open spec fn as_signed(b: u8) -> int {
    if b < 128 {
        b as int
    } else {
        b - 256
    }
}

fn signed_of(b: u8) -> (res: i16)
    ensures
        res == as_signed(b),
{
    if b < 128 {
        b as i16
    } else {
        b as i16 - 256
    }
}

fn rem_euclid_i16(n: i16, m: i16) -> (res: i16)
    requires
        m > 0,
    ensures
        res == n % m,
        0 <= res < m,
{
    if n >= 0 {
        let r = (n as u16 % m as u16) as i16;
        proof {
            assert(r == n % m);
        }
        r
    } else {
        let p: u16 = (0i32 - n as i32) as u16 % (m as u16);
        proof {
            let a: int = -(n as int);
            let q: int = a / (m as int);
            let r: int = a % (m as int);
            assert(p == r);
            vstd::arithmetic::div_mod::lemma_fundamental_div_mod(a, m as int);
            assert(0 <= r < m);
            if r == 0 {
                assert(n == (-q) * (m as int) + 0) by (nonlinear_arith)
                    requires
                        a == q * m + r,
                        r == 0,
                        n == -a,
                ;
                vstd::arithmetic::div_mod::lemma_fundamental_div_mod_converse(
                    n as int,
                    m as int,
                    -q,
                    0,
                );
            } else {
                assert(n == (-q - 1) * (m as int) + (m - r)) by (nonlinear_arith)
                    requires
                        a == q * m + r,
                        n == -a,
                ;
                vstd::arithmetic::div_mod::lemma_fundamental_div_mod_converse(
                    n as int,
                    m as int,
                    -q - 1,
                    m - r,
                );
            }
        }
        if p == 0 {
            0
        } else {
            m - p as i16
        }
    }
}

/// The slot that a move up or down by `delta` from slot `base` lands on:
/// the six slots wrap around, and a slot past the last member lands on the
/// last member.
pub open spec fn spec_index_updown(entries_len: int, base: u8, delta: i8) -> u8 {
    let new = (as_signed(base) + delta) % 6;
    let clamped = if entries_len - 1 < new {
        entries_len - 1
    } else {
        new
    };
    if clamped < 0 {
        (clamped + 256) as u8
    } else {
        clamped as u8
    }
}

/// The slot that a move up or down by `delta` from slot `base` lands on.
pub fn index_updown(entries_len: usize, base: u8, delta: i8) -> (res: u8)
    requires
        entries_len <= PARTY_SIZE,
        i8::MIN <= as_signed(base) + delta <= i8::MAX,
    ensures
        res == spec_index_updown(entries_len as int, base, delta),
        entries_len > 0 ==> res < entries_len,
{
    let max = entries_len as i16;
    let new = signed_of(base) + delta as i16;
    let new = rem_euclid_i16(new, 6);
    let new = if max - 1 < new {
        max - 1
    } else {
        new
    };
    if new < 0 {
        (new + 256) as u8
    } else {
        new as u8
    }
}

/// The slot that a move left or right by `delta` from slot `base` lands
/// on: the members wrap around.
pub fn index_leftright(entries_len: usize, base: u8, delta: i8) -> (res: u8)
    requires
        0 < entries_len <= PARTY_SIZE,
        i8::MIN <= as_signed(base) + delta <= i8::MAX,
    ensures
        res == (as_signed(base) + delta) % (entries_len as int),
        res < entries_len,
{
    let new = signed_of(base) + delta as i16;
    rem_euclid_i16(new, entries_len as i16) as u8
}

/// The slot that the keys pressed this frame move the focus to: right and
/// left step through the members, up and down jump between the rows.
pub open spec fn spec_update_index(entries_len: int, index: u8, new_keys: u16) -> int {
    if Button::Right.in_keys(new_keys) {
        (index + 1) % entries_len
    } else if Button::Left.in_keys(new_keys) {
        (index - 1) % entries_len
    } else if Button::Up.in_keys(new_keys) || Button::Down.in_keys(new_keys) {
        spec_index_updown(entries_len, index, -3i8) as int
    } else {
        index as int
    }
}

/// The slot that the keys pressed this frame move the focus to.
pub fn update_index(entries_len: usize, index: u8, new_keys: u16) -> (res: u8)
    requires
        0 < entries_len <= PARTY_SIZE,
        index < PARTY_SIZE,
    ensures
        res == spec_update_index(entries_len as int, index, new_keys),
        res < entries_len || res == index,
{
    if Button::Right.pressed(new_keys) {
        return index_leftright(entries_len, index, 1);
    }
    if Button::Left.pressed(new_keys) {
        return index_leftright(entries_len, index, -1);
    }
    if Button::Up.pressed(new_keys) || Button::Down.pressed(new_keys) {
        return index_updown(entries_len, index, -3);
    }
    return index;
}

/// Stepping right and then left comes back to the slot where it started.
pub proof fn law_right_then_left_returns(entries_len: int, base: int)
    requires
        0 < entries_len <= PARTY_SIZE,
        0 <= base < entries_len,
    ensures
        ((base + 1) % entries_len - 1) % entries_len == base,
{
    if base + 1 < entries_len {
        vstd::arithmetic::div_mod::lemma_small_mod((base + 1) as nat, entries_len as nat);
        vstd::arithmetic::div_mod::lemma_small_mod(base as nat, entries_len as nat);
    } else {
        vstd::arithmetic::div_mod::lemma_fundamental_div_mod_converse(base + 1, entries_len, 1, 0);
        vstd::arithmetic::div_mod::lemma_fundamental_div_mod_converse(
            -1,
            entries_len,
            -1,
            entries_len - 1,
        );
    }
}

/// In a full party, jumping rows twice comes back to the slot where it
/// started.
pub proof fn law_rows_jump_back(base: u8)
    requires
        base < PARTY_SIZE,
    ensures
        spec_index_updown(6, spec_index_updown(6, base, -3i8), -3i8) == base,
{
}

/// Width, in pixels, of a full hit-point bar.
pub const HP_BAR_WIDTH: u16 = 48;

/// The filled part of a hit-point bar and its two colours.
#[derive(Clone, Copy, PartialEq, Eq, Structural, Debug)]
pub struct HpBar {
    pub width: u16,
    pub color1: u8,
    pub color2: u8,
}

/// The hit-point bar of a member with `hp` of `max_hp` hit points: the
/// filled width is in proportion, rounded down; under a quarter the bar is
/// red, under a half yellow, else green.
pub fn hp_bar(hp: u16, max_hp: u16) -> (res: HpBar)
    requires
        max_hp > 0,
        hp * HP_BAR_WIDTH <= u16::MAX,
    ensures
        res.width == (hp * HP_BAR_WIDTH) / (max_hp as int),
        res.width < 12 ==> res.color1 == 15 && res.color2 == 14,
        12 <= res.width < 24 ==> res.color1 == 11 && res.color2 == 10,
        24 <= res.width ==> res.color1 == 13 && res.color2 == 12,
{
    let width = hp * HP_BAR_WIDTH / max_hp;
    let (color1, color2) = match width {
        0..12 => (15, 14),
        12..24 => (11, 10),
        _ => (13, 12),
    };
    HpBar { width, color1, color2 }
}

/// A member with no more hit points than its maximum never overfills the
/// bar, and a member at full health fills it exactly.
pub proof fn law_hp_bar_within_bounds(hp: int, max_hp: int)
    requires
        0 <= hp <= max_hp,
        max_hp > 0,
    ensures
        (hp * 48) / max_hp <= 48,
        (max_hp * 48) / max_hp == 48,
{
    assert((hp * 48) / max_hp <= 48) by (nonlinear_arith)
        requires
            0 <= hp <= max_hp,
            max_hp > 0,
    ;
    assert((max_hp * 48) / max_hp == 48) by (nonlinear_arith)
        requires
            max_hp > 0,
    ;
}

/// The slots of the party that the screen shows: those in use, at most
/// six.
pub open spec fn spec_entry_slots(count: int) -> Seq<u8> {
    Seq::new(if count < 6 {
        count as nat
    } else {
        6
    }, |i: int| i as u8)
}

/// The slots of the party that the screen shows, in order.
pub fn entry_slots(party: &Party) -> (res: Vec<u8>)
    requires
        party.wf(),
    ensures
        res@ == spec_entry_slots(party.count as int),
{
    let mut res: Vec<u8> = Vec::new();
    let mut i: u8 = 0;
    while i < 6
        invariant
            i <= 6,
            party.wf(),
            res@ == spec_entry_slots(if party.count < i {
                party.count as int
            } else {
                i as int
            }),
        decreases 6 - i,
    {
        let ghost prev = res@;
        match Pokemon::get_player_party(i, party) {
            Some(_) => {
                res.push(i);
                assert(res@ =~= spec_entry_slots(i + 1));
                assert(res@ == prev.push(i));
            },
            None => {
                assert(res@ =~= spec_entry_slots(if party.count < i + 1 {
                    party.count as int
                } else {
                    i + 1
                }));
            },
        }
        i = i + 1;
    }
    res
}

/// The style a slot starts in: focused for the focused slot, else
/// unfocused.
pub fn initial_style(index: u8, focused: u8) -> (res: BackgroundStyle)
    ensures
        index == focused ==> res == BackgroundStyle::Focused,
        index != focused ==> res == BackgroundStyle::Unfocused,
{
    if index == focused {
        BackgroundStyle::Focused
    } else {
        BackgroundStyle::Unfocused
    }
}

/// `s` padded with spaces on the right to at least 3 characters.
pub open spec fn spec_pad3(s: Seq<char>) -> Seq<char> {
    if s.len() < 3 {
        s + Seq::new((3 - s.len()) as nat, |_i: int| ' ')
    } else {
        s
    }
}

/// The level text of a member: `Lv` and the level.
pub fn level_text(level: u8) -> (res: String)
    ensures
        res@ == "Lv"@ + spec_decimal(level as nat),
{
    let mut s = text("Lv");
    push_str(&mut s, decimal_u64(level as u64).as_str());
    s
}

/// The hit-point text of a member, each number left-aligned in 3
/// characters.
pub open spec fn spec_hp_text(hp: u16, max_hp: u16) -> Seq<char> {
    spec_pad3(spec_decimal(hp as nat)) + "/"@ + spec_pad3(spec_decimal(max_hp as nat))
}

fn pad3(s: &mut String)
    ensures
        final(s)@ == spec_pad3(old(s)@),
{
    let ghost start = s@;
    let n = s.unicode_len();
    let mut k: usize = n;
    while k < 3
        invariant
            n == start.len(),
            n <= k <= 3 || (k == n && n >= 3),
            s@ == start + Seq::new((k - n) as nat, |_i: int| ' '),
        decreases 3 - k,
    {
        push_str(s, " ");
        proof {
            reveal_strlit(" ");
        }
        assert(s@ =~= start + Seq::new((k + 1 - n) as nat, |_i: int| ' '));
        k = k + 1;
    }
    assert(n < 3 ==> k == 3);
    if n >= 3 {
        assert(s@ =~= start);
    }
}

/// The hit-point text of a member; it must fit the 10 characters its
/// buffer holds.
pub fn hp_text(hp: u16, max_hp: u16) -> (res: String)
    requires
        spec_hp_text(hp, max_hp).len() <= 10,
    ensures
        res@ == spec_hp_text(hp, max_hp),
{
    let mut a = decimal_u64(hp as u64);
    pad3(&mut a);
    let mut b = decimal_u64(max_hp as u64);
    pad3(&mut b);
    push_str(&mut a, "/");
    push_str(&mut a, b.as_str());
    a
}

/// The x position of the level text that right-aligns it at pixel 69,
/// given its width.
pub fn level_text_x(width: u16) -> (res: u8)
    requires
        width <= 69,
    ensures
        res == 69 - width,
{
    69 - width as u8
}

/// The status-icon animation that shows ailment `status`, or none for no
/// ailment.
pub fn status_animation(status: u8) -> (res: Option<u8>)
    ensures
        status == 0 <==> res is None,
        res matches Some(a) ==> a == status - 1,
{
    if status == 0 {
        return None;
    }
    Some(status - 1)
}

/// What the action menu of a party member offers.
#[derive(Clone, Copy, PartialEq, Eq, Structural, Debug)]
pub enum PokeAction {
    Summary,
    Switch,
    GiveItem,
    TakeItem,
}

impl PokeAction {
    /// The number that stands for this action in the list menu.
    pub open spec fn spec_id(self) -> i32 {
        match self {
            PokeAction::Summary => 1,
            PokeAction::Switch => 2,
            PokeAction::GiveItem => 3,
            PokeAction::TakeItem => 4,
        }
    }

    /// The number that stands for this action in the list menu.
    pub fn id(self) -> (res: i32)
        ensures
            res == self.spec_id(),
    {
        match self {
            PokeAction::Summary => 1,
            PokeAction::Switch => 2,
            PokeAction::GiveItem => 3,
            PokeAction::TakeItem => 4,
        }
    }

    /// The action that a list-menu number stands for, if any.
    pub fn try_from_id(value: i32) -> (res: Option<PokeAction>)
        ensures
            res matches Some(a) ==> a.spec_id() == value,
            res is None <==> (value < 1 || value > 4),
    {
        match value {
            1 => Some(PokeAction::Summary),
            2 => Some(PokeAction::Switch),
            3 => Some(PokeAction::GiveItem),
            4 => Some(PokeAction::TakeItem),
            _ => None,
        }
    }
}

/// Every action is found again from its number: each number is in the
/// range that `try_from_id` accepts, and no two actions share one.
pub proof fn law_action_id_round_trip(a: PokeAction, b: PokeAction)
    ensures
        1 <= a.spec_id() <= 4,
        a.spec_id() == b.spec_id() ==> a == b,
{
}

/// How many actions the menu lists: an egg can only be looked at or moved.
pub fn action_count(is_egg: bool) -> (res: usize)
    ensures
        is_egg ==> res == 2,
        !is_egg ==> res == 4,
{
    if is_egg {
        2
    } else {
        4
    }
}

/// What the menu loop does after one frame of input.
#[derive(Clone, Copy, PartialEq, Eq, Structural, Debug)]
pub enum MenuStep {
    /// B was pressed: leave the menu.
    Exit,
    /// The focus moves to another slot.
    ChangeFocus(u8),
    /// A was pressed: open the action menu.
    OpenActions,
    /// Nothing to do this frame.
    Idle,
}

/// One frame of the menu loop, given the keys pressed this frame: B
/// leaves, a move of the focus comes next, then A.
pub open spec fn spec_main_loop_step(entries_len: int, focused: u8, new_keys: u16) -> MenuStep {
    let n = spec_update_index(entries_len, focused, new_keys);
    if Button::B.in_keys(new_keys) {
        MenuStep::Exit
    } else if n != focused {
        MenuStep::ChangeFocus(n as u8)
    } else if Button::A.in_keys(new_keys) {
        MenuStep::OpenActions
    } else {
        MenuStep::Idle
    }
}

/// One frame of the menu loop, given the keys pressed this frame.
pub fn main_loop_step(entries_len: usize, focused: u8, new_keys: u16) -> (res: MenuStep)
    requires
        0 < entries_len <= PARTY_SIZE,
        focused < PARTY_SIZE,
    ensures
        res == spec_main_loop_step(entries_len as int, focused, new_keys),
        res matches MenuStep::ChangeFocus(n) ==> n != focused && n < entries_len,
{
    if Button::B.pressed(new_keys) {
        return MenuStep::Exit;
    }
    let new_index = update_index(entries_len, focused, new_keys);
    if new_index != focused {
        return MenuStep::ChangeFocus(new_index);
    }
    if Button::A.pressed(new_keys) {
        return MenuStep::OpenActions;
    }
    MenuStep::Idle
}

/// What the menu does with the action chosen.
#[derive(Clone, Copy, PartialEq, Eq, Structural, Debug)]
pub enum ActionOutcome {
    /// Leave for the summary screen.
    OpenSummary,
    /// Leave for the bag to choose an item to give.
    ChooseItemToGive,
    /// Take the held item back to the bag and stay.
    TakeItem,
    /// Choose a member to trade places with and stay.
    Switch,
    /// Menu cancelled: stay.
    Stay,
}

impl ActionOutcome {
    /// Whether the menu loop ends after this outcome.
    pub open spec fn spec_leaves_menu(self) -> bool {
        self == ActionOutcome::OpenSummary || self == ActionOutcome::ChooseItemToGive
    }
}

/// What the menu does with the action chosen, and whether it then leaves.
pub fn action_outcome(action: Option<PokeAction>) -> (res: (ActionOutcome, bool))
    ensures
        res.1 == res.0.spec_leaves_menu(),
        action == Some(PokeAction::Summary) ==> res.0 == ActionOutcome::OpenSummary,
        action == Some(PokeAction::GiveItem) ==> res.0 == ActionOutcome::ChooseItemToGive,
        action == Some(PokeAction::TakeItem) ==> res.0 == ActionOutcome::TakeItem,
        action == Some(PokeAction::Switch) ==> res.0 == ActionOutcome::Switch,
        action is None ==> res.0 == ActionOutcome::Stay,
{
    match action {
        Some(PokeAction::Summary) => (ActionOutcome::OpenSummary, true),
        Some(PokeAction::GiveItem) => (ActionOutcome::ChooseItemToGive, true),
        Some(PokeAction::TakeItem) => (ActionOutcome::TakeItem, false),
        Some(PokeAction::Switch) => (ActionOutcome::Switch, false),
        None => (ActionOutcome::Stay, false),
    }
}

/// What choosing a member to trade places with does after one frame.
#[derive(Clone, Copy, PartialEq, Eq, Structural, Debug)]
pub enum SwitchStep {
    /// B was pressed: give up.
    Cancel,
    /// A was pressed: the slot that trades places.
    Chosen(usize),
    /// The focus moves; the slot left is drawn in `previous`.
    Move { new_index: u8, previous: BackgroundStyle },
    /// Nothing to do this frame.
    Idle,
}

/// The style that the slot losing the focus is drawn in while a member to
/// trade places with is chosen.
pub fn switch_previous_style(switch_index: u8, focused: u8) -> (res: BackgroundStyle)
    ensures
        switch_index == focused ==> res == BackgroundStyle::SwitchUnfocused,
        switch_index != focused ==> res == BackgroundStyle::Unfocused,
{
    if switch_index == focused {
        BackgroundStyle::SwitchUnfocused
    } else {
        BackgroundStyle::Unfocused
    }
}

/// One frame of choosing a member to trade places with the one in slot
/// `switching_index`, with the focus on `focused`: B gives up, A chooses,
/// else the focus may move.
pub open spec fn spec_switch_step(
    entries_len: int,
    switching_index: u8,
    focused: u8,
    new_keys: u16,
) -> SwitchStep {
    let n = spec_update_index(entries_len, focused, new_keys);
    if Button::B.in_keys(new_keys) {
        SwitchStep::Cancel
    } else if Button::A.in_keys(new_keys) {
        SwitchStep::Chosen(switching_index as usize)
    } else if n != focused {
        SwitchStep::Move {
            new_index: n as u8,
            previous: if switching_index == focused {
                BackgroundStyle::SwitchUnfocused
            } else {
                BackgroundStyle::Unfocused
            },
        }
    } else {
        SwitchStep::Idle
    }
}

/// One frame of choosing a member to trade places with.
pub fn choose_switch_step(entries_len: usize, switching_index: u8, focused: u8, new_keys: u16)
    -> (res: SwitchStep)
    requires
        0 < entries_len <= PARTY_SIZE,
        focused < PARTY_SIZE,
    ensures
        res == spec_switch_step(entries_len as int, switching_index, focused, new_keys),
        res matches SwitchStep::Move { new_index, previous } ==> new_index != focused
            && new_index < entries_len,
{
    if Button::B.pressed(new_keys) {
        return SwitchStep::Cancel;
    }
    if Button::A.pressed(new_keys) {
        return SwitchStep::Chosen(switching_index as usize);
    }
    let new_index = update_index(entries_len, focused, new_keys);
    if new_index != focused {
        return SwitchStep::Move {
            new_index,
            previous: switch_previous_style(switching_index, focused),
        };
    }
    SwitchStep::Idle
}

/// Takes the held item of `poke` away and gives back the item taken, to go
/// to the bag; nothing changes when it holds none.
pub fn take_hold_item(poke: &Pokemon, party: &mut Party) -> (taken: Option<usize>)
    requires
        poke.valid(old(party)),
    ensures
        old(party).mons@[poke.spec_slot() as int].held_item == 0 <==> taken is None,
        taken matches Some(n) ==> n == old(party).mons@[poke.spec_slot() as int].held_item,
        taken is None ==> final(party).mons@ == old(party).mons@,
        taken is Some ==> final(party).mons@ == old(party).mons@.update(
            poke.spec_slot() as int,
            MonData { held_item: 0, ..poke.data(old(party)) },
        ),
        final(party).count == old(party).count,
{
    match poke.item(party) {
        Some(item) => {
            poke.set_item(party, 0);
            Some(item)
        },
        None => None,
    }
}

/// Gives `item_to_give` to the member in slot `index`, if that slot is in
/// use, and gives back the item it held before, to go to the bag.
pub fn give_hold_item(party: &mut Party, index: u8, item_to_give: u16) -> (res: (
    bool,
    Option<usize>,
))
    requires
        old(party).wf(),
    ensures
        res.0 <==> index < old(party).count,
        !res.0 ==> final(party).mons@ == old(party).mons@ && res.1 is None,
        res.0 ==> final(party).mons@ == old(party).mons@.update(
            index as int,
            MonData { held_item: item_to_give as u32, ..old(party).mons@[index as int] },
        ),
        res.0 ==> (old(party).mons@[index as int].held_item == 0 <==> res.1 is None),
        res.1 matches Some(n) ==> n == old(party).mons@[index as int].held_item,
        final(party).count == old(party).count,
        final(party).wf(),
{
    match Pokemon::get_player_party(index, party) {
        Some(poke) => {
            let previous = poke.item(party);
            poke.set_item(party, item_to_give);
            (true, previous)
        },
        None => (false, None),
    }
}


/// The slots lie three to a row in party order: slot `i` is at tile column
/// `1 + 10 * (i % 3)` of row `1 + 9 * (i / 3)`.
pub proof fn law_slots_three_per_row(i: int)
    requires
        0 <= i < PARTY_SIZE,
    ensures
        spec_mon_pos(i).0 == 1 + 10 * (i % 3),
        spec_mon_pos(i).1 == 1 + 9 * (i / 3),
{
}

} // verus!
