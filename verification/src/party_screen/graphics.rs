//! Positions, rectangles, palettes, sprites, windows and tiles of the party
//! screen, and the arithmetic that lays them out.
use core::marker::PhantomData;
use vstd::prelude::*;

verus! {

/// A pair of coordinates or sizes.
#[derive(Clone, Copy, PartialEq, Eq, Structural, Debug)]
pub struct Vec2D<T> {
    pub x: T,
    pub y: T,
}

impl<T> Vec2D<T> {
    /// The pair `(x, y)`.
    pub fn new(x: T, y: T) -> (res: Self)
        ensures
            res.x == x,
            res.y == y,
    {
        Vec2D { x, y }
    }
}

impl Vec2D<u8> {
    /// The origin.
    pub fn zero() -> (res: Self)
        ensures
            res.x == 0 && res.y == 0,
    {
        Vec2D { x: 0, y: 0 }
    }

    /// A position in 8-pixel tiles, in pixels.
    pub fn tile_to_pixel(self) -> (res: Vec2D<i16>)
        ensures
            res.x == self.x * 8,
            res.y == self.y * 8,
    {
        Vec2D { x: self.x as i16 * 8, y: self.y as i16 * 8 }
    }

    /// The area `x * y`.
    pub fn size(&self) -> (res: u8)
        requires
            self.x * self.y <= u8::MAX,
        ensures
            res == self.x * self.y,
    {
        self.x * self.y
    }
}

impl Vec2D<u16> {
    /// The area `x * y`.
    pub fn size(&self) -> (res: u16)
        requires
            self.x * self.y <= u16::MAX,
        ensures
            res == self.x * self.y,
    {
        self.x * self.y
    }
}

impl Vec2D<u32> {
    /// The area `x * y`.
    pub fn size(&self) -> (res: u32)
        requires
            self.x * self.y <= u32::MAX,
        ensures
            res == self.x * self.y,
    {
        self.x * self.y
    }
}

impl Vec2D<i32> {
    /// The area `x * y`.
    pub fn size(&self) -> (res: i32)
        requires
            i32::MIN <= self.x * self.y <= i32::MAX,
        ensures
            res == self.x * self.y,
    {
        self.x * self.y
    }
}

impl Vec2D<i16> {
    /// The area `x * y`.
    pub fn size(&self) -> (res: i16)
        requires
            i16::MIN <= self.x * self.y <= i16::MAX,
        ensures
            res == self.x * self.y,
    {
        self.x * self.y
    }

    /// The component-wise sum.
    pub fn add_vec(self, other: Self) -> (res: Self)
        requires
            i16::MIN <= self.x + other.x <= i16::MAX,
            i16::MIN <= self.y + other.y <= i16::MAX,
        ensures
            res.x == self.x + other.x,
            res.y == self.y + other.y,
    {
        Vec2D { x: self.x + other.x, y: self.y + other.y }
    }

    /// The component-wise difference.
    pub fn sub_vec(self, other: Self) -> (res: Self)
        requires
            i16::MIN <= self.x - other.x <= i16::MAX,
            i16::MIN <= self.y - other.y <= i16::MAX,
        ensures
            res.x == self.x - other.x,
            res.y == self.y - other.y,
    {
        Vec2D { x: self.x - other.x, y: self.y - other.y }
    }

    /// Both components times `k`.
    pub fn mul_scalar(self, k: i16) -> (res: Self)
        requires
            i16::MIN <= self.x * k <= i16::MAX,
            i16::MIN <= self.y * k <= i16::MAX,
        ensures
            res.x == self.x * k,
            res.y == self.y * k,
    {
        Vec2D { x: self.x * k, y: self.y * k }
    }
}

/// `a / b`, rounded toward zero as the machine divides.
pub open spec fn div_toward_zero(a: int, b: int) -> int {
    if a >= 0 {
        a / b
    } else {
        -((-a) / b)
    }
}

/// `a / b` for a positive `b`, rounded toward zero.
pub fn div_i16(a: i16, b: i16) -> (res: i16)
    requires
        b > 0,
    ensures
        res == div_toward_zero(a as int, b as int),
{
    if a >= 0 {
        ((a as u16) / (b as u16)) as i16
    } else {
        let m: u16 = (0i32 - a as i32) as u16;
        let q: u16 = m / (b as u16);
        proof {
            assert(q <= m);
        }
        (0i32 - q as i32) as i16
    }
}

/// A rectangle: a position and a size.
#[derive(Clone, Copy, PartialEq, Eq, Structural, Debug)]
pub struct Rect<T> {
    pub x: T,
    pub y: T,
    pub width: T,
    pub height: T,
}

impl<T: Copy> Rect<T> {
    /// The rectangle `(x, y, width, height)`.
    pub fn new(x: T, y: T, width: T, height: T) -> (res: Self)
        ensures
            res.x == x && res.y == y && res.width == width && res.height == height,
    {
        Rect { x, y, width, height }
    }

    /// The rectangle at `pos` of size `size`.
    pub fn from_vecs(pos: Vec2D<T>, size: Vec2D<T>) -> (res: Self)
        ensures
            res.x == pos.x && res.y == pos.y && res.width == size.x && res.height == size.y,
    {
        Rect { x: pos.x, y: pos.y, width: size.x, height: size.y }
    }

    /// The size.
    pub fn dim(&self) -> (res: Vec2D<T>)
        ensures
            res.x == self.width && res.y == self.height,
    {
        Vec2D { x: self.width, y: self.height }
    }

    /// The position.
    pub fn pos(&self) -> (res: Vec2D<T>)
        ensures
            res.x == self.x && res.y == self.y,
    {
        Vec2D { x: self.x, y: self.y }
    }
}

impl Rect<u8> {
    /// A rectangle in 8-pixel tiles, in pixels.
    pub fn tile_to_pixel(self) -> (res: Rect<u16>)
        ensures
            res.x == self.x * 8,
            res.y == self.y * 8,
            res.width == self.width * 8,
            res.height == self.height * 8,
    {
        Rect {
            x: self.x as u16 * 8,
            y: self.y as u16 * 8,
            width: self.width as u16 * 8,
            height: self.height as u16 * 8,
        }
    }
}

/// Splitting a rectangle into position and size and joining them again
/// gives the rectangle back.
pub proof fn law_rect_pos_dim_round_trip<T>(r: Rect<T>)
    ensures
        (Rect { x: r.x, y: r.y, width: r.width, height: r.height }) == r,
{
}

/// Offset in palette memory of the background palettes.
pub const BG_PLTT_OFFSET: u32 = 0x000;

/// Offset in palette memory of the sprite palettes.
pub const OBJ_PLTT_OFFSET: u32 = 0x100;

/// A loaded background palette.
#[derive(Clone, Copy, PartialEq, Eq, Structural, Debug)]
pub struct BgPalette {
    index: u8,
}

impl BgPalette {
    /// The palette slot.
    pub closed spec fn spec_index(&self) -> u8 {
        self.index
    }

    /// The palette in slot `index`.
    pub fn from_index(index: u8) -> (res: Self)
        ensures
            res.spec_index() == index,
    {
        BgPalette { index }
    }

    /// The palette slot.
    pub fn index(&self) -> (res: u8)
        ensures
            res == self.spec_index(),
    {
        self.index
    }
}

/// A loaded sprite palette.
#[derive(Clone, Copy, PartialEq, Eq, Structural, Debug)]
pub struct ObjPalette {
    index: u8,
}

impl ObjPalette {
    /// The palette slot.
    pub closed spec fn spec_index(&self) -> u8 {
        self.index
    }

    /// The palette in slot `index`, taken to be loaded already.
    pub fn raw(index: u8) -> (res: Self)
        ensures
            res.spec_index() == index,
    {
        ObjPalette { index }
    }

    /// The palette slot.
    pub fn index(&self) -> (res: u8)
        ensures
            res == self.spec_index(),
    {
        self.index
    }
}

/// Where in palette memory a palette load goes and how many bytes it takes.
#[derive(Clone, Copy, PartialEq, Eq, Structural, Debug)]
pub struct PaletteLoad {
    pub offset: u32,
    pub size: u32,
}

/// The palette-memory offset and byte size of loading `colors` colors into
/// palette slot `index` above `base` (16 colors of 2 bytes per slot).
pub fn palette_load(base: u32, index: u8, colors: usize) -> (res: PaletteLoad)
    requires
        base + index * 16 <= u32::MAX,
        colors * 2 <= u32::MAX,
    ensures
        res.offset == base + index * 16,
        res.size == colors * 2,
{
    PaletteLoad { offset: base + index as u32 * 16, size: (colors * 2) as u32 }
}

/// The `C` consecutive background palettes from slot `index` on that a
/// palette of `colors` colors fills.
pub fn bg_palette_slots<const C: usize>(index: u8, colors: usize) -> (res: [BgPalette; C])
    requires
        C >= 1,
        colors / 16 >= C - 1,
        index + C - 1 <= u8::MAX,
    ensures
        forall|i: int| 0 <= i < C ==> #[trigger] res@[i].spec_index() == index + i,
{
    let mut res = [BgPalette { index: 0 };C];
    let mut i: usize = 0;
    while i < C
        invariant
            i <= C,
            index + C - 1 <= u8::MAX,
            res@.len() == C,
            forall|j: int| 0 <= j < i ==> #[trigger] res@[j].spec_index() == index + j,
        decreases C - i,
    {
        res[i] = BgPalette { index: index + i as u8 };
        i = i + 1;
    }
    res
}

/// One 8x8 tile of 4-bit pixels.
#[derive(Clone, Copy, Debug)]
pub struct TileBitmap4bpp(pub [u8; 32]);

/// One tilemap entry with palette and flip bits.
#[derive(Clone, Copy, PartialEq, Eq, Structural, Debug)]
pub struct Tile4bpp(pub u16);

/// One tilemap entry that is a tile number alone.
#[derive(Clone, Copy, PartialEq, Eq, Structural, Debug)]
pub struct TilePlain(pub u8);

/// A set of tiles and where it is loaded.
pub struct Tileset<Buf> {
    pub char_base: u16,
    pub offset: u16,
    pub tiles: Buf,
    pub palette: BgPalette,
}

/// Where a set of tiles was loaded.
#[derive(Clone, Copy, PartialEq, Eq, Structural, Debug)]
pub struct TilesetHandle {
    pub char_base: u16,
    pub offset: u16,
    pub palette: BgPalette,
}

/// A tilemap and the screen block it goes to.
pub struct Tilemap<Buf> {
    pub map: u16,
    pub buffer: Buf,
}

/// One of the four background layers.
#[derive(Clone, Copy, PartialEq, Eq, Structural, Debug)]
pub enum BackgroundIndex {
    Background0,
    Background1,
    Background2,
    Background3,
}

impl BackgroundIndex {
    /// The layer number.
    pub open spec fn spec_number(self) -> u8 {
        match self {
            BackgroundIndex::Background0 => 0,
            BackgroundIndex::Background1 => 1,
            BackgroundIndex::Background2 => 2,
            BackgroundIndex::Background3 => 3,
        }
    }

    /// The layer number.
    pub fn number(self) -> (res: u8)
        ensures
            res == self.spec_number(),
    {
        match self {
            BackgroundIndex::Background0 => 0,
            BackgroundIndex::Background1 => 1,
            BackgroundIndex::Background2 => 2,
            BackgroundIndex::Background3 => 3,
        }
    }
}

/// A borrowed handle on a loaded background layer.
#[derive(Clone, Copy, Debug)]
pub struct BgHandle<'a>(pub BackgroundIndex, pub PhantomData<&'a ()>);

impl<'a> BgHandle<'a> {
    /// The layer this handle is for.
    pub fn index(&self) -> (res: BackgroundIndex)
        ensures
            res == self.0,
    {
        self.0
    }
}

/// A loaded background layer that owns its tiles and tilemap.
pub struct Background<Tiles, Maps> {
    index: BackgroundIndex,
    tileset_buffer: Tiles,
    tilemap_buffer: Maps,
}

impl<Tiles, Maps> Background<Tiles, Maps> {
    /// The layer.
    pub closed spec fn spec_index(&self) -> BackgroundIndex {
        self.index
    }

    /// A layer loaded with `tileset_buffer` and `tilemap_buffer`.
    pub fn new(index: BackgroundIndex, tileset_buffer: Tiles, tilemap_buffer: Maps) -> (res: Self)
        ensures
            res.spec_index() == index,
    {
        Background { index, tileset_buffer, tilemap_buffer }
    }

    /// A handle on this layer.
    pub fn handle<'a>(&'a self) -> (res: BgHandle<'a>)
        ensures
            res.0 == self.spec_index(),
    {
        BgHandle(self.index, PhantomData)
    }
}

/// The attributes of one sprite in the game's sprite table that this
/// screen sets.
#[derive(Clone, Copy, PartialEq, Eq, Structural, Debug)]
pub struct SpriteAttrs {
    pub x: i16,
    pub y: i16,
    /// The 4-bit palette number.
    pub palette_num: u16,
    /// The 2-bit drawing priority.
    pub priority: u16,
    pub subpriority: u8,
    pub invisible: bool,
}

/// The game's sprite table.
pub struct SpriteTable {
    pub sprites: Vec<SpriteAttrs>,
}

/// A handle on one entry of the sprite table.
#[derive(Clone, Copy, PartialEq, Eq, Structural, Debug)]
pub struct SpriteHandle {
    pub sprite_index: u16,
}

impl SpriteHandle {
    /// This handle's entry exists in `table`.
    pub open spec fn valid(&self, table: &SpriteTable) -> bool {
        self.sprite_index < table.sprites.len()
    }

    /// This handle's entry.
    pub open spec fn attrs(&self, table: &SpriteTable) -> SpriteAttrs {
        table.sprites@[self.sprite_index as int]
    }

    /// Moves the sprite to `pos`.
    pub fn set_pos(&self, table: &mut SpriteTable, pos: Vec2D<i16>)
        requires
            self.valid(old(table)),
        ensures
            final(table).sprites@ == old(table).sprites@.update(
                self.sprite_index as int,
                SpriteAttrs { x: pos.x, y: pos.y, ..self.attrs(old(table)) },
            ),
    {
        let mut sprite = table.sprites[self.sprite_index as usize];
        sprite.x = pos.x;
        sprite.y = pos.y;
        table.sprites.set(self.sprite_index as usize, sprite);
    }

    /// The sprite's position.
    pub fn get_pos(&self, table: &SpriteTable) -> (res: Vec2D<i16>)
        requires
            self.valid(table),
        ensures
            res.x == self.attrs(table).x,
            res.y == self.attrs(table).y,
    {
        let sprite = table.sprites[self.sprite_index as usize];
        Vec2D::new(sprite.x, sprite.y)
    }

    /// Sets the palette number (4 bits of `palette` are kept).
    pub fn set_palette(&self, table: &mut SpriteTable, palette: u16)
        requires
            self.valid(old(table)),
        ensures
            final(table).sprites@ == old(table).sprites@.update(
                self.sprite_index as int,
                SpriteAttrs { palette_num: palette & 0xF, ..self.attrs(old(table)) },
            ),
    {
        let mut sprite = table.sprites[self.sprite_index as usize];
        sprite.palette_num = palette & 0xF;
        table.sprites.set(self.sprite_index as usize, sprite);
    }

    /// Sets the drawing priority (2 bits of `priority` are kept).
    pub fn set_priority(&self, table: &mut SpriteTable, priority: u8)
        requires
            self.valid(old(table)),
        ensures
            final(table).sprites@ == old(table).sprites@.update(
                self.sprite_index as int,
                SpriteAttrs { priority: (priority as u16) & 0x3, ..self.attrs(old(table)) },
            ),
    {
        let mut sprite = table.sprites[self.sprite_index as usize];
        sprite.priority = (priority as u16) & 0x3;
        table.sprites.set(self.sprite_index as usize, sprite);
    }

    /// Sets the order among sprites of equal priority.
    pub fn set_subpriority(&self, table: &mut SpriteTable, priority: u8)
        requires
            self.valid(old(table)),
        ensures
            final(table).sprites@ == old(table).sprites@.update(
                self.sprite_index as int,
                SpriteAttrs { subpriority: priority, ..self.attrs(old(table)) },
            ),
    {
        let mut sprite = table.sprites[self.sprite_index as usize];
        sprite.subpriority = priority;
        table.sprites.set(self.sprite_index as usize, sprite);
    }

    /// Hides or shows the sprite.
    pub fn set_invisible(&self, table: &mut SpriteTable, invisible: bool)
        requires
            self.valid(old(table)),
        ensures
            final(table).sprites@ == old(table).sprites@.update(
                self.sprite_index as int,
                SpriteAttrs { invisible, ..self.attrs(old(table)) },
            ),
    {
        let mut sprite = table.sprites[self.sprite_index as usize];
        sprite.invisible = invisible;
        table.sprites.set(self.sprite_index as usize, sprite);
    }
}

/// Moving a sprite and reading its position back gives the position it was
/// moved to, and leaves every other sprite as it was.
pub proof fn law_sprite_pos_reads_back(
    h: SpriteHandle,
    table: SpriteTable,
    pos: Vec2D<i16>,
    after: SpriteTable,
)
    requires
        h.valid(&table),
        after.sprites@ == table.sprites@.update(
            h.sprite_index as int,
            SpriteAttrs { x: pos.x, y: pos.y, ..h.attrs(&table) },
        ),
    ensures
        h.valid(&after),
        h.attrs(&after).x == pos.x,
        h.attrs(&after).y == pos.y,
        forall|i: int|
            0 <= i < table.sprites.len() && i != h.sprite_index ==> after.sprites@[i]
                == table.sprites@[i],
{
}

/// A set of sprite tiles loaded under a tag.
pub struct SpriteSheet<B> {
    _own: B,
    tilestart: u16,
    tag: u16,
    size: u8,
}

impl<B> SpriteSheet<B> {
    /// The tag the tiles were loaded under.
    pub closed spec fn spec_tag(&self) -> u16 {
        self.tag
    }

    /// The sprite size code.
    pub closed spec fn spec_size(&self) -> u8 {
        self.size
    }

    /// The first tile the sheet was loaded at.
    pub closed spec fn spec_tilestart(&self) -> u16 {
        self.tilestart
    }

    /// A sheet that owns `buffer`, loaded at `tilestart` under `tag`.
    pub fn new(buffer: B, tilestart: u16, tag: u16, size: u8) -> (res: Self)
        ensures
            res.spec_tag() == tag,
            res.spec_size() == size,
            res.spec_tilestart() == tilestart,
    {
        SpriteSheet { _own: buffer, tilestart, tag, size }
    }

    /// The tag the tiles were loaded under.
    pub fn tag(&self) -> (res: u16)
        ensures
            res == self.spec_tag(),
    {
        self.tag
    }

    /// The sprite size code.
    pub fn size(&self) -> (res: u8)
        ensures
            res == self.spec_size(),
    {
        self.size
    }

    /// The first tile the sheet was loaded at.
    pub fn tilestart(&self) -> (res: u16)
        ensures
            res == self.spec_tilestart(),
    {
        self.tilestart
    }
}

/// The sprite size and shape fields of a sprite size code: the size is in
/// bits 2-3 of the code and the shape in bits 0-1.
pub fn oam_size_shape(size: u32) -> (res: (u32, u32))
    ensures
        res.0 == (size / 4) % 4,
        res.1 == size % 4,
{
    let r = ((size >> 2) & 0b11, size & 0b11);
    proof {
        assert((size >> 2) & 0b11 == (size / 4) % 4) by (bit_vector);
        assert(size & 0b11 == size % 4) by (bit_vector);
    }
    r
}

/// A sprite that shows tiles of a sprite sheet.
pub struct SheetSprite<'a> {
    handle: SpriteHandle,
    _own: PhantomData<&'a ()>,
}

impl<'a> SheetSprite<'a> {
    /// The sprite-table entry.
    pub closed spec fn spec_handle(&self) -> SpriteHandle {
        self.handle
    }

    /// A sprite of the table entry `sprite_index`.
    pub fn new(sprite_index: u16) -> (res: Self)
        ensures
            res.spec_handle().sprite_index == sprite_index,
    {
        SheetSprite { handle: SpriteHandle { sprite_index }, _own: PhantomData }
    }

    /// The sprite-table entry.
    pub fn handle(&self) -> (res: &SpriteHandle)
        ensures
            *res == self.spec_handle(),
    {
        &self.handle
    }
}

/// The picture of a party member.
pub struct PokemonSpritePic {
    sprite: SpriteHandle,
}

impl PokemonSpritePic {
    /// The sprite-table entry.
    pub closed spec fn spec_handle(&self) -> SpriteHandle {
        self.sprite
    }

    /// The picture of the table entry `sprite_index`.
    pub fn new(sprite_index: u16) -> (res: Self)
        ensures
            res.spec_handle().sprite_index == sprite_index,
    {
        PokemonSpritePic { sprite: SpriteHandle { sprite_index } }
    }

    /// The sprite-table entry.
    pub fn handle(&mut self) -> (res: &mut SpriteHandle)
        ensures
            *res == old(self).spec_handle(),
            final(self).spec_handle() == *final(res),
    {
        &mut self.sprite
    }
}

/// The font and colours that text is printed with.
#[derive(Clone, Copy, PartialEq, Eq, Structural, Debug)]
pub struct Font {
    pub font: u8,
    pub fg_color: u8,
    pub bg_color: u8,
    pub shadow_color: u8,
    pub letter_spacing: u8,
    pub line_spacing: u8,
}

/// A handle on a text window.
#[derive(Clone, Copy, PartialEq, Eq, Structural, Debug)]
pub struct WindowHandle {
    index: u8,
}

impl WindowHandle {
    /// The window number.
    pub closed spec fn spec_index(&self) -> u8 {
        self.index
    }

    /// The window number.
    pub fn index(&self) -> (res: u8)
        ensures
            res == self.spec_index(),
    {
        self.index
    }
}

/// A text window that this screen owns.
pub struct Window {
    handle: WindowHandle,
}

impl Window {
    /// The window handle.
    pub closed spec fn spec_handle(&self) -> WindowHandle {
        self.handle
    }

    /// The window numbered `index`.
    pub fn from_index(index: u8) -> (res: Self)
        ensures
            res.spec_handle().spec_index() == index,
    {
        Window { handle: WindowHandle { index } }
    }

    /// The window handle.
    pub fn handle(&self) -> (res: &WindowHandle)
        ensures
            *res == self.spec_handle(),
    {
        &self.handle
    }
}

/// A list menu shown in a window.
pub struct ListMenu<'a> {
    index: u8,
    _w: PhantomData<&'a ()>,
}

impl<'a> ListMenu<'a> {
    /// The menu task number.
    pub closed spec fn spec_index(&self) -> u8 {
        self.index
    }

    /// The menu run by task `index`.
    pub fn from_index(index: u8) -> (res: Self)
        ensures
            res.spec_index() == index,
    {
        ListMenu { index, _w: PhantomData }
    }

    /// The menu task number.
    pub fn index(&self) -> (res: u8)
        ensures
            res == self.spec_index(),
    {
        self.index
    }
}

/// What a list menu answered this frame.
pub const LIST_NOTHING_CHOSEN: i32 = -1;

/// What one frame of a list menu means for the one waiting on it.
#[derive(Clone, Copy, PartialEq, Eq, Structural, Debug)]
pub enum ListMenuStep {
    /// Nothing chosen yet: wait another frame.
    Wait,
    /// The menu closed, with the item chosen or `None` when cancelled.
    Finished(Option<i32>),
}

/// Reads one frame's answer of a list menu: nothing chosen means wait;
/// another negative answer is a cancel; anything else is the item chosen.
pub fn list_menu_step(result: i32) -> (res: ListMenuStep)
    ensures
        result == LIST_NOTHING_CHOSEN ==> res == ListMenuStep::Wait,
        result != LIST_NOTHING_CHOSEN && result < 0 ==> res == ListMenuStep::Finished(None),
        result >= 0 ==> res == ListMenuStep::Finished(Some(result)),
{
    if result == LIST_NOTHING_CHOSEN {
        return ListMenuStep::Wait;
    }
    if result < 0 {
        return ListMenuStep::Finished(None);
    }
    ListMenuStep::Finished(Some(result))
}

/// The bitwise or of every flag in `flags`.
pub open spec fn or_all(flags: Seq<u32>) -> u32
    decreases flags.len(),
{
    if flags.len() == 0 {
        0
    } else {
        or_all(flags.drop_last()) | flags.last()
    }
}

/// The register value that sets every flag in `flags`.
pub fn combine_flags(flags: &[u32]) -> (res: u32)
    ensures
        res == or_all(flags@),
{
    let mut flag: u32 = 0;
    let mut i: usize = 0;
    while i < flags.len()
        invariant
            i <= flags.len(),
            flag == or_all(flags@.subrange(0, i as int)),
        decreases flags.len() - i,
    {
        assert(flags@.subrange(0, i + 1).drop_last() =~= flags@.subrange(0, i as int));
        flag = flag | flags[i];
        i = i + 1;
    }
    assert(flags@.subrange(0, flags.len() as int) =~= flags@);
    flag
}

/// The pixels of the first `count` tiles that `tilemap` names, one after
/// the other, each tile's 32 bytes taken from `tileset`.
pub open spec fn tiles_bitmap(tileset: Seq<TileBitmap4bpp>, tilemap: Seq<TilePlain>, count: nat) -> Seq<u8>
    decreases count,
{
    if count == 0 {
        Seq::empty()
    } else {
        let i = (count - 1) as nat;
        tiles_bitmap(tileset, tilemap, i) + tileset[tilemap[i as int].0 as int].0@
    }
}

/// The tilemap positions that a `rect` of tiles reads stay inside a byte
/// and inside `tilemap`, and each tile they name is in `tileset`.
pub open spec fn tilemap_rect_readable(
    tileset: Seq<TileBitmap4bpp>,
    tilemap: Seq<TilePlain>,
    rect: Rect<u8>,
) -> bool {
    &&& rect.width * rect.height <= 256
    &&& rect.width * rect.height <= tilemap.len()
    &&& forall|i: int|
        0 <= i < rect.width * rect.height ==> (#[trigger] tilemap[i]).0 < tileset.len()
}

/// The bitmap of the `rect.width` by `rect.height` tiles at the start of
/// `tilemap`, each tile's 32 bytes taken from `tileset`.
pub fn tilemap_bitmap(tileset: &[TileBitmap4bpp], tilemap: &[TilePlain], rect: Rect<u8>) -> (res:
    Vec<u8>)
    requires
        tilemap_rect_readable(tileset@, tilemap@, rect),
    ensures
        res@ == tiles_bitmap(tileset@, tilemap@, (rect.width * rect.height) as nat),
{
    let mut buffer: Vec<u8> = Vec::new();
    let mut y: u8 = 0;
    proof {
        assert(tiles_bitmap(tileset@, tilemap@, 0) =~= Seq::<u8>::empty());
    }
    while y < rect.height
        invariant
            y <= rect.height,
            tilemap_rect_readable(tileset@, tilemap@, rect),
            buffer@ == tiles_bitmap(tileset@, tilemap@, (y * rect.width) as nat),
        decreases rect.height - y,
    {
        let mut x: u8 = 0;
        proof {
            assert(y * rect.width + rect.width <= rect.width * rect.height) by (nonlinear_arith)
                requires
                    y < rect.height,
            ;
        }
        while x < rect.width
            invariant
                x <= rect.width,
                y < rect.height,
                y * rect.width + rect.width <= rect.width * rect.height,
                tilemap_rect_readable(tileset@, tilemap@, rect),
                buffer@ == tiles_bitmap(tileset@, tilemap@, (y * rect.width + x) as nat),
            decreases rect.width - x,
        {
            let offset: u8 = y * rect.width + x;
            let tile = tilemap[offset as usize].0;
            let bytes = tileset[tile as usize].0;
            let mut k: usize = 0;
            let ghost before = buffer@;
            while k < 32
                invariant
                    k <= 32,
                    buffer@ == before + bytes@.subrange(0, k as int),
                decreases 32 - k,
            {
                buffer.push(bytes[k]);
                k = k + 1;
            }
            assert(bytes@.subrange(0, 32) =~= bytes@);
            x = x + 1;
        }
        proof {
            assert((y + 1) * rect.width == y * rect.width + rect.width) by (nonlinear_arith);
        }
        y = y + 1;
    }
    proof {
        assert(rect.height * rect.width == rect.width * rect.height) by (nonlinear_arith);
    }
    buffer
}

} // verus!
