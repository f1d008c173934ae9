use arrayvec::ArrayVec;
use emerald_tools::charmap;
use emerald_tools::charmap::{map_special, pkstr_build, pkstr_bytes_len, pkstr_write};
use emerald_tools::party_screen::graphics::{
    bg_palette_slots, combine_flags, div_i16, list_menu_step, oam_size_shape, palette_load,
    tilemap_bitmap, BackgroundIndex, Background, BgPalette, ListMenu, ListMenuStep, ObjPalette,
    PokemonSpritePic, Rect, SheetSprite, SpriteAttrs, SpriteHandle, SpriteSheet, SpriteTable,
    TileBitmap4bpp, TilePlain, Vec2D, Window, BG_PLTT_OFFSET, OBJ_PLTT_OFFSET,
};
use emerald_tools::resources::{AllocBuf, CompressedResource};
use emerald_tools::slice_write::{fill_print_buffer, terminate_print_buffer, PrintBuf, SliceCursor, Write};

fn attrs() -> SpriteAttrs {
    SpriteAttrs { x: 0, y: 0, palette_num: 0, priority: 0, subpriority: 0, invisible: false }
}

#[test]
fn vectors_and_rects() {
    let v: Vec2D<u8> = Vec2D::new(2, 3);
    let p = v.tile_to_pixel();
    assert_eq!((p.x, p.y), (16, 24));
    assert_eq!(v.size(), 6);
    let z = Vec2D::<u8>::zero();
    assert_eq!((z.x, z.y), (0, 0));
    let a: Vec2D<i16> = Vec2D::new(5, -2);
    let b: Vec2D<i16> = Vec2D::new(1, 7);
    assert_eq!(a.add_vec(b), Vec2D::new(6, 5));
    assert_eq!(a.sub_vec(b), Vec2D::new(4, -9));
    assert_eq!(a.mul_scalar(3), Vec2D::new(15, -6));
    let r: Rect<u8> = Rect::new(1, 2, 3, 4);
    assert_eq!(r.tile_to_pixel(), Rect { x: 8, y: 16, width: 24, height: 32 });
    assert_eq!(Rect::from_vecs(r.pos(), r.dim()), r);
    assert_eq!(r.dim(), Vec2D::new(3, 4));
    assert_eq!(r.pos(), Vec2D::new(1, 2));
}

#[test]
fn division_rounds_toward_zero() {
    assert_eq!(div_i16(7, 2), 3);
    assert_eq!(div_i16(-7, 2), -3);
    assert_eq!(div_i16(-8, 2), -4);
    assert_eq!(div_i16(0, 5), 0);
}

#[test]
fn palettes_and_their_memory() {
    assert_eq!(BgPalette::from_index(3).index(), 3);
    assert_eq!(ObjPalette::raw(9).index(), 9);
    let load = palette_load(OBJ_PLTT_OFFSET, 2, 16);
    assert_eq!((load.offset, load.size), (0x120, 32));
    let load = palette_load(BG_PLTT_OFFSET, 0, 48);
    assert_eq!((load.offset, load.size), (0, 96));
    let slots: [BgPalette; 3] = bg_palette_slots::<3>(4, 48);
    assert_eq!([slots[0].index(), slots[1].index(), slots[2].index()], [4, 5, 6]);
}

#[test]
fn backgrounds_and_handles() {
    assert_eq!(BackgroundIndex::Background0.number(), 0);
    assert_eq!(BackgroundIndex::Background2.number(), 2);
    let bg = Background::new(BackgroundIndex::Background3, vec![0u8; 4], vec![0u16; 2]);
    assert_eq!(bg.handle().index(), BackgroundIndex::Background3);
    let w = Window::from_index(5);
    assert_eq!(w.handle().index(), 5);
    let m = ListMenu::from_index(4);
    assert_eq!(m.index(), 4);
}

#[test]
fn sprite_attributes_read_back() {
    let mut table = SpriteTable { sprites: vec![attrs(), attrs(), attrs()] };
    let h = SpriteHandle { sprite_index: 1 };
    h.set_pos(&mut table, Vec2D::new(40, -3));
    assert_eq!(h.get_pos(&table), Vec2D::new(40, -3));
    h.set_palette(&mut table, 0x1F);
    assert_eq!(table.sprites[1].palette_num, 0xF);
    h.set_priority(&mut table, 7);
    assert_eq!(table.sprites[1].priority, 3);
    h.set_subpriority(&mut table, 9);
    assert_eq!(table.sprites[1].subpriority, 9);
    h.set_invisible(&mut table, true);
    assert!(table.sprites[1].invisible);
    assert_eq!(table.sprites[0], attrs());
    assert_eq!(table.sprites[2], attrs());
}

#[test]
fn sprite_sheets_and_pictures() {
    let sheet = SpriteSheet::new(vec![1u8, 2, 3], 10, 0x55, 6);
    assert_eq!((sheet.tag(), sheet.size(), sheet.tilestart()), (0x55, 6, 10));
    assert_eq!(oam_size_shape(0b1110), (3, 2));
    assert_eq!(oam_size_shape(0), (0, 0));
    let s = SheetSprite::new(12);
    assert_eq!(s.handle().sprite_index, 12);
    let mut pic = PokemonSpritePic::new(3);
    pic.handle().sprite_index = 8;
    assert_eq!(pic.handle().sprite_index, 8);
}

#[test]
fn list_menu_answers() {
    assert_eq!(list_menu_step(-1), ListMenuStep::Wait);
    assert_eq!(list_menu_step(-2), ListMenuStep::Finished(None));
    assert_eq!(list_menu_step(0), ListMenuStep::Finished(Some(0)));
    assert_eq!(list_menu_step(3), ListMenuStep::Finished(Some(3)));
}

#[test]
fn flags_combine_by_or() {
    assert_eq!(combine_flags(&[1, 4, 0x100]), 0x105);
    assert_eq!(combine_flags(&[]), 0);
    assert_eq!(combine_flags(&[3, 1]), 3);
}

#[test]
fn tilemap_bitmap_copies_tiles_in_order() {
    let tileset = [TileBitmap4bpp([1; 32]), TileBitmap4bpp([2; 32])];
    let tilemap = [TilePlain(1), TilePlain(0), TilePlain(1)];
    let out = tilemap_bitmap(&tileset, &tilemap, Rect::new(0, 0, 2, 1));
    let mut expected = vec![2u8; 32];
    expected.extend_from_slice(&[1u8; 32]);
    assert_eq!(out, expected);
    let out = tilemap_bitmap(&tileset, &tilemap, Rect::new(0, 0, 1, 3));
    assert_eq!(out.len(), 96);
    assert_eq!(out[64], 2);
}

#[test]
fn buffers_and_resources() {
    let buf: AllocBuf<u16> = AllocBuf::new(vec![1, 2, 3, 4]);
    assert_eq!(buf.size_bytes(), 4);
    assert_eq!(buf.as_slice(), &[1, 2, 3, 4]);
    static DATA: [u8; 3] = [0x10, 0x20, 0x30];
    let res: CompressedResource<64> = CompressedResource::from_ref(&DATA);
    assert_eq!(res.data(), &DATA);
    assert_eq!(res.size(), 64);
}

#[test]
fn slice_writes_follow_one_another() {
    let mut c = SliceCursor::new(vec![9u8; 5]);
    assert!(c.write(&[1, 2]).is_ok());
    assert_eq!((c.bytes.clone(), c.pos), (vec![1, 2, 9, 9, 9], 2));
    assert!(c.write(&[3, 4, 5, 6]).is_ok());
    assert_eq!((c.bytes.clone(), c.pos), (vec![1, 2, 3, 4, 5], 5));
    assert!(c.write(&[7]).is_ok());
    assert_eq!((c.bytes.clone(), c.pos), (vec![1, 2, 3, 4, 5], 5));
}

#[test]
fn print_buffer_never_overflows() {
    let mut buf: PrintBuf = ArrayVec::new();
    fill_print_buffer(&mut buf, b"hello");
    assert_eq!(buf.as_slice(), b"hello");
    terminate_print_buffer(&mut buf);
    assert_eq!(buf.as_slice(), b"hello\0");
    let long = [7u8; 300];
    fill_print_buffer(&mut buf, &long);
    assert_eq!(buf.len(), 256);
    let mut full = buf.clone();
    terminate_print_buffer(&mut full);
    assert_eq!(full.len(), 256);
    assert_eq!(full[254], 7);
    assert_eq!(full[255], 0);
    assert!(buf.write(&[1, 2, 3]).is_ok());
    assert_eq!(buf.len(), 256);
    let mut half: PrintBuf = ArrayVec::new();
    fill_print_buffer(&mut half, &[1u8; 250]);
    assert!(half.write(&[2u8; 10]).is_ok());
    assert_eq!(half.len(), 256);
    assert_eq!(half[249], 1);
    assert_eq!(half[250], 2);
}

#[test]
fn charmap_punctuation_and_digits() {
    assert_eq!(charmap::map(b'z'), 0xd5 + 25);
    assert_eq!(charmap::map(b'Z'), 0xbb + 25);
    assert_eq!(charmap::map(b'9'), 0xa1 + 9);
    assert_eq!(charmap::map(b'!'), 0xAB);
    assert_eq!(charmap::map(b'?'), 0xAC);
    assert_eq!(charmap::map(b'.'), 0xAD);
    assert_eq!(charmap::map(b':'), 0xF0);
    assert_eq!(charmap::map(b'-'), 0xAE);
    assert_eq!(charmap::map(b'('), 0x5C);
    assert_eq!(charmap::map(b'&'), 0x2D);
}

#[test]
fn charmap_control_sequences() {
    assert_eq!(map_special(b"PAUSE"), &[0xFC, 0x09]);
    assert_eq!(map_special(b"PARAGRAPH"), &[0xFB]);
    assert_eq!(map_special(b"P"), &[0xFB]);
}

#[test]
fn pkstr_write_keeps_the_rest_of_the_buffer() {
    let mut buf = [0x11u8; 8];
    pkstr_write(&mut buf, b"a{P}b");
    assert_eq!(buf, [0xd5, 0xFB, 0xd6, 0xFF, 0x11, 0x11, 0x11, 0x11]);
    assert_eq!(pkstr_bytes_len(b""), 1);
    let empty: [u8; 3] = pkstr_build::<3>(b"");
    assert_eq!(empty, [0xFF, 0, 0]);
    let exact: [u8; 4] = pkstr_build::<4>(b"OK.");
    assert_eq!(exact, [0xbb + 14, 0xbb + 10, 0xAD, 0xFF]);
}

#[test]
fn sizes_of_every_width() {
    assert_eq!(Vec2D::new(9u8, 8u8).size(), 72u8);
    assert_eq!(Vec2D::new(0u16, 7u16).size(), 0u16);
    assert_eq!(Vec2D::new(3u16, 5u16).size(), 15u16);
    assert_eq!(Vec2D::new(300u32, 300u32).size(), 90000u32);
    assert_eq!(Vec2D::new(-3i16, 5i16).size(), -15i16);
    assert_eq!(Vec2D::new(-300i32, 300i32).size(), -90000i32);
}
