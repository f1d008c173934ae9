use emerald_tools::charmap;
use emerald_tools::charmap::{pkstr_build, pkstr_bytes_len};

#[test]
fn plain_letters_map_to_game_charset() {
    assert_eq!(charmap::map(b'a'), 0xd5);
    assert_eq!(charmap::map(b'A'), 0xbb);
    assert_eq!(charmap::map(b'0'), 0xa1);
    assert_eq!(charmap::map(b' '), 0x00);
    assert_eq!(charmap::map(0), 0xFF);
}

#[test]
fn build_encodes_specials_and_terminates() {
    let input = b"Hi{PAUSE}!";
    assert_eq!(pkstr_bytes_len(input), 6);
    let out: [u8; 6] = pkstr_build::<6>(input);
    assert_eq!(out, [0xbb + 7, 0xd5 + 8, 0xFC, 0x09, 0xAB, 0xFF]);
}

#[test]
fn bytes_len_is_length_plus_one_exactly_without_braces() {
    assert_eq!(pkstr_bytes_len(b"abc"), 4);
    assert_eq!(pkstr_bytes_len(b"Hi there!"), 10);
    assert_eq!(pkstr_bytes_len(b"a{P}"), 3);
    assert_eq!(pkstr_bytes_len(b"{PAUSE}"), 3);
    assert_eq!(pkstr_bytes_len(b"{PARAGRAPH}x"), 3);
}
