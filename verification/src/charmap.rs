//! Encoding of ASCII text into the game's own character set.
//!
//! Plain characters map one to one; a name in braces (`{PAUSE}`,
//! `{PARAGRAPH}`, `{P}`) stands for a control sequence; every encoded
//! string ends with the terminator byte `0xFF`.
use vstd::prelude::*;

verus! {

/// `{`, which opens a control-sequence name.
pub const OPEN_BRACE: u8 = 123;

/// `}`, which closes a control-sequence name.
pub const CLOSE_BRACE: u8 = 125;

/// The byte that ends every encoded string.
pub const TERMINATOR: u8 = 0xFF;

/// The game's byte for one ASCII character.
pub open spec fn spec_map(c: u8) -> u8 {
    if 97 <= c && c <= 122 {
        // 'a'..='z'
        (c - 97 + 0xd5) as u8
    } else if 65 <= c && c <= 90 {
        // 'A'..='Z'
        (c - 65 + 0xbb) as u8
    } else if 48 <= c && c <= 57 {
        // '0'..='9'
        (c - 48 + 0xa1) as u8
    } else if c == 32 {
        // ' '
        0x00
    } else if c == 33 {
        // '!'
        0xAB
    } else if c == 63 {
        // '?'
        0xAC
    } else if c == 46 {
        // '.'
        0xAD
    } else if c == 58 {
        // ':'
        0xF0
    } else if c == 62 {
        // '>'
        0x86
    } else if c == 60 {
        // '<'
        0x85
    } else if c == 41 {
        // ')'
        0x5D
    } else if c == 40 {
        // '('
        0x5C
    } else if c == 44 {
        // ','
        0x35
    } else if c == 43 {
        // '+'
        0x2E
    } else if c == 38 {
        // '&'
        0x2D
    } else if c == 0 {
        TERMINATOR
    } else {
        // '-', '_' and every other character
        0xAE
    }
}

/// Maps one ASCII character to the game's character set.
pub fn map(c: u8) -> (res: u8)
    ensures
        res == spec_map(c),
{
    match c {
        97..=122 => c - 97 + 0xd5,
        65..=90 => c - 65 + 0xbb,
        48..=57 => c - 48 + 0xa1,
        32 => 0x00,
        33 => 0xAB,
        63 => 0xAC,
        46 => 0xAD,
        45 => 0xAE,
        95 => 0xAE,
        58 => 0xF0,
        62 => 0x86,
        60 => 0x85,
        41 => 0x5D,
        40 => 0x5C,
        44 => 0x35,
        43 => 0x2E,
        38 => 0x2D,
        0 => TERMINATOR,
        _ => 0xAE,
    }
}

/// `PAUSE`
pub open spec fn is_pause_name(s: Seq<u8>) -> bool {
    s =~= seq![80u8, 65, 85, 83, 69]
}

/// `PARAGRAPH`
pub open spec fn is_paragraph_name(s: Seq<u8>) -> bool {
    s =~= seq![80u8, 65, 82, 65, 71, 82, 65, 80, 72]
}

/// `P`
pub open spec fn is_p_name(s: Seq<u8>) -> bool {
    s =~= seq![80u8]
}

/// The bytes a control-sequence name stands for, if it names one.
pub open spec fn spec_special(name: Seq<u8>) -> Option<Seq<u8>> {
    if is_pause_name(name) {
        Some(seq![0xFCu8, 0x09])
    } else if is_paragraph_name(name) || is_p_name(name) {
        Some(seq![0xFBu8])
    } else {
        None
    }
}

fn bytes_equal(a: &[u8], b: &[u8]) -> (res: bool)
    ensures
        res == (a@ =~= b@),
{
    if a.len() != b.len() {
        return false;
    }
    let mut i: usize = 0;
    while i < a.len()
        invariant
            a.len() == b.len(),
            i <= a.len(),
            forall|j: int| 0 <= j < i ==> a@[j] == b@[j],
        decreases a.len() - i,
    {
        if a[i] != b[i] {
            return false;
        }
        i = i + 1;
    }
    true
}

/// The control sequence for a name written between braces.
pub fn map_special(bytes: &[u8]) -> (res: &'static [u8])
    requires
        spec_special(bytes@) is Some,
    ensures
        res@ == spec_special(bytes@).unwrap(),
{
    let pause: [u8; 5] = [80, 65, 85, 83, 69];
    let paragraph: [u8; 9] = [80, 65, 82, 65, 71, 82, 65, 80, 72];
    let p: [u8; 1] = [80];
    if bytes_equal(bytes, pause.as_slice()) {
        let r: &'static [u8] = &[0xFC, 0x09];
        assert(r@ =~= seq![0xFCu8, 0x09]);
        r
    } else if bytes_equal(bytes, paragraph.as_slice()) || bytes_equal(bytes, p.as_slice()) {
        let r: &'static [u8] = &[0xFB];
        assert(r@ =~= seq![0xFBu8]);
        r
    } else {
        // excluded by the precondition: every name was tested above
        assert(false);
        &[]
    }
}

/// `k` is the position of the first `c` in `s`.
pub open spec fn is_first_index(s: Seq<u8>, c: u8, k: int) -> bool {
    &&& 0 <= k < s.len()
    &&& s[k] == c
    &&& forall|j: int| 0 <= j < k ==> s[j] != c
}

/// `s` holds `c` somewhere.
pub open spec fn has_byte(s: Seq<u8>, c: u8) -> bool {
    exists|k: int| 0 <= k < s.len() && s[k] == c
}

/// The position of the first `c` in `s` (meaningful when `has_byte(s, c)`).
pub open spec fn first_index(s: Seq<u8>, c: u8) -> int {
    choose|k: int| is_first_index(s, c, k)
}

/// Where `c` occurs, its first occurrence is the one `first_index` names.
pub proof fn lemma_first_index(s: Seq<u8>, c: u8)
    requires
        has_byte(s, c),
    ensures
        is_first_index(s, c, first_index(s, c)),
        forall|k: int| is_first_index(s, c, k) ==> k == first_index(s, c),
{
    let w = choose|k: int| 0 <= k < s.len() && s[k] == c;
    lemma_least_witness(s, c, w);
    let f = first_index(s, c);
    assert forall|k: int| is_first_index(s, c, k) implies k == f by {
        if k < f {
            assert(s[k] != c);
        } else if f < k {
            assert(s[f] != c);
        }
    }
}

proof fn lemma_least_witness(s: Seq<u8>, c: u8, w: int)
    requires
        0 <= w < s.len(),
        s[w] == c,
    ensures
        exists|k: int| is_first_index(s, c, k),
    decreases w,
{
    if exists|j: int| 0 <= j < w && s[j] == c {
        let j = choose|j: int| 0 <= j < w && s[j] == c;
        lemma_least_witness(s, c, j);
    } else {
        assert(is_first_index(s, c, w));
    }
}

/// The encoding of `input` from position `i` on, or `None` where a brace is
/// left open or names no control sequence.
pub open spec fn encode_from(input: Seq<u8>, i: int) -> Option<Seq<u8>>
    decreases input.len() - i,
{
    if i < 0 || i >= input.len() {
        Some(Seq::empty())
    } else if input[i] == OPEN_BRACE {
        let rest = input.subrange(i + 1, input.len() as int);
        if !has_byte(rest, CLOSE_BRACE) {
            None
        } else {
            let k = first_index(rest, CLOSE_BRACE);
            if k < 0 || i + k + 2 > input.len() {
                None
            } else {
                match spec_special(rest.subrange(0, k)) {
                    None => None,
                    Some(b) => match encode_from(input, i + k + 2) {
                        None => None,
                        Some(e) => Some(b + e),
                    },
                }
            }
        }
    } else {
        match encode_from(input, i + 1) {
            None => None,
            Some(e) => Some(seq![spec_map(input[i])] + e),
        }
    }
}

/// The game-charset bytes of `input`, without the terminator; `None` where
/// the input holds a brace that is left open or names no control sequence.
pub open spec fn pkstr_encoding(input: Seq<u8>) -> Option<Seq<u8>> {
    encode_from(input, 0)
}

/// The buffer length that an encoded `input` takes, terminator included.
pub open spec fn spec_pkstr_bytes_len(input: Seq<u8>) -> int {
    pkstr_encoding(input).unwrap().len() + 1int
}

/// The encoded string in a buffer of `size` bytes: the encoding, the
/// terminator, then zeros.
pub open spec fn spec_pkstr_build(input: Seq<u8>, size: int) -> Seq<u8> {
    let e = pkstr_encoding(input).unwrap();
    e.push(TERMINATOR) + Seq::new((size - e.len() - 1) as nat, |_j: int| 0u8)
}

/// The encoding of a suffix is never longer than the suffix.
pub proof fn lemma_encode_from_len(input: Seq<u8>, i: int)
    requires
        0 <= i <= input.len(),
        encode_from(input, i) is Some,
    ensures
        encode_from(input, i).unwrap().len() <= input.len() - i,
    decreases input.len() - i,
{
    if i < input.len() {
        if input[i] == OPEN_BRACE {
            let rest = input.subrange(i + 1, input.len() as int);
            let k = first_index(rest, CLOSE_BRACE);
            lemma_encode_from_len(input, i + k + 2);
            let name = rest.subrange(0, k);
            if is_pause_name(name) {
                assert(name.len() == 5);
            }
        } else {
            lemma_encode_from_len(input, i + 1);
        }
    }
}

/// The position of the first `check` in `input`.
fn index_of(input: &[u8], check: u8) -> (res: usize)
    requires
        has_byte(input@, check),
    ensures
        res == first_index(input@, check),
        is_first_index(input@, check, res as int),
{
    proof {
        lemma_first_index(input@, check);
    }
    let mut index: usize = 0;
    while index < input.len()
        invariant
            index <= input.len(),
            has_byte(input@, check),
            is_first_index(input@, check, first_index(input@, check)),
            forall|j: int| 0 <= j < index ==> input@[j] != check,
        decreases input.len() - index,
    {
        if input[index] == check {
            proof {
                assert(is_first_index(input@, check, index as int));
            }
            return index;
        }
        index = index + 1;
    }
    proof {
        let f = first_index(input@, check);
        assert(input@[f] != check);
    }
    0
}

/// Facts about one step of the encoding at a brace.
proof fn lemma_brace_step(input: Seq<u8>, index: int)
    requires
        0 <= index < input.len(),
        input[index] == OPEN_BRACE,
        encode_from(input, index) is Some,
    ensures
        ({
            let rest = input.subrange(index + 1, input.len() as int);
            let k = first_index(rest, CLOSE_BRACE);
            &&& has_byte(rest, CLOSE_BRACE)
            &&& is_first_index(rest, CLOSE_BRACE, k)
            &&& index + k + 2 <= input.len()
            &&& spec_special(rest.subrange(0, k)) is Some
            &&& encode_from(input, index + k + 2) is Some
            &&& encode_from(input, index).unwrap() == spec_special(rest.subrange(0, k)).unwrap()
                + encode_from(input, index + k + 2).unwrap()
        }),
{
    let rest = input.subrange(index + 1, input.len() as int);
    lemma_first_index(rest, CLOSE_BRACE);
}

/// The buffer length that the encoding of `input` takes, terminator
/// included.
pub fn pkstr_bytes_len(input: &[u8]) -> (res: usize)
    requires
        pkstr_encoding(input@) is Some,
        input.len() < usize::MAX,
    ensures
        res == spec_pkstr_bytes_len(input@),
{
    let mut index: usize = 0;
    let mut size: usize = 0;
    let ghost total = pkstr_encoding(input@).unwrap();
    proof {
        lemma_encode_from_len(input@, 0);
    }
    while index < input.len()
        invariant
            index <= input.len(),
            input.len() < usize::MAX,
            total == encode_from(input@, 0).unwrap(),
            total.len() <= input.len(),
            encode_from(input@, index as int) is Some,
            size + encode_from(input@, index as int).unwrap().len() == total.len(),
        decreases input.len() - index,
    {
        if input[index] == OPEN_BRACE {
            proof {
                lemma_brace_step(input@, index as int);
            }
            let (_, remaining) = input.split_at(index + 1);
            assert(remaining@ =~= input@.subrange(index + 1, input.len() as int));
            let content_len = index_of(remaining, CLOSE_BRACE);
            let (content, _) = remaining.split_at(content_len);
            size = size + map_special(content).len();
            index = index + content_len + 2;
        } else {
            size = size + 1;
            index = index + 1;
        }
    }
    size + 1
}

/// Writes the encoding of `input` and the terminator at the start of `buf`.
pub fn pkstr_write(buf: &mut [u8], input: &[u8])
    requires
        pkstr_encoding(input@) is Some,
        spec_pkstr_bytes_len(input@) <= old(buf).len(),
    ensures
        final(buf)@ == pkstr_encoding(input@).unwrap().push(TERMINATOR) + old(buf)@.subrange(
            spec_pkstr_bytes_len(input@),
            old(buf)@.len() as int,
        ),
{
    let mut index: usize = 0;
    let mut offset: usize = 0;
    let ghost total = pkstr_encoding(input@).unwrap();
    let ghost original = buf@;
    while index < input.len()
        invariant
            index <= input.len(),
            total == encode_from(input@, 0).unwrap(),
            total.len() + 1 <= buf.len(),
            buf@.len() == original.len(),
            encode_from(input@, index as int) is Some,
            offset + encode_from(input@, index as int).unwrap().len() == total.len(),
            total.subrange(offset as int, total.len() as int) =~= encode_from(
                input@,
                index as int,
            ).unwrap(),
            forall|j: int| 0 <= j < offset ==> buf@[j] == total[j],
            forall|j: int| offset <= j < buf@.len() ==> buf@[j] == original[j],
        decreases input.len() - index,
    {
        if input[index] == OPEN_BRACE {
            proof {
                lemma_brace_step(input@, index as int);
            }
            let ghost here = encode_from(input@, index as int).unwrap();
            let (_, remaining) = input.split_at(index + 1);
            assert(remaining@ =~= input@.subrange(index + 1, input.len() as int));
            let content_len = index_of(remaining, CLOSE_BRACE);
            let (content, _) = remaining.split_at(content_len);
            index = index + content_len + 2;
            let to_write = map_special(content);
            let ghost start = offset;
            let ghost after = encode_from(input@, index as int).unwrap();
            assert(here =~= to_write@ + after);
            let mut write_index: usize = 0;
            while write_index < to_write.len()
                invariant
                    write_index <= to_write.len(),
                    offset == start + write_index,
                    start + to_write.len() + after.len() == total.len(),
                    total.subrange(start as int, total.len() as int) =~= to_write@ + after,
                    total.len() + 1 <= buf.len(),
                    buf@.len() == original.len(),
                    forall|j: int| 0 <= j < offset ==> buf@[j] == total[j],
                    forall|j: int| offset <= j < buf@.len() ==> buf@[j] == original[j],
                decreases to_write.len() - write_index,
            {
                assert(total[offset as int] == total.subrange(start as int, total.len() as int)[write_index as int]);
                buf[offset] = to_write[write_index];
                write_index = write_index + 1;
                offset = offset + 1;
            }
            assert forall|j: int| 0 <= j < after.len() implies total.subrange(
                offset as int,
                total.len() as int,
            )[j] == after[j] by {
                let whole = total.subrange(start as int, total.len() as int);
                assert(whole[to_write.len() + j] == (to_write@ + after)[to_write.len() + j]);
            }
            assert(total.subrange(offset as int, total.len() as int) =~= after);
        } else {
            let ghost here = encode_from(input@, index as int).unwrap();
            assert(total[offset as int] == here[0]);
            buf[offset] = map(input[index]);
            index = index + 1;
            offset = offset + 1;
            assert(total.subrange(offset as int, total.len() as int) =~= here.drop_first());
        }
    }
    buf[offset] = TERMINATOR;
    assert(offset == total.len());
    assert(buf@ =~= total.push(TERMINATOR) + original.subrange(
        total.len() + 1int,
        original.len() as int,
    ));
}

/// The encoded string in a buffer of `S` bytes: the encoding, the
/// terminator, then zeros.
pub fn pkstr_build<const S: usize>(input: &[u8]) -> (ret: [u8; S])
    requires
        pkstr_encoding(input@) is Some,
        spec_pkstr_bytes_len(input@) <= S,
    ensures
        ret@ == spec_pkstr_build(input@, S as int),
{
    let mut ret = [0u8; S];
    let ghost zeros = ret@;
    pkstr_write(&mut ret, input);
    proof {
        let e = pkstr_encoding(input@).unwrap();
        assert(zeros.subrange(e.len() + 1int, S as int) =~= Seq::new(
            (S - e.len() - 1) as nat,
            |_j: int| 0u8,
        ));
    }
    ret
}

/// The buffer size that `pkstr_bytes_len` reports is exactly filled by the
/// encoding and its terminator: building into a buffer of that size leaves
/// no padding, and the last byte is the terminator.
pub proof fn law_bytes_len_fits_exactly(input: Seq<u8>)
    requires
        pkstr_encoding(input) is Some,
    ensures
        spec_pkstr_build(input, spec_pkstr_bytes_len(input)) == pkstr_encoding(input).unwrap().push(
            TERMINATOR,
        ),
        spec_pkstr_build(input, spec_pkstr_bytes_len(input)).len() == spec_pkstr_bytes_len(input),
        spec_pkstr_build(input, spec_pkstr_bytes_len(input)).last() == TERMINATOR,
{
    let e = pkstr_encoding(input).unwrap();
    assert(spec_pkstr_build(input, spec_pkstr_bytes_len(input)) =~= e.push(TERMINATOR));
}

/// An encoded string, terminator included, never takes more than one byte
/// more than its source text.
pub proof fn law_bytes_len_bound(input: Seq<u8>)
    requires
        pkstr_encoding(input) is Some,
    ensures
        spec_pkstr_bytes_len(input) <= input.len() + 1,
{
    lemma_encode_from_len(input, 0);
}

/// The encoding of a suffix is exactly as long as the suffix when the
/// suffix holds no `{`, and shorter when it holds one: every control
/// sequence takes fewer bytes than its braced name.
proof fn lemma_encode_from_len_exact(input: Seq<u8>, i: int)
    requires
        0 <= i <= input.len(),
        encode_from(input, i) is Some,
    ensures
        (encode_from(input, i).unwrap().len() == input.len() - i) <==> (forall|j: int|
            i <= j < input.len() ==> input[j] != OPEN_BRACE),
    decreases input.len() - i,
{
    if i < input.len() {
        if input[i] == OPEN_BRACE {
            lemma_brace_step(input, i);
            let rest = input.subrange(i + 1, input.len() as int);
            let k = first_index(rest, CLOSE_BRACE);
            lemma_encode_from_len(input, i + k + 2);
            let name = rest.subrange(0, k);
            if is_pause_name(name) {
                assert(name.len() == 5);
            } else if is_paragraph_name(name) {
                assert(name.len() == 9);
            } else {
                assert(name.len() == 1);
            }
        } else {
            lemma_encode_from_len_exact(input, i + 1);
            let e = encode_from(input, i).unwrap();
            assert(e.len() == 1 + encode_from(input, i + 1).unwrap().len());
            if forall|j: int| i + 1 <= j < input.len() ==> input[j] != OPEN_BRACE {
                assert forall|j: int| i <= j < input.len() implies input[j] != OPEN_BRACE by {
                    if j > i {
                        assert(input[j] != OPEN_BRACE);
                    }
                }
            }
        }
    }
}

/// The buffer length of an encoded text is its length plus one exactly
/// when the text holds no `{`; control sequences always make it shorter.
pub proof fn law_bytes_len_exact_without_braces(input: Seq<u8>)
    requires
        pkstr_encoding(input) is Some,
    ensures
        (spec_pkstr_bytes_len(input) == input.len() + 1) <==> is_plain(input),
        !is_plain(input) ==> spec_pkstr_bytes_len(input) < input.len() + 1,
{
    lemma_encode_from_len_exact(input, 0);
    lemma_encode_from_len(input, 0);
}

/// `input` holds no `{`.
pub open spec fn is_plain(input: Seq<u8>) -> bool {
    forall|j: int| 0 <= j < input.len() ==> input[j] != OPEN_BRACE
}

proof fn lemma_plain_from(input: Seq<u8>, i: int)
    requires
        0 <= i <= input.len(),
        is_plain(input),
    ensures
        encode_from(input, i) is Some,
        encode_from(input, i).unwrap().len() == input.len() - i,
        forall|j: int|
            0 <= j < input.len() - i ==> #[trigger] encode_from(input, i).unwrap()[j] == spec_map(
                input[i + j],
            ),
    decreases input.len() - i,
{
    if i < input.len() {
        lemma_plain_from(input, i + 1);
        let e = encode_from(input, i).unwrap();
        let tail = encode_from(input, i + 1).unwrap();
        assert(e =~= seq![spec_map(input[i])] + tail);
        assert forall|j: int| 0 <= j < input.len() - i implies #[trigger] e[j] == spec_map(
            input[i + j],
        ) by {
            if j > 0 {
                assert(e[j] == tail[j - 1]);
            }
        }
    }
}

/// Text without braces is always accepted and is encoded character by
/// character.
pub proof fn law_plain_text_maps_each_char(input: Seq<u8>)
    requires
        is_plain(input),
    ensures
        pkstr_encoding(input) is Some,
        pkstr_encoding(input).unwrap().len() == input.len(),
        forall|j: int|
            0 <= j < input.len() ==> #[trigger] pkstr_encoding(input).unwrap()[j] == spec_map(
                input[j],
            ),
{
    lemma_plain_from(input, 0);
}

/// Only the NUL character maps to the terminator byte.
pub proof fn law_only_nul_maps_to_terminator(c: u8)
    ensures
        (spec_map(c) == TERMINATOR) <==> (c == 0),
{
}

/// `s` holds no NUL character.
pub open spec fn has_no_nul(s: Seq<u8>) -> bool {
    forall|j: int| 0 <= j < s.len() ==> s[j] != 0
}

proof fn lemma_no_terminator_from(input: Seq<u8>, i: int)
    requires
        0 <= i <= input.len(),
        encode_from(input, i) is Some,
        has_no_nul(input),
    ensures
        forall|j: int|
            0 <= j < encode_from(input, i).unwrap().len() ==> #[trigger] encode_from(
                input,
                i,
            ).unwrap()[j] != TERMINATOR,
    decreases input.len() - i,
{
    if i < input.len() {
        let e = encode_from(input, i).unwrap();
        if input[i] == OPEN_BRACE {
            lemma_brace_step(input, i);
            let rest = input.subrange(i + 1, input.len() as int);
            let k = first_index(rest, CLOSE_BRACE);
            let b = spec_special(rest.subrange(0, k)).unwrap();
            let tail = encode_from(input, i + k + 2).unwrap();
            lemma_no_terminator_from(input, i + k + 2);
            assert(e =~= b + tail);
            assert forall|j: int| 0 <= j < e.len() implies #[trigger] e[j] != TERMINATOR by {
                if j >= b.len() {
                    assert(e[j] == tail[j - b.len()]);
                }
            }
        } else {
            lemma_no_terminator_from(input, i + 1);
            let tail = encode_from(input, i + 1).unwrap();
            assert(e =~= seq![spec_map(input[i])] + tail);
            assert forall|j: int| 0 <= j < e.len() implies #[trigger] e[j] != TERMINATOR by {
                if j > 0 {
                    assert(e[j] == tail[j - 1]);
                }
            }
        }
    }
}

/// For text without NUL characters the terminator appears exactly once in
/// the encoded string: at its end.
pub proof fn law_terminator_marks_the_end(input: Seq<u8>)
    requires
        pkstr_encoding(input) is Some,
        has_no_nul(input),
    ensures
        ({
            let s = spec_pkstr_build(input, spec_pkstr_bytes_len(input));
            &&& s.last() == TERMINATOR
            &&& forall|j: int| 0 <= j < s.len() - 1 ==> s[j] != TERMINATOR
        }),
{
    law_bytes_len_fits_exactly(input);
    lemma_no_terminator_from(input, 0);
    let e = pkstr_encoding(input).unwrap();
    let s = spec_pkstr_build(input, spec_pkstr_bytes_len(input));
    assert forall|j: int| 0 <= j < s.len() - 1 implies s[j] != TERMINATOR by {
        assert(s[j] == e[j]);
    }
}


/// A character that has a game byte of its own: a letter, a digit, the
/// space, NUL, or one of the punctuation marks `! ? . : > < ) ( , + &`
/// (`-`, `_` and every other character share the byte of `-`).
pub open spec fn has_own_byte(c: u8) -> bool {
    ||| 97 <= c <= 122
    ||| 65 <= c <= 90
    ||| 48 <= c <= 57
    ||| c == 32 || c == 0
    ||| c == 33 || c == 63 || c == 46 || c == 58 || c == 62 || c == 60
    ||| c == 41 || c == 40 || c == 44 || c == 43 || c == 38
}

/// Characters with a byte of their own never share it: different such
/// characters encode to different game bytes, so no punctuation mark,
/// letter or digit can be mistaken for another. The comma is `0x35`.
pub proof fn law_own_bytes_are_distinct(c1: u8, c2: u8)
    requires
        has_own_byte(c1),
        has_own_byte(c2),
        c1 != c2,
    ensures
        spec_map(c1) != spec_map(c2),
        spec_map(44) == 0x35,
{
}


/// Letters and digits keep their order: `a`, `A` and `0` encode to `0xD5`,
/// `0xBB` and `0xA1`, the space to `0x00`, and each next letter or digit
/// to the next byte.
pub proof fn law_letters_and_digits_in_order(c: u8)
    ensures
        spec_map(97) == 0xD5 && spec_map(65) == 0xBB && spec_map(48) == 0xA1 && spec_map(32) == 0,
        97 <= c < 122 ==> spec_map((c + 1) as u8) == spec_map(c) + 1,
        65 <= c < 90 ==> spec_map((c + 1) as u8) == spec_map(c) + 1,
        48 <= c < 57 ==> spec_map((c + 1) as u8) == spec_map(c) + 1,
{
}

} // verus!
