//! Finding the fields of a C initializer and editing them.
use super::{Edit, EditView, ImportError, ImportErrorView, InputEdit, Point, Range, edit_is};
use vstd::utf8::{decode_utf8, encode_utf8, valid_utf8};
use super::text::{push_str, text};
use vstd::prelude::*;
use vstd::string::StringSliceAdditionalSpecFns;

verus! {

/// The newline byte.
pub const NEWLINE: u8 = 10;

/// How many newlines `s` holds.
pub open spec fn newline_count(s: Seq<u8>) -> nat
    decreases s.len(),
{
    if s.len() == 0 {
        0
    } else {
        newline_count(s.drop_last()) + if s.last() == NEWLINE {
            1nat
        } else {
            0nat
        }
    }
}

/// How many bytes follow the last newline of `s` (all of them without one).
pub open spec fn last_line_len(s: Seq<u8>) -> nat
    decreases s.len(),
{
    if s.len() == 0 {
        0
    } else if s.last() == NEWLINE {
        0
    } else {
        last_line_len(s.drop_last()) + 1
    }
}

/// `text` with the span `r` replaced by `rep`.
pub open spec fn spec_replace_text(text: Seq<u8>, r: Range, rep: Seq<u8>) -> Seq<u8> {
    text.subrange(0, r.start_byte as int) + rep + text.subrange(r.end_byte as int, text.len() as int)
}

/// Where the text `rep` put at the start of `r` ends: as many lines down
/// as it has newlines; after its last line, which starts at column 0 when
/// it has a newline and at the start column otherwise.
pub open spec fn spec_new_end(r: Range, rep: Seq<u8>) -> Point {
    Point {
        row: (r.start_point.row + newline_count(rep)) as usize,
        column: if newline_count(rep) >= 1 {
            last_line_len(rep) as usize
        } else {
            (r.start_point.column + last_line_len(rep)) as usize
        },
    }
}

/// What replacing the span `r` by `rep` did.
pub open spec fn spec_input_edit(r: Range, rep: Seq<u8>) -> InputEdit {
    InputEdit {
        start_byte: r.start_byte,
        old_end_byte: r.end_byte,
        new_end_byte: (r.start_byte + rep.len()) as usize,
        start_position: r.start_point,
        old_end_position: r.end_point,
        new_end_position: spec_new_end(r, rep),
    }
}

/// Replacing the span `r` of `text` by `rep` is possible and its result
/// can be addressed.
pub open spec fn replaceable(text: Seq<u8>, r: Range, rep: Seq<u8>) -> bool {
    &&& r.start_byte <= r.end_byte <= text.len()
    &&& text.len() - (r.end_byte - r.start_byte) + rep.len() <= usize::MAX
    &&& rep.len() + r.start_byte <= usize::MAX
    &&& r.start_point.row + newline_count(rep) + 1 <= usize::MAX
    &&& r.start_point.column + rep.len() <= usize::MAX
}

proof fn lemma_last_line_len_bound(s: Seq<u8>)
    ensures
        last_line_len(s) <= s.len(),
    decreases s.len(),
{
    if s.len() > 0 {
        lemma_last_line_len_bound(s.drop_last());
    }
}

proof fn lemma_newline_count_bound(s: Seq<u8>)
    ensures
        newline_count(s) <= s.len(),
    decreases s.len(),
{
    if s.len() > 0 {
        lemma_newline_count_bound(s.drop_last());
    }
}

/// Replaces the span `range` of `target` by `replace` and tells where the
/// new text ends, in bytes and in lines and columns.
pub fn replace_range(target: &mut Vec<u8>, range: Range, replace: &str) -> (res: Result<
    InputEdit,
    ImportError,
>)
    requires
        replaceable(old(target)@, range, replace.spec_bytes()),
    ensures
        res == Ok::<InputEdit, ImportError>(spec_input_edit(range, replace.spec_bytes())),
        final(target)@ == spec_replace_text(old(target)@, range, replace.spec_bytes()),
{
    let bytes = replace.as_bytes();
    let mut spliced: Vec<u8> = Vec::new();
    let mut i: usize = 0;
    while i < range.start_byte
        invariant
            i <= range.start_byte,
            range.start_byte <= target.len(),
            spliced@ == target@.subrange(0, i as int),
        decreases range.start_byte - i,
    {
        spliced.push(target[i]);
        i = i + 1;
        assert(spliced@ =~= target@.subrange(0, i as int));
    }
    let mut newlines: usize = 0;
    let mut last_len: usize = 0;
    let mut j: usize = 0;
    proof {
        lemma_newline_count_bound(bytes@);
    }
    while j < bytes.len()
        invariant
            j <= bytes.len(),
            spliced@ == target@.subrange(0, range.start_byte as int) + bytes@.subrange(0, j as int),
            newlines == newline_count(bytes@.subrange(0, j as int)),
            last_len == last_line_len(bytes@.subrange(0, j as int)),
            newlines <= j,
            last_len <= j,
        decreases bytes.len() - j,
    {
        let b = bytes[j];
        spliced.push(b);
        proof {
            assert(bytes@.subrange(0, j + 1).drop_last() =~= bytes@.subrange(0, j as int));
        }
        if b == NEWLINE {
            newlines = newlines + 1;
            last_len = 0;
        } else {
            last_len = last_len + 1;
        }
        j = j + 1;
        assert(spliced@ =~= target@.subrange(0, range.start_byte as int) + bytes@.subrange(
            0,
            j as int,
        ));
    }
    assert(bytes@.subrange(0, bytes.len() as int) =~= bytes@);
    let mut k: usize = range.end_byte;
    while k < target.len()
        invariant
            range.end_byte <= k <= target.len(),
            spliced@ == target@.subrange(0, range.start_byte as int) + bytes@ + target@.subrange(
                range.end_byte as int,
                k as int,
            ),
        decreases target.len() - k,
    {
        spliced.push(target[k]);
        k = k + 1;
        assert(spliced@ =~= target@.subrange(0, range.start_byte as int) + bytes@
            + target@.subrange(range.end_byte as int, k as int));
    }
    *target = spliced;

    let line_count = newlines + 1;
    let new_end_pos = Point {
        row: range.start_point.row + line_count - 1,
        column: match line_count {
            2.. => last_len,
            _ => range.start_point.column + last_len,
        },
    };
    let input_edit = InputEdit {
        start_byte: range.start_byte,
        old_end_byte: range.end_byte,
        new_end_byte: range.start_byte + bytes.len(),
        start_position: range.start_point,
        old_end_position: range.end_point,
        new_end_position: new_end_pos,
    };
    Ok(input_edit)
}

/// One field of a C initializer: where its name is and the span of its
/// value.
#[derive(Clone, Copy, PartialEq, Eq, Structural, Debug)]
pub struct FieldMatch {
    pub name_start: usize,
    pub name_end: usize,
    pub value: Range,
}

/// The bytes of `text` from `start` to `end`, or nothing where that is not
/// a span of `text`.
pub open spec fn span(text: Seq<u8>, start: int, end: int) -> Option<Seq<u8>> {
    if 0 <= start <= end <= text.len() {
        Some(text.subrange(start, end))
    } else {
        None
    }
}

/// `m` names the field `name` in `text`.
pub open spec fn names_field(text: Seq<u8>, m: FieldMatch, name: Seq<u8>) -> bool {
    span(text, m.name_start as int, m.name_end as int) == Some(name)
}

/// The value span of the first of `matches` that names `name`.
pub open spec fn spec_find_field(text: Seq<u8>, matches: Seq<FieldMatch>, name: Seq<u8>) -> Option<
    Range,
>
    decreases matches.len(),
{
    if matches.len() == 0 {
        None
    } else if names_field(text, matches[0], name) {
        Some(matches[0].value)
    } else {
        spec_find_field(text, matches.drop_first(), name)
    }
}

fn names(text: &[u8], m: &FieldMatch, name: &[u8]) -> (res: bool)
    ensures
        res == names_field(text@, *m, name@),
{
    if !(m.name_start <= m.name_end && m.name_end <= text.len()) {
        return false;
    }
    if m.name_end - m.name_start != name.len() {
        assert(text@.subrange(m.name_start as int, m.name_end as int).len() != name@.len());
        return false;
    }
    let mut i: usize = 0;
    while i < name.len()
        invariant
            m.name_start <= m.name_end <= text.len(),
            m.name_end - m.name_start == name.len(),
            i <= name.len(),
            forall|j: int| 0 <= j < i ==> text@[m.name_start + j] == name@[j],
        decreases name.len() - i,
    {
        if text[m.name_start + i] != name[i] {
            assert(text@.subrange(m.name_start as int, m.name_end as int)[i as int] != name@[i as int]);
            return false;
        }
        i = i + 1;
    }
    assert(text@.subrange(m.name_start as int, m.name_end as int) =~= name@);
    true
}

/// The value span of the first field named `field_name` among `matches`.
pub fn get_field(matches: &[FieldMatch], text: &[u8], field_name: &str) -> (res: Option<Range>)
    ensures
        res == spec_find_field(text@, matches@, encode_utf8(field_name@)),
{
    let name = field_name.as_bytes();
    let mut i: usize = 0;
    assert(matches@.subrange(0, matches.len() as int) =~= matches@);
    while i < matches.len()
        invariant
            i <= matches.len(),
            name@ == encode_utf8(field_name@),
            spec_find_field(text@, matches@, name@) == spec_find_field(
                text@,
                matches@.subrange(i as int, matches.len() as int),
                name@,
            ),
        decreases matches.len() - i,
    {
        let ghost rest = matches@.subrange(i as int, matches.len() as int);
        assert(rest[0] == matches@[i as int]);
        if names(text, &matches[i], name) {
            return Some(matches[i].value);
        }
        assert(rest.drop_first() =~= matches@.subrange(i + 1, matches.len() as int));
        i = i + 1;
    }
    assert(matches@.subrange(i as int, matches.len() as int) =~= Seq::<FieldMatch>::empty());
    None
}

/// `std::str::from_utf8`, with the error dropped: the text that `bytes`
/// encode, where they are valid UTF-8.
#[verifier::external_body]
fn utf8_text<'a>(bytes: &'a [u8]) -> (res: Option<&'a str>)
    ensures
        res is Some <==> valid_utf8(bytes@),
        res matches Some(s) ==> s@ == decode_utf8(bytes@),
{
    std::str::from_utf8(bytes).ok()
}

/// The text of the value of the first field named `field_name`, where
/// that value is a span of `text` in valid UTF-8.
pub open spec fn spec_field_value(text: Seq<u8>, matches: Seq<FieldMatch>, name: Seq<char>) -> Option<
    Seq<char>,
> {
    match spec_find_field(text, matches, encode_utf8(name)) {
        Some(r) => match span(text, r.start_byte as int, r.end_byte as int) {
            Some(b) => if valid_utf8(b) {
                Some(decode_utf8(b))
            } else {
                None
            },
            None => None,
        },
        None => None,
    }
}

/// The text of the value of the first field named `field_name`.
pub fn get_field_value<'a>(matches: &[FieldMatch], text: &'a [u8], field_name: &str) -> (res:
    Option<&'a str>)
    ensures
        match spec_field_value(text@, matches@, field_name@) {
            Some(v) => res matches Some(s) && s@ == v,
            None => res is None,
        },
{
    let value = get_field(matches, text, field_name)?;
    if value.start_byte <= value.end_byte && value.end_byte <= text.len() {
        let (head, _) = text.split_at(value.end_byte);
        let (_, v) = head.split_at(value.start_byte);
        assert(v@ =~= text@.subrange(value.start_byte as int, value.end_byte as int));
        utf8_text(v)
    } else {
        None
    }
}

/// Where the closing token of an initializer starts.
#[derive(Clone, Copy, PartialEq, Eq, Structural, Debug)]
pub struct TokenStart {
    pub byte: usize,
    pub point: Point,
}

/// The text that adds the field `name` with `value` to an initializer.
pub open spec fn spec_new_field_text(name: Seq<char>, value: Seq<char>) -> Seq<char> {
    "    ."@ + name + " = "@ + value + ",\n    "@
}

/// The edit that sets a field of an initializer to `field_value`: where the
/// field exists its value is replaced; else a new field is put just before
/// the closing token.
pub open spec fn spec_field_edit(
    found: Option<Range>,
    last_token: Option<TokenStart>,
    field_name: Seq<char>,
    field_value: Seq<char>,
) -> Result<EditView, ImportErrorView> {
    match found {
        Some(r) => Ok((r, field_value)),
        None => match last_token {
            None => Err(ImportErrorView::NoLastChild),
            Some(t) => Ok(
                (
                    Range {
                        start_byte: t.byte,
                        end_byte: t.byte,
                        start_point: t.point,
                        end_point: t.point,
                    },
                    spec_new_field_text(field_name, field_value),
                ),
            ),
        },
    }
}

/// The edit that sets the field `field_name` to `field_value`, given the
/// value span of the field where it exists and the start of the closing
/// token of the initializer.
pub fn field_edit(
    found: Option<Range>,
    last_token: Option<TokenStart>,
    field_name: &str,
    field_value: &str,
) -> (res: Result<Edit, ImportError>)
    ensures
        edit_is(res, spec_field_edit(found, last_token, field_name@, field_value@)),
{
    match found {
        Some(range) => Ok(Edit { range, replace: text(field_value) }),
        None => {
            let end_token = match last_token {
                Some(t) => t,
                None => return Err(ImportError::NoLastChild),
            };
            let range = Range {
                start_byte: end_token.byte,
                end_byte: end_token.byte,
                start_point: end_token.point,
                end_point: end_token.point,
            };
            let mut replace = text("    .");
            push_str(&mut replace, field_name);
            push_str(&mut replace, " = ");
            push_str(&mut replace, field_value);
            push_str(&mut replace, ",\n    ");
            Ok(Edit { range, replace })
        },
    }
}

/// A C initializer as the edits need it: its fields, in the order they
/// stand, and where its closing token starts.
pub struct EntryNode {
    pub matches: Vec<FieldMatch>,
    pub last_token: Option<TokenStart>,
}

/// The edit that sets the field `field_name` of `node` to `field_value`.
pub open spec fn spec_edit_field(
    node: &EntryNode,
    text: Seq<u8>,
    field_name: Seq<char>,
    field_value: Seq<char>,
) -> Result<EditView, ImportErrorView> {
    spec_field_edit(
        spec_find_field(text, node.matches@, encode_utf8(field_name)),
        node.last_token,
        field_name,
        field_value,
    )
}

/// Setting a field writes its value: where the field exists, its value
/// span is replaced by the new value; else the new field is written just
/// before the closing token; without either the edit is refused. Applied
/// to the text, the edit's bytes stand where its span started.
pub proof fn law_field_edit_writes_value(
    node: &EntryNode,
    text: Seq<u8>,
    field_name: Seq<char>,
    field_value: Seq<char>,
)
    requires
        spec_find_field(text, node.matches@, encode_utf8(field_name)) matches Some(r) ==> r.start_byte
            <= r.end_byte <= text.len(),
        node.last_token matches Some(t) ==> t.byte <= text.len(),
    ensures
        match spec_edit_field(node, text, field_name, field_value) {
            Ok((r, rep)) => {
                &&& spec_find_field(text, node.matches@, encode_utf8(field_name)) is Some ==> rep
                    == field_value
                &&& spec_find_field(text, node.matches@, encode_utf8(field_name)) is None ==> rep
                    == spec_new_field_text(field_name, field_value) && r.start_byte == r.end_byte
                &&& spec_replace_text(text, r, encode_utf8(rep)).subrange(
                    r.start_byte as int,
                    r.start_byte + encode_utf8(rep).len(),
                ) == encode_utf8(rep)
            },
            Err(e) => spec_find_field(text, node.matches@, encode_utf8(field_name)) is None
                && node.last_token is None && e == ImportErrorView::NoLastChild,
        },
{
    match spec_edit_field(node, text, field_name, field_value) {
        Ok((r, rep)) => {
            let b = encode_utf8(rep);
            assert(spec_replace_text(text, r, b).subrange(
                r.start_byte as int,
                r.start_byte + b.len(),
            ) =~= b);
        },
        Err(_) => {},
    }
}

/// The edit that sets the field `field_name` of `node` to `field_value`:
/// the value of the first field of that name is replaced; without one, the
/// field is added before the closing token.
pub fn edit_field(node: &EntryNode, text: &[u8], field_name: &str, field_value: &str) -> (res:
    Result<Edit, ImportError>)
    ensures
        edit_is(res, spec_edit_field(node, text@, field_name@, field_value@)),
{
    let found = get_field(node.matches.as_slice(), text, field_name);
    field_edit(found, node.last_token, field_name, field_value)
}

} // verus!
