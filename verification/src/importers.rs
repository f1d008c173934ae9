//! Importers that rewrite the game's C data tables from exported game data:
//! the edits they make to C source and the text they generate.
pub mod moves;
pub mod species;
pub mod text;
pub mod trainers;
pub mod tree_utils;

use tree_utils::{replace_range, replaceable, spec_input_edit, spec_replace_text};
use vstd::prelude::*;
use vstd::string::StringSliceAdditionalSpecFns;

verus! {

/// A position in a text: a line and a byte column.
#[derive(Clone, Copy, PartialEq, Eq, Structural, Debug)]
pub struct Point {
    pub row: usize,
    pub column: usize,
}

/// A span of a text, in bytes and in positions.
#[derive(Clone, Copy, PartialEq, Eq, Structural, Debug)]
pub struct Range {
    pub start_byte: usize,
    pub end_byte: usize,
    pub start_point: Point,
    pub end_point: Point,
}

/// What a text edit did, as a parse tree needs to know it.
#[derive(Clone, Copy, PartialEq, Eq, Structural, Debug)]
pub struct InputEdit {
    pub start_byte: usize,
    pub old_end_byte: usize,
    pub new_end_byte: usize,
    pub start_position: Point,
    pub old_end_position: Point,
    pub new_end_position: Point,
}

/// A replacement of a span of C source by new text.
pub struct Edit {
    pub range: Range,
    pub replace: String,
}

/// Why an import failed.
#[derive(Clone, PartialEq, Eq, Debug)]
pub enum ImportError {
    /// A field that the import needs is missing from the data.
    MissingField(String),
    /// An initializer that should have a closing token has none.
    NoLastChild,
    /// A trainer names a species and form that the species data lacks.
    UnknownPokemon(String),
    /// A trainer's member has an ability slot other than the three known.
    UnexpectedAbility(String),
    /// An override names a party position that does not exist.
    BadOverrideIndex(usize),
    /// A stat name that has no move effect.
    UnexpectedStat(String),
    /// A stat change of zero stages.
    ZeroStatChange,
    /// A hit count other than 2-5 or a fixed count.
    InvalidHitCount,
    /// A target the importer does not know.
    UnhandledTarget(String),
    /// A move category the importer does not know.
    UnhandledMoveCategory(String),
}

/// An import error with its texts as sequences of characters.
pub ghost enum ImportErrorView {
    MissingField(Seq<char>),
    NoLastChild,
    UnknownPokemon(Seq<char>),
    UnexpectedAbility(Seq<char>),
    BadOverrideIndex(usize),
    UnexpectedStat(Seq<char>),
    ZeroStatChange,
    InvalidHitCount,
    UnhandledTarget(Seq<char>),
    UnhandledMoveCategory(Seq<char>),
}

impl View for ImportError {
    type V = ImportErrorView;

    open spec fn view(&self) -> ImportErrorView {
        match self {
            ImportError::MissingField(s) => ImportErrorView::MissingField(s@),
            ImportError::NoLastChild => ImportErrorView::NoLastChild,
            ImportError::UnknownPokemon(s) => ImportErrorView::UnknownPokemon(s@),
            ImportError::UnexpectedAbility(s) => ImportErrorView::UnexpectedAbility(s@),
            ImportError::BadOverrideIndex(i) => ImportErrorView::BadOverrideIndex(*i),
            ImportError::UnexpectedStat(s) => ImportErrorView::UnexpectedStat(s@),
            ImportError::ZeroStatChange => ImportErrorView::ZeroStatChange,
            ImportError::InvalidHitCount => ImportErrorView::InvalidHitCount,
            ImportError::UnhandledTarget(s) => ImportErrorView::UnhandledTarget(s@),
            ImportError::UnhandledMoveCategory(s) => ImportErrorView::UnhandledMoveCategory(s@),
        }
    }
}

/// An edit with its new text as a sequence of characters.
pub type EditView = (Range, Seq<char>);

/// `res` is the edit `spec` describes, or fails as it does.
pub open spec fn edit_is(res: Result<Edit, ImportError>, spec: Result<EditView, ImportErrorView>) -> bool {
    match spec {
        Ok(v) => res matches Ok(e) && e.range == v.0 && e.replace@ == v.1,
        Err(ev) => res matches Err(e) && e@ == ev,
    }
}

/// The edits of a list.
pub open spec fn edit_views(edits: Seq<Edit>) -> Seq<EditView> {
    edits.map_values(|e: Edit| (e.range, e.replace@))
}

/// `res` is the list of edits `spec` describes, or fails as it does.
pub open spec fn edits_are(
    res: Result<Vec<Edit>, ImportError>,
    spec: Result<Seq<EditView>, ImportErrorView>,
) -> bool {
    match spec {
        Ok(v) => res matches Ok(es) && edit_views(es@) == v,
        Err(ev) => res matches Err(e) && e@ == ev,
    }
}

/// `res` is the optional edit `spec` describes, or fails as it does.
pub open spec fn opt_edit_is(
    res: Result<Option<Edit>, ImportError>,
    spec: Result<Option<EditView>, ImportErrorView>,
) -> bool {
    match spec {
        Ok(None) => res matches Ok(None),
        Ok(Some(v)) => res matches Ok(Some(e)) && e.range == v.0 && e.replace@ == v.1,
        Err(ev) => res matches Err(e) && e@ == ev,
    }
}

/// The edits of `a`, then those of `b`; the first failure wins.
pub open spec fn then_edits(
    a: Result<Seq<EditView>, ImportErrorView>,
    b: Result<Seq<EditView>, ImportErrorView>,
) -> Result<Seq<EditView>, ImportErrorView> {
    match a {
        Err(e) => Err(e),
        Ok(x) => match b {
            Err(e) => Err(e),
            Ok(y) => Ok(x + y),
        },
    }
}

/// Joining edits to a list in two steps is joining them in one.
pub proof fn lemma_then_ok_assoc(
    x: Seq<EditView>,
    y: Seq<EditView>,
    r: Result<Seq<EditView>, ImportErrorView>,
)
    ensures
        then_edits(Ok(x), then_edits(Ok(y), r)) == then_edits(Ok(x + y), r),
{
    if let Ok(z) = r {
        assert(x + (y + z) =~= (x + y) + z);
    }
}

/// No edits before others leave them as they are.
pub proof fn lemma_then_empty(r: Result<Seq<EditView>, ImportErrorView>)
    ensures
        then_edits(Ok(Seq::empty()), r) == r,
{
    if let Ok(z) = r {
        assert(Seq::<EditView>::empty() + z =~= z);
    }
}

/// An optional edit as a list of none or one.
pub open spec fn opt_as_seq(
    a: Result<Option<EditView>, ImportErrorView>,
) -> Result<Seq<EditView>, ImportErrorView> {
    match a {
        Err(e) => Err(e),
        Ok(None) => Ok(Seq::empty()),
        Ok(Some(v)) => Ok(seq![v]),
    }
}

/// A single edit as a list of one.
pub open spec fn one_as_seq(a: Result<EditView, ImportErrorView>) -> Result<
    Seq<EditView>,
    ImportErrorView,
> {
    match a {
        Err(e) => Err(e),
        Ok(v) => Ok(seq![v]),
    }
}

/// The sort key of an edit: where it starts, then where it ends.
pub open spec fn edit_key_le(a: Range, b: Range) -> bool {
    a.start_byte < b.start_byte || (a.start_byte == b.start_byte && a.end_byte <= b.end_byte)
}

/// The ranges of a list of edits.
pub open spec fn ranges(edits: Seq<Edit>) -> Seq<Range> {
    edits.map_values(|e: Edit| e.range)
}

/// Where a new range goes among `sorted` ranges so that it follows every
/// range with a key no greater than its own.
pub open spec fn insert_position(sorted: Seq<Range>, r: Range) -> int
    decreases sorted.len(),
{
    if sorted.len() == 0 {
        0
    } else if edit_key_le(sorted.last(), r) {
        sorted.len() as int
    } else {
        insert_position(sorted.drop_last(), r)
    }
}

/// `edits` in the order a stable sort by key puts them: each edit is
/// inserted after every earlier edit with a key no greater than its own.
pub open spec fn sorted_edits(edits: Seq<Edit>) -> Seq<Edit>
    decreases edits.len(),
{
    if edits.len() == 0 {
        Seq::empty()
    } else {
        let prev = sorted_edits(edits.drop_last());
        prev.insert(insert_position(ranges(prev), edits.last().range), edits.last())
    }
}

/// The text after applying `edits` from the last to the first.
pub open spec fn apply_backward(text: Seq<u8>, edits: Seq<(Range, Seq<u8>)>) -> Seq<u8>
    decreases edits.len(),
{
    if edits.len() == 0 {
        text
    } else {
        apply_backward(
            spec_replace_text(text, edits.last().0, edits.last().1),
            edits.drop_last(),
        )
    }
}

/// Every edit, applied from the last to the first, replaces a span that
/// lies in the text as it then stands, and the new text stays addressable.
pub open spec fn applicable_backward(text: Seq<u8>, edits: Seq<(Range, Seq<u8>)>) -> bool
    decreases edits.len(),
{
    if edits.len() == 0 {
        true
    } else {
        let (r, rep) = edits.last();
        &&& replaceable(text, r, rep)
        &&& applicable_backward(spec_replace_text(text, r, rep), edits.drop_last())
    }
}

fn insert_sorted(sorted: &mut Vec<Edit>, e: Edit)
    ensures
        final(sorted)@ == old(sorted)@.insert(insert_position(ranges(old(sorted)@), e.range), e),
{
    let ghost rs = ranges(sorted@);
    let mut pos = sorted.len();
    assert(rs.subrange(0, pos as int) =~= rs);
    while pos > 0
        invariant
            pos <= sorted.len(),
            rs == ranges(sorted@),
            insert_position(rs, e.range) == insert_position(rs.subrange(0, pos as int), e.range),
        ensures
            pos <= sorted.len(),
            insert_position(rs, e.range) == pos,
        decreases pos,
    {
        let r = sorted[pos - 1].range;
        proof {
            assert(rs.subrange(0, pos as int).last() == r);
            assert(rs.subrange(0, pos as int).drop_last() =~= rs.subrange(0, pos - 1));
        }
        if r.start_byte < e.range.start_byte || (r.start_byte == e.range.start_byte
            && r.end_byte <= e.range.end_byte) {
            break;
        }
        pos = pos - 1;
    }
    sorted.insert(pos, e);
}

/// `edits` sorted by where they start, then by where they end, keeping
/// the order of edits with equal keys.
pub fn sort_edits(edits: Vec<Edit>) -> (res: Vec<Edit>)
    ensures
        res@ == sorted_edits(edits@),
{
    let mut edits = edits;
    let ghost original = edits@;
    let mut rest: Vec<Edit> = Vec::new();
    while edits.len() > 0
        invariant
            edits@ + rest@ == original,
        decreases edits.len(),
    {
        let e = edits.pop().unwrap();
        rest.insert(0, e);
        assert(edits@ + rest@ =~= original);
    }
    assert(rest@ =~= original);
    let mut sorted: Vec<Edit> = Vec::new();
    let mut i: usize = 0;
    let n = rest.len();
    while rest.len() > 0
        invariant
            rest@ == original.subrange(i as int, original.len() as int),
            n == original.len(),
            i + rest.len() == n,
            sorted@ == sorted_edits(original.subrange(0, i as int)),
        decreases rest.len(),
    {
        let e = rest.remove(0);
        proof {
            assert(original.subrange(0, i + 1).drop_last() =~= original.subrange(0, i as int));
            assert(original.subrange(0, i + 1).last() == e);
        }
        insert_sorted(&mut sorted, e);
        i = i + 1;
        assert(rest@ =~= original.subrange(i as int, original.len() as int));
    }
    assert(original.subrange(0, n as int) =~= original);
    sorted
}

/// The ranges and new bytes of a list of edits.
pub open spec fn edit_pairs(edits: Seq<Edit>) -> Seq<(Range, Seq<u8>)> {
    edits.map_values(|e: Edit| (e.range, vstd::utf8::encode_utf8(e.replace@)))
}

/// Applies `edits` to `text` in order of where they start, from the last
/// to the first so that the spans of those still to come stay where they
/// are, and gives back, in the order applied, what each edit did.
pub fn apply_edits(text: &mut Vec<u8>, edits: Vec<Edit>) -> (res: Result<
    Vec<InputEdit>,
    ImportError,
>)
    requires
        applicable_backward(old(text)@, edit_pairs(sorted_edits(edits@))),
    ensures
        res is Ok,
        res.unwrap().len() == edits@.len(),
        forall|k: int|
            0 <= k < edits@.len() ==> {
                let pair = #[trigger] edit_pairs(sorted_edits(edits@))[edits@.len() - 1 - k];
                res.unwrap()@[k] == spec_input_edit(pair.0, pair.1)
            },
        final(text)@ == apply_backward(old(text)@, edit_pairs(sorted_edits(edits@))),
{
    let sorted = sort_edits(edits);
    let ghost pairs = edit_pairs(sorted@);
    proof {
        lemma_sorted_edits_len(edits@);
    }
    let mut done: Vec<InputEdit> = Vec::new();
    let mut i = sorted.len();
    let ghost start_text = text@;
    assert(pairs.subrange(0, i as int) =~= pairs);
    while i > 0
        invariant
            i <= sorted.len(),
            pairs == edit_pairs(sorted@),
            done.len() + i == sorted.len(),
            forall|k: int|
                0 <= k < done.len() ==> #[trigger] done@[k] == spec_input_edit(
                    pairs[sorted.len() - 1 - k].0,
                    pairs[sorted.len() - 1 - k].1,
                ),
            applicable_backward(text@, pairs.subrange(0, i as int)),
            apply_backward(start_text, pairs) == apply_backward(text@, pairs.subrange(0, i as int)),
        decreases i,
    {
        let edit = &sorted[i - 1];
        proof {
            assert(pairs.subrange(0, i as int).last() == pairs[i - 1]);
            assert(pairs.subrange(0, i as int).drop_last() =~= pairs.subrange(0, i - 1));
        }
        let input_edit = replace_range(text, edit.range, edit.replace.as_str());
        match input_edit {
            Ok(ie) => done.push(ie),
            Err(e) => return Err(e),
        }
        i = i - 1;
    }
    assert(pairs.subrange(0, 0) =~= Seq::<(Range, Seq<u8>)>::empty());
    Ok(done)
}

/// The edits whose span starts at `start` and ends at `end`.
pub open spec fn has_span(start: usize, end: usize) -> spec_fn(Edit) -> bool {
    |x: Edit| x.range.start_byte == start && x.range.end_byte == end
}

/// Sorting is stable: edits of the same span stay in the order they came
/// in, so insertions at one place land in the order they were made.
pub proof fn law_sorted_edits_stable(edits: Seq<Edit>, start: usize, end: usize)
    ensures
        sorted_edits(edits).filter(has_span(start, end)) == edits.filter(has_span(start, end)),
    decreases edits.len(),
{
    let pred = has_span(start, end);
    broadcast use vstd::seq_lib::group_filter_ensures;

    if edits.len() == 0 {
        reveal(Seq::filter);
        assert(sorted_edits(edits) =~= edits);
    } else {
        let prev = sorted_edits(edits.drop_last());
        let last = edits.last();
        law_sorted_edits_stable(edits.drop_last(), start, end);
        lemma_insert_position_splits(ranges(prev), last.range);
        let p = insert_position(ranges(prev), last.range);
        let pre = prev.subrange(0, p);
        let post = prev.subrange(p, prev.len() as int);
        assert(prev.insert(p, last) =~= pre + seq![last] + post);
        assert(prev =~= pre + post);
        Seq::filter_distributes_over_add(pre + seq![last], post, pred);
        Seq::filter_distributes_over_add(pre, seq![last], pred);
        Seq::filter_distributes_over_add(pre, post, pred);
        Seq::<Edit>::empty().lemma_filter_push(last, pred);
        reveal(Seq::filter);
        assert(Seq::<Edit>::empty().push(last) =~= seq![last]);
        assert(edits.drop_last().push(last) =~= edits);
        edits.drop_last().lemma_filter_push(last, pred);
        if pred(last) {
            assert forall|k: int| 0 <= k < post.len() implies !pred(#[trigger] post[k]) by {
                assert(post[k] == prev[p + k]);
                assert(ranges(prev)[p + k] == prev[p + k].range);
            }
            assert(post.all(|x: Edit| !pred(x)));
            post.lemma_all_neg_filter_empty(pred);
            assert(post.filter(pred) =~= Seq::<Edit>::empty());
        }
    }
}

/// The edits replace spans that lie in order, each ending before the next
/// starts.
pub open spec fn spans_in_order(edits: Seq<(Range, Seq<u8>)>) -> bool {
    &&& forall|i: int|
        0 <= i < edits.len() ==> (#[trigger] edits[i]).0.start_byte <= edits[i].0.end_byte
    &&& forall|i: int, j: int|
        0 <= i < j < edits.len() ==> (#[trigger] edits[i]).0.end_byte <= (
        #[trigger] edits[j]).0.start_byte
}

/// The text with each span of `edits` replaced, every span read in `text`
/// itself: the text before the last span with the earlier edits made, the
/// last replacement, then the text after the last span.
pub open spec fn replace_spans(text: Seq<u8>, edits: Seq<(Range, Seq<u8>)>) -> Seq<u8>
    decreases edits.len(),
{
    if edits.len() == 0 {
        text
    } else {
        let (r, rep) = edits.last();
        replace_spans(text.subrange(0, r.start_byte as int), edits.drop_last()) + rep
            + text.subrange(r.end_byte as int, text.len() as int)
    }
}

/// Edits that end within `a` leave text after `a` alone.
proof fn lemma_apply_backward_prefix(a: Seq<u8>, b: Seq<u8>, edits: Seq<(Range, Seq<u8>)>)
    requires
        spans_in_order(edits),
        forall|i: int| 0 <= i < edits.len() ==> (#[trigger] edits[i]).0.end_byte <= a.len(),
    ensures
        apply_backward(a + b, edits) == apply_backward(a, edits) + b,
    decreases edits.len(),
{
    if edits.len() > 0 {
        let (r, rep) = edits.last();
        let rest = edits.drop_last();
        let a2 = spec_replace_text(a, r, rep);
        assert(edits[edits.len() - 1] == edits.last());
        assert(spec_replace_text(a + b, r, rep) =~= a2 + b);
        assert forall|i: int| 0 <= i < rest.len() implies (#[trigger] rest[i]).0.end_byte
            <= a2.len() by {
            assert(rest[i] == edits[i]);
        }
        assert forall|i: int| 0 <= i < rest.len() implies (#[trigger] rest[i]).0.start_byte
            <= rest[i].0.end_byte by {
            assert(rest[i] == edits[i]);
        }
        assert forall|i: int, j: int| 0 <= i < j < rest.len() implies (#[trigger] rest[i]).0.end_byte
            <= (#[trigger] rest[j]).0.start_byte by {
            assert(rest[i] == edits[i] && rest[j] == edits[j]);
        }
        lemma_apply_backward_prefix(a2, b, rest);
    }
}

/// Applying edits from the last to the first reads every span in the
/// original text: where the spans lie in order within the text, the result
/// is the text with each span replaced.
pub proof fn law_edits_read_original_spans(text: Seq<u8>, edits: Seq<(Range, Seq<u8>)>)
    requires
        spans_in_order(edits),
        forall|i: int| 0 <= i < edits.len() ==> (#[trigger] edits[i]).0.end_byte <= text.len(),
    ensures
        apply_backward(text, edits) == replace_spans(text, edits),
    decreases edits.len(),
{
    if edits.len() > 0 {
        let (r, rep) = edits.last();
        let rest = edits.drop_last();
        let s = r.start_byte as int;
        let e = r.end_byte as int;
        assert(edits[edits.len() - 1] == edits.last());
        let head = text.subrange(0, s);
        let tail = rep + text.subrange(e, text.len() as int);
        assert(spec_replace_text(text, r, rep) =~= head + tail);
        assert forall|i: int| 0 <= i < rest.len() implies (#[trigger] rest[i]).0.end_byte
            <= head.len() by {
            assert(rest[i] == edits[i]);
            assert(edits[i].0.end_byte <= edits[edits.len() - 1].0.start_byte);
        }
        assert forall|i: int| 0 <= i < rest.len() implies (#[trigger] rest[i]).0.start_byte
            <= rest[i].0.end_byte by {
            assert(rest[i] == edits[i]);
        }
        assert forall|i: int, j: int| 0 <= i < j < rest.len() implies (#[trigger] rest[i]).0.end_byte
            <= (#[trigger] rest[j]).0.start_byte by {
            assert(rest[i] == edits[i] && rest[j] == edits[j]);
        }
        lemma_apply_backward_prefix(head, tail, rest);
        law_edits_read_original_spans(head, rest);
        assert(replace_spans(head, rest) + tail =~= replace_spans(head, rest) + rep
            + text.subrange(e, text.len() as int));
    }
}

/// Edits already in order of where they start, then of where they end.
pub open spec fn edits_sorted(edits: Seq<Edit>) -> bool {
    forall|i: int, j: int|
        0 <= i < j < edits.len() ==> edit_key_le(#[trigger] edits[i].range, #[trigger] edits[j].range)
}

proof fn lemma_sorted_edits_fixed(edits: Seq<Edit>)
    requires
        edits_sorted(edits),
    ensures
        sorted_edits(edits) == edits,
    decreases edits.len(),
{
    if edits.len() > 0 {
        let rest = edits.drop_last();
        assert forall|i: int, j: int| 0 <= i < j < rest.len() implies edit_key_le(
            #[trigger] rest[i].range,
            #[trigger] rest[j].range,
        ) by {
            assert(rest[i] == edits[i] && rest[j] == edits[j]);
        }
        lemma_sorted_edits_fixed(rest);
        if rest.len() > 0 {
            assert(ranges(rest).last() == edits[edits.len() - 2].range);
            assert(edit_key_le(edits[edits.len() - 2].range, edits[edits.len() - 1].range));
        }
        assert(rest.insert(rest.len() as int, edits.last()) =~= edits);
    }
}

/// Sorting sorted edits changes nothing.
pub proof fn law_sorting_twice_is_sorting_once(edits: Seq<Edit>)
    ensures
        sorted_edits(sorted_edits(edits)) == sorted_edits(edits),
{
    law_sorted_edits_ordered(edits);
    lemma_sorted_edits_fixed(sorted_edits(edits));
}

/// Replacing the span `r` by `rep` in a text of `len` bytes is possible and
/// its result can be addressed.
pub open spec fn replaceable_len(len: int, r: Range, rep: Seq<u8>) -> bool {
    &&& r.start_byte <= r.end_byte <= len
    &&& len - (r.end_byte - r.start_byte) + rep.len() <= usize::MAX
    &&& rep.len() + r.start_byte <= usize::MAX
    &&& r.start_point.row + tree_utils::newline_count(rep) + 1 <= usize::MAX
    &&& r.start_point.column + rep.len() <= usize::MAX
}

/// Every edit, applied from the last to the first to a text of `len` bytes,
/// replaces a span that lies in the text as it then stands.
pub open spec fn fits_backward(len: int, edits: Seq<(Range, Seq<u8>)>) -> bool
    decreases edits.len(),
{
    if edits.len() == 0 {
        true
    } else {
        let (r, rep) = edits.last();
        replaceable_len(len, r, rep) && fits_backward(
            len - (r.end_byte - r.start_byte) + rep.len(),
            edits.drop_last(),
        )
    }
}

proof fn lemma_applicable_by_length(text: Seq<u8>, edits: Seq<(Range, Seq<u8>)>)
    ensures
        applicable_backward(text, edits) == fits_backward(text.len() as int, edits),
    decreases edits.len(),
{
    if edits.len() > 0 {
        let (r, rep) = edits.last();
        lemma_applicable_by_length(spec_replace_text(text, r, rep), edits.drop_last());
    }
}

fn count_newlines(bytes: &[u8]) -> (n: usize)
    ensures
        n == tree_utils::newline_count(bytes@),
        n <= bytes.len(),
{
    let mut n: usize = 0;
    let mut j: usize = 0;
    while j < bytes.len()
        invariant
            j <= bytes.len(),
            n == tree_utils::newline_count(bytes@.subrange(0, j as int)),
            n <= j,
        decreases bytes.len() - j,
    {
        assert(bytes@.subrange(0, j + 1).drop_last() =~= bytes@.subrange(0, j as int));
        if bytes[j] == tree_utils::NEWLINE {
            n = n + 1;
        }
        j = j + 1;
    }
    assert(bytes@.subrange(0, bytes.len() as int) =~= bytes@);
    n
}

/// Whether `edits`, applied from the last to the first in the order they
/// come, each replace a span of `text` as it then stands, so that
/// applying them in that order does not fail.
pub fn edits_fit(text: &Vec<u8>, edits: &Vec<Edit>) -> (res: bool)
    ensures
        res == applicable_backward(text@, edit_pairs(edits@)),
{
    let ghost pairs = edit_pairs(edits@);
    proof {
        lemma_applicable_by_length(text@, pairs);
    }
    let mut cur: usize = text.len();
    let mut k: usize = edits.len();
    assert(pairs.subrange(0, k as int) =~= pairs);
    while k > 0
        invariant
            k <= edits.len(),
            pairs == edit_pairs(edits@),
            applicable_backward(text@, pairs) == fits_backward(text@.len() as int, pairs),
            fits_backward(text@.len() as int, pairs) == fits_backward(
                cur as int,
                pairs.subrange(0, k as int),
            ),
        decreases k,
    {
        let e = &edits[k - 1];
        let r = e.range;
        let rep = e.replace.as_str().as_bytes();
        proof {
            assert(pairs.subrange(0, k as int).last() == pairs[k - 1]);
            assert(pairs.subrange(0, k as int).drop_last() =~= pairs.subrange(0, k - 1));
            assert(pairs[k - 1] == (r, rep@));
            assert(fits_backward(cur as int, pairs.subrange(0, k as int)) == (replaceable_len(
                cur as int,
                r,
                rep@,
            ) && fits_backward(
                cur - (r.end_byte - r.start_byte) + rep@.len(),
                pairs.subrange(0, k - 1),
            )));
        }
        if !(r.start_byte <= r.end_byte && r.end_byte <= cur) {
            return false;
        }
        let kept = cur - (r.end_byte - r.start_byte);
        if rep.len() > usize::MAX - kept || rep.len() > usize::MAX - r.start_byte {
            return false;
        }
        let n = count_newlines(rep);
        if r.start_point.row >= usize::MAX - n || rep.len() > usize::MAX - r.start_point.column {
            return false;
        }
        cur = kept + rep.len();
        k = k - 1;
    }
    true
}

/// Sorts `edits` and applies them as `apply_edits` does where every one of
/// them fits the text as it then stands; gives `None`, and leaves the text
/// as it was, where one does not (applying it would fail).
pub fn try_apply_edits(text: &mut Vec<u8>, edits: Vec<Edit>) -> (res: Option<Vec<InputEdit>>)
    ensures
        res is Some <==> applicable_backward(old(text)@, edit_pairs(sorted_edits(edits@))),
        res is None ==> final(text)@ == old(text)@,
        res matches Some(done) ==> {
            &&& done.len() == edits@.len()
            &&& forall|k: int|
                0 <= k < edits@.len() ==> {
                    let pair = #[trigger] edit_pairs(sorted_edits(edits@))[edits@.len() - 1 - k];
                    done@[k] == spec_input_edit(pair.0, pair.1)
                }
            &&& final(text)@ == apply_backward(old(text)@, edit_pairs(sorted_edits(edits@)))
        },
{
    let ghost original = edits@;
    let sorted = sort_edits(edits);
    if !edits_fit(text, &sorted) {
        return None;
    }
    proof {
        law_sorting_twice_is_sorting_once(original);
        lemma_sorted_edits_len(original);
    }
    match apply_edits(text, sorted) {
        Ok(done) => Some(done),
        Err(_) => None,
    }
}

/// Sorting keeps the number of edits.
pub proof fn lemma_sorted_edits_len(edits: Seq<Edit>)
    ensures
        sorted_edits(edits).len() == edits.len(),
    decreases edits.len(),
{
    if edits.len() > 0 {
        lemma_sorted_edits_len(edits.drop_last());
        lemma_insert_position_splits(
            ranges(sorted_edits(edits.drop_last())),
            edits.last().range,
        );
    }
}

/// Where a range is inserted: after a range with a key no greater than its
/// own, before every range with a greater key.
proof fn lemma_insert_position_splits(sorted: Seq<Range>, r: Range)
    ensures
        0 <= insert_position(sorted, r) <= sorted.len(),
        insert_position(sorted, r) > 0 ==> edit_key_le(sorted[insert_position(sorted, r) - 1], r),
        forall|k: int|
            insert_position(sorted, r) <= k < sorted.len() ==> !edit_key_le(#[trigger] sorted[k], r),
    decreases sorted.len(),
{
    if sorted.len() > 0 && !edit_key_le(sorted.last(), r) {
        lemma_insert_position_splits(sorted.drop_last(), r);
        let p = insert_position(sorted.drop_last(), r);
        assert forall|k: int| p <= k < sorted.len() implies !edit_key_le(#[trigger] sorted[k], r) by {
            if k < sorted.len() - 1 {
                assert(sorted[k] == sorted.drop_last()[k]);
            }
        }
    }
}

/// The sorted edits are in order of where they start, then of where they
/// end.
pub proof fn law_sorted_edits_ordered(edits: Seq<Edit>)
    ensures
        forall|i: int, j: int|
            0 <= i < j < sorted_edits(edits).len() ==> edit_key_le(
                #[trigger] sorted_edits(edits)[i].range,
                #[trigger] sorted_edits(edits)[j].range,
            ),
    decreases edits.len(),
{
    if edits.len() > 0 {
        let prev = sorted_edits(edits.drop_last());
        let e = edits.last();
        law_sorted_edits_ordered(edits.drop_last());
        lemma_insert_position_splits(ranges(prev), e.range);
        let p = insert_position(ranges(prev), e.range);
        let next = prev.insert(p, e);
        assert(next == sorted_edits(edits));
        assert forall|i: int, j: int| 0 <= i < j < next.len() implies edit_key_le(
            #[trigger] next[i].range,
            #[trigger] next[j].range,
        ) by {
            if j < p {
                assert(next[i] == prev[i] && next[j] == prev[j]);
            } else if j == p {
                assert(next[i] == prev[i] && ranges(prev)[i] == prev[i].range);
                assert(ranges(prev)[p - 1] == prev[p - 1].range);
                if i < p - 1 {
                    assert(edit_key_le(prev[i].range, prev[p - 1].range));
                }
            } else if i < p {
                assert(next[i] == prev[i] && next[j] == prev[j - 1]);
            } else if i == p {
                assert(next[j] == prev[j - 1] && ranges(prev)[j - 1] == prev[j - 1].range);
                assert(!edit_key_le(ranges(prev)[j - 1], e.range));
            } else {
                assert(next[i] == prev[i - 1] && next[j] == prev[j - 1]);
            }
        }
    }
}

/// Sorting neither drops nor adds an edit.
pub proof fn law_sorted_edits_permutation(edits: Seq<Edit>)
    ensures
        sorted_edits(edits).to_multiset() == edits.to_multiset(),
    decreases edits.len(),
{
    broadcast use vstd::seq_lib::to_multiset_build, vstd::seq_lib::to_multiset_insert;

    if edits.len() == 0 {
        assert(sorted_edits(edits) =~= edits);
    } else {
        let prev = sorted_edits(edits.drop_last());
        law_sorted_edits_permutation(edits.drop_last());
        lemma_insert_position_splits(ranges(prev), edits.last().range);
        assert(edits.drop_last().push(edits.last()) =~= edits);
    }
}


/// A species and its form, as the exported data names them.
#[derive(Clone, PartialEq, Eq, Debug)]
pub struct Species {
    pub species: String,
    pub form: usize,
}

/// Base stats.
#[derive(Clone, Copy, PartialEq, Eq, Structural, Debug)]
pub struct Stats {
    pub hp: u16,
    pub atk: u16,
    pub def: u16,
    pub spa: u16,
    pub spd: u16,
    pub spe: u16,
}

/// The parameter of an evolution, as the exported data gives it.
#[derive(Clone, PartialEq, Eq, Debug)]
pub enum EvoParameter {
    /// A number, given when it is a whole number that fits.
    Number(Option<u64>),
    /// A text.
    Text(String),
    /// Anything else.
    Other,
}

/// One evolution of a species.
#[derive(Clone, PartialEq, Eq, Debug)]
pub struct EvoData {
    pub level: u8,
    pub condition: String,
    pub parameter: EvoParameter,
    pub species: String,
    pub form: usize,
}

/// A move learnt at a level.
#[derive(Clone, PartialEq, Eq, Debug)]
pub struct LevelUpMove {
    pub move_name: String,
    pub level: u8,
}

/// The exported data of one species.
#[derive(Clone, PartialEq, Eq, Debug)]
pub struct Personal {
    pub species: Species,
    pub is_present: bool,
    pub type_1: String,
    pub type_2: String,
    pub ability_1: String,
    pub ability_2: String,
    pub ability_hidden: String,
    pub base_stats: Stats,
    pub evo_data: Vec<EvoData>,
    pub tm_moves: Vec<String>,
    pub levelup_moves: Vec<LevelUpMove>,
}

/// The exported data of every species.
#[derive(Clone, PartialEq, Eq, Debug)]
pub struct PersonalArray {
    pub entry: Vec<Personal>,
}

} // verus!
