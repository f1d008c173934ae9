//! Text building blocks for the generated C source: comparing, joining,
//! number formatting and case conversion.
use convert_case::{Case, Casing};
use vstd::prelude::*;
use vstd::string::StringExecFns;

verus! {

/// The decimal digit character for `d < 10`.
pub open spec fn digit_char(d: nat) -> char {
    if d == 0 {
        '0'
    } else if d == 1 {
        '1'
    } else if d == 2 {
        '2'
    } else if d == 3 {
        '3'
    } else if d == 4 {
        '4'
    } else if d == 5 {
        '5'
    } else if d == 6 {
        '6'
    } else if d == 7 {
        '7'
    } else if d == 8 {
        '8'
    } else {
        '9'
    }
}

/// The decimal digits of `n`, most significant first, without leading
/// zeros.
pub open spec fn spec_decimal(n: nat) -> Seq<char>
    decreases n,
{
    if n < 10 {
        seq![digit_char(n)]
    } else {
        spec_decimal(n / 10).push(digit_char(n % 10))
    }
}

/// The decimal text of `n`, with a leading `-` when negative.
pub open spec fn spec_signed_decimal(n: int) -> Seq<char> {
    if n < 0 {
        seq!['-'] + spec_decimal((-n) as nat)
    } else {
        spec_decimal(n as nat)
    }
}

/// `u64::to_string`: the decimal digits of `n`.
#[verifier::external_body]
pub(crate) fn decimal_u64(n: u64) -> (res: String)
    ensures
        res@ == spec_decimal(n as nat),
{
    n.to_string()
}

/// `i64::to_string`: the decimal text of `n`, with `-` when negative.
#[verifier::external_body]
pub(crate) fn decimal_i64(n: i64) -> (res: String)
    ensures
        res@ == spec_signed_decimal(n as int),
{
    n.to_string()
}

/// What `convert_case` makes of a text in constant case: its words in
/// upper case, joined by underscores.
pub uninterp spec fn constant_case(s: Seq<char>) -> Seq<char>;

/// `Casing::to_case` with `Case::Constant` (the upper-snake case that
/// C constants are written in).
#[verifier::external_body]
pub(crate) fn to_constant_case(s: &str) -> (res: String)
    ensures
        res@ == constant_case(s@),
{
    s.to_case(Case::Constant)
}

/// What `str::to_uppercase` makes of a text: each character in upper case,
/// by the Unicode rules.
pub uninterp spec fn uppercase(s: Seq<char>) -> Seq<char>;

/// `str::to_uppercase`.
#[verifier::external_body]
pub(crate) fn to_uppercase(s: &str) -> (res: String)
    ensures
        res@ == uppercase(s@),
{
    s.to_uppercase()
}

/// What the `Debug` format makes of a text: the text in double quotes with
/// quotes, backslashes and control characters escaped.
pub uninterp spec fn debug_quoted(s: Seq<char>) -> Seq<char>;

/// The `Debug` format of a text.
#[verifier::external_body]
pub(crate) fn to_debug_quoted(s: &str) -> (res: String)
    ensures
        res@ == debug_quoted(s@),
{
    format!("{:?}", s)
}

/// Every character of `s` is an ASCII digit.
pub open spec fn all_digits(s: Seq<char>) -> bool {
    forall|i: int| 0 <= i < s.len() ==> '0' <= #[trigger] s[i] <= '9'
}

/// The number that the ASCII digits `s` write in decimal.
pub open spec fn digits_value(s: Seq<char>) -> nat
    decreases s.len(),
{
    if s.len() == 0 {
        0
    } else {
        digits_value(s.drop_last()) * 10 + ((s.last() as int) - ('0' as int)) as nat
    }
}

/// What `str::parse::<usize>` makes of a text: an optional `+` followed by
/// at least one ASCII digit gives the number they write, where it fits in
/// `usize`; anything else is refused.
pub open spec fn spec_parse_usize(s: Seq<char>) -> Option<usize> {
    let digits = if s.len() > 0 && s[0] == '+' {
        s.drop_first()
    } else {
        s
    };
    if digits.len() > 0 && all_digits(digits) && digits_value(digits) <= usize::MAX {
        Some(digits_value(digits) as usize)
    } else {
        None
    }
}

/// `str::parse::<usize>`, with the error dropped.
#[verifier::external_body]
pub(crate) fn parse_usize(s: &str) -> (res: Option<usize>)
    ensures
        res == spec_parse_usize(s@),
{
    s.parse().ok()
}

/// Whether two texts are equal.
pub fn str_eq(a: &str, b: &str) -> (res: bool)
    ensures
        res == (a@ == b@),
{
    let n = a.unicode_len();
    if n != b.unicode_len() {
        return false;
    }
    let mut i: usize = 0;
    while i < n
        invariant
            n == a@.len(),
            n == b@.len(),
            i <= n,
            forall|j: int| 0 <= j < i ==> a@[j] == b@[j],
        decreases n - i,
    {
        if a.get_char(i) != b.get_char(i) {
            return false;
        }
        i = i + 1;
    }
    assert(a@ =~= b@);
    true
}

/// A new text that is a copy of `s`.
pub fn text(s: &str) -> (res: String)
    ensures
        res@ == s@,
{
    String::from_str(s)
}

/// Appends `b` to `a`.
pub fn push_str(a: &mut String, b: &str)
    ensures
        final(a)@ == old(a)@ + b@,
{
    a.append(b);
}

/// The elements of `list` joined by `sep`.
pub open spec fn spec_join(list: Seq<Seq<char>>, sep: Seq<char>) -> Seq<char>
    decreases list.len(),
{
    if list.len() == 0 {
        Seq::empty()
    } else if list.len() == 1 {
        list[0]
    } else {
        spec_join(list.drop_last(), sep) + sep + list.last()
    }
}

/// The views of a list of texts.
pub open spec fn views(list: Seq<String>) -> Seq<Seq<char>> {
    list.map_values(|s: String| s@)
}

/// The elements of `list` joined by `sep`.
pub fn join(list: &Vec<String>, sep: &str) -> (res: String)
    ensures
        res@ == spec_join(views(list@), sep@),
{
    let mut res = String::new();
    let ghost all = views(list@);
    let mut i: usize = 0;
    while i < list.len()
        invariant
            i <= list.len(),
            all == views(list@),
            res@ == spec_join(all.subrange(0, i as int), sep@),
        decreases list.len() - i,
    {
        if i != 0 {
            res.append(sep);
        }
        res.append(list[i].as_str());
        proof {
            assert(all.subrange(0, i + 1).drop_last() =~= all.subrange(0, i as int));
            if i == 0 {
                assert(all.subrange(0, 0) =~= Seq::<Seq<char>>::empty());
            }
        }
        i = i + 1;
    }
    assert(all.subrange(0, list.len() as int) =~= all);
    res
}

/// The elements of `list`, one after the other.
pub fn concat_all(list: &Vec<String>) -> (res: String)
    ensures
        res@ == spec_join(views(list@), Seq::empty()),
{
    let empty = "";
    proof {
        reveal_strlit("");
        assert(empty@ =~= Seq::<char>::empty());
    }
    join(list, empty)
}

} // verus!
