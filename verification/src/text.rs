//! Rendering of numbers and flags as text.

use vstd::prelude::*;

verus! {

/// The character of a decimal digit.
pub open spec fn digit_char(d: nat) -> char {
    (48 + d) as char
}

/// The decimal numeral of `n`, without leading zeros.
pub open spec fn decimal_text(n: nat) -> Seq<char>
    decreases n,
{
    if n < 10 {
        seq![digit_char(n)]
    } else {
        decimal_text(n / 10).push(digit_char(n % 10))
    }
}

/// The name of a truth value.
pub open spec fn bool_text(b: bool) -> Seq<char> {
    if b {
        "true"@
    } else {
        "false"@
    }
}

/// The text of a single decimal digit.
fn digit(d: usize) -> (s: &'static str)
    requires
        d < 10,
    ensures
        s@ == seq![digit_char(d as nat)],
{
    proof {
        reveal_strlit("0");
        reveal_strlit("1");
        reveal_strlit("2");
        reveal_strlit("3");
        reveal_strlit("4");
        reveal_strlit("5");
        reveal_strlit("6");
        reveal_strlit("7");
        reveal_strlit("8");
        reveal_strlit("9");
    }
    match d {
        0 => "0",
        1 => "1",
        2 => "2",
        3 => "3",
        4 => "4",
        5 => "5",
        6 => "6",
        7 => "7",
        8 => "8",
        _ => "9",
    }
}

/// Writes `n` in decimal.
pub(crate) fn decimal(n: usize) -> (s: String)
    ensures
        s@ == decimal_text(n as nat),
    decreases n,
{
    if n < 10 {
        String::from_str(digit(n))
    } else {
        let mut s = decimal(n / 10);
        s.append(digit(n % 10));
        s
    }
}

/// Writes `b` as `true` or `false`.
pub(crate) fn boolean(b: bool) -> (s: &'static str)
    ensures
        s@ == bool_text(b),
{
    if b {
        "true"
    } else {
        "false"
    }
}

/// Whether the character is none of those that part the fields of a text.
pub open spec fn is_plain(c: char) -> bool {
    c != ',' && c != '>'
}

/// A decimal numeral is made of digits, has no leading zero, and denotes its number: reading the
/// digits from left to right, ten times what was read plus the next digit, gives it back.
pub proof fn law_decimal_text_denotes_number(n: nat)
    ensures
        decimal_text(n).len() > 0,
        forall|i: int|
            0 <= i < decimal_text(n).len() ==> '0' as int <= #[trigger] decimal_text(n)[i] as int
                <= '9' as int,
        decimal_text(n)[0] == '0' ==> n == 0 && decimal_text(n).len() == 1,
        decimal_text(n).fold_left(
            0int,
            |read: int, digit: char| 10 * read + (digit as int - '0' as int),
        ) == n,
    decreases n,
{
    let read_on = |read: int, digit: char| 10 * read + (digit as int - '0' as int);
    reveal_with_fuel(Seq::fold_left, 2);
    if n < 10 {
        assert(decimal_text(n).drop_last() == Seq::<char>::empty());
    } else {
        law_decimal_text_denotes_number(n / 10);
        assert(decimal_text(n).drop_last() == decimal_text(n / 10));
        assert(decimal_text(n)[0] == decimal_text(n / 10)[0]);
    }
}

/// Different numbers have different numerals.
pub proof fn law_decimal_text_is_injective(n: nat, m: nat)
    requires
        decimal_text(n) == decimal_text(m),
    ensures
        n == m,
{
    law_decimal_text_denotes_number(n);
    law_decimal_text_denotes_number(m);
}

/// The two truth values are shown by their names.
pub proof fn law_bool_text_names_value(b: bool)
    ensures
        bool_text(b) == "true"@ <==> b,
        bool_text(b) == "false"@ <==> !b,
{
    reveal_strlit("true");
    reveal_strlit("false");
    assert("true"@.len() == 4 && "false"@.len() == 5);
}

/// Numerals and the names of truth values hold no character that parts fields.
pub(crate) proof fn lemma_fields_are_plain(n: nat, b: bool)
    ensures
        forall|i: int|
            0 <= i < decimal_text(n).len() ==> is_plain(#[trigger] decimal_text(n)[i]),
        forall|i: int| 0 <= i < bool_text(b).len() ==> is_plain(#[trigger] bool_text(b)[i]),
{
    law_decimal_text_denotes_number(n);
    reveal_strlit("true");
    reveal_strlit("false");
    assert forall|i: int| 0 <= i < decimal_text(n).len() implies is_plain(
        #[trigger] decimal_text(n)[i],
    ) by {
        assert('0' as int <= decimal_text(n)[i] as int <= '9' as int);
    }
}

/// Two texts that begin with a plain field and go on with a character that parts fields are equal
/// only if the fields and what follows them are equal.
pub(crate) proof fn lemma_field_ends_at_separator(
    field: Seq<char>,
    rest: Seq<char>,
    other_field: Seq<char>,
    other_rest: Seq<char>,
)
    requires
        forall|i: int| 0 <= i < field.len() ==> is_plain(#[trigger] field[i]),
        forall|i: int| 0 <= i < other_field.len() ==> is_plain(#[trigger] other_field[i]),
        rest.len() > 0,
        other_rest.len() > 0,
        !is_plain(rest[0]),
        !is_plain(other_rest[0]),
        field + rest == other_field + other_rest,
    ensures
        field == other_field,
        rest == other_rest,
{
    let text = field + rest;
    let other = other_field + other_rest;
    if field.len() < other_field.len() {
        assert(text[field.len() as int] == other[field.len() as int]);
        assert(is_plain(other_field[field.len() as int]));
    }
    if other_field.len() < field.len() {
        assert(text[other_field.len() as int] == other[other_field.len() as int]);
        assert(is_plain(field[other_field.len() as int]));
    }
    assert(text.take(field.len() as int) == field);
    assert(other.take(field.len() as int) == other_field);
    assert(text.skip(field.len() as int) == rest);
    assert(other.skip(field.len() as int) == other_rest);
}

/// Two texts that begin with the same label are equal only if what follows it is equal.
pub(crate) proof fn lemma_same_label(label: Seq<char>, rest: Seq<char>, other_rest: Seq<char>)
    requires
        label + rest == label + other_rest,
    ensures
        rest == other_rest,
{
    assert((label + rest).skip(label.len() as int) == rest);
    assert((label + other_rest).skip(label.len() as int) == other_rest);
}

/// Two texts that begin with a plain field and go on with the same label, which begins with a
/// character that parts fields, are equal only if the fields and what follows the label are equal.
pub(crate) proof fn lemma_field_ends_at_label(
    field: Seq<char>,
    other_field: Seq<char>,
    label: Seq<char>,
    rest: Seq<char>,
    other_rest: Seq<char>,
)
    requires
        forall|i: int| 0 <= i < field.len() ==> is_plain(#[trigger] field[i]),
        forall|i: int| 0 <= i < other_field.len() ==> is_plain(#[trigger] other_field[i]),
        label.len() > 0,
        !is_plain(label[0]),
        field + (label + rest) == other_field + (label + other_rest),
    ensures
        field == other_field,
        rest == other_rest,
{
    lemma_field_ends_at_separator(field, label + rest, other_field, label + other_rest);
    lemma_same_label(label, rest, other_rest);
}

} // verus!
