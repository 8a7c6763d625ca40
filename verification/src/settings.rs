//! What the process environment asks for.
//!
//! Each function takes the value of its variable, or `None` where the variable
//! is absent or is not valid Unicode.

use vstd::prelude::*;

verus! {

/// The value of `SMG_TOKENIZER_BACKEND` that selects the fast path.
pub const FAST_BACKEND: &'static str = "gigatoken";

/// Instances in the encoder pool unless `SMG_GIGATOKEN_SLOTS` says otherwise.
pub const DEFAULT_SLOTS: usize = 8;

/// Whether `setting` is present and holds exactly the text `value`.
pub open spec fn setting_is(setting: Option<&str>, value: Seq<char>) -> bool {
    match setting {
        Some(text) => text@ == value,
        None => false,
    }
}

/// Whether two strings hold the same characters.
fn same_text(a: &str, b: &str) -> (same: bool)
    ensures
        same == (a@ == b@),
{
    a.to_owned() == b.to_owned()
}

/// Whether the value of `SMG_TOKENIZER_BACKEND` selects the fast path.
pub fn fast_path_requested(setting: Option<&str>) -> (requested: bool)
    ensures
        requested == setting_is(setting, FAST_BACKEND@),
        requested <==> setting is Some && setting->Some_0@ == "gigatoken"@,
{
    match setting {
        Some(text) => same_text(text, FAST_BACKEND),
        None => false,
    }
}

/// Whether the value of `SMG_TOKENIZER_TIMING` turns latency accounting on.
pub fn timing_requested(setting: Option<&str>) -> (requested: bool)
    ensures
        requested == (setting_is(setting, "1"@) || setting_is(setting, "true"@)),
        requested <==> setting is Some && (setting->Some_0@ == "1"@ || setting->Some_0@
            == "true"@),
{
    match setting {
        Some(text) => same_text(text, "1") || same_text(text, "true"),
        None => false,
    }
}

/// Whether `c` is a decimal digit.
pub open spec fn is_digit(c: char) -> bool {
    '0' <= c <= '9'
}

/// The number that a run of decimal digits denotes.
pub open spec fn decimal_value(digits: Seq<char>) -> nat
    decreases digits.len(),
{
    if digits.len() == 0 {
        0
    } else {
        10 * decimal_value(digits.drop_last()) + (digits.last() as nat - '0' as nat) as nat
    }
}

/// `text` without one leading plus sign.
pub open spec fn unsigned_part(text: Seq<char>) -> Seq<char> {
    if text.len() > 0 && text[0] == '+' {
        text.skip(1)
    } else {
        text
    }
}

/// Whether `text` is an optional plus sign and then one or more digits.
pub open spec fn is_decimal(text: Seq<char>) -> bool {
    let digits = unsigned_part(text);
    digits.len() > 0 && forall|i: int| 0 <= i < digits.len() ==> is_digit(#[trigger] digits[i])
}

/// The `usize` that `text` denotes, if it denotes one.
pub open spec fn parsed_usize(text: Seq<char>) -> Option<usize> {
    if is_decimal(text) && decimal_value(unsigned_part(text)) <= usize::MAX {
        Some(decimal_value(unsigned_part(text)) as usize)
    } else {
        None
    }
}

/// Calls `str::parse::<usize>`.
///
/// Believed of it: it accepts an optional plus sign followed by one or more
/// decimal digits and nothing else, returns the number they denote, and fails
/// on any other text and on a number that does not fit in a `usize`.
#[verifier::external_body]
fn parse_usize(text: &str) -> (parsed: Option<usize>)
    ensures
        parsed == parsed_usize(text@),
{
    text.parse::<usize>().ok()
}

/// The pool size that a value of `SMG_GIGATOKEN_SLOTS` asks for: the number it
/// holds, raised to one; the default where there is no such number.
pub open spec fn requested_slots(setting: Option<&str>) -> usize {
    match setting {
        Some(text) => match parsed_usize(text@) {
            Some(slots) => if slots == 0 { 1 } else { slots },
            None => DEFAULT_SLOTS,
        },
        None => DEFAULT_SLOTS,
    }
}

/// The pool size for a value of `SMG_GIGATOKEN_SLOTS`.
pub fn slot_count(setting: Option<&str>) -> (slots: usize)
    ensures
        slots == requested_slots(setting),
        slots >= 1,
        setting is None ==> slots == 8,
        setting matches Some(text) ==> match parsed_usize(text@) {
            Some(number) => (number >= 1 ==> slots == number) && (number == 0 ==> slots == 1),
            None => slots == 8,
        },
{
    let parsed: Option<usize> = match setting {
        Some(text) => parse_usize(text),
        None => None,
    };
    let slots: usize = match parsed {
        Some(slots) => slots,
        None => DEFAULT_SLOTS,
    };
    if slots < 1 { 1 } else { slots }
}

/// A setting holds one text at most, and that text exactly: nothing else counts
/// as it, and an absent setting holds none.
pub proof fn setting_holds_one_text(setting: Option<&str>, value: Seq<char>, other: Seq<char>)
    ensures
        setting_is(setting, value) <==> setting is Some && setting->Some_0@ == value,
        setting_is(setting, value) && setting_is(setting, other) ==> value == other,
{
}

/// The pool has as many slots as the number says, however large it is; at least
/// one; and eight where there is no number.
pub proof fn pool_size_is_the_number_in_the_setting(setting: Option<&str>)
    ensures
        setting is None ==> requested_slots(setting) == 8,
        setting matches Some(text) ==> match parsed_usize(text@) {
            Some(number) => {
                &&& number >= 1 ==> requested_slots(setting) == number
                &&& number == 0 ==> requested_slots(setting) == 1
            },
            None => requested_slots(setting) == 8,
        },
{
}

/// Decimal notation: a digit denotes its distance from zero, a plus sign in
/// front of a first digit changes nothing, and one more digit makes the number
/// ten times as large and adds the digit, as long as the result fits.
pub proof fn numbers_are_written_in_decimal(text: Seq<char>, digit: char)
    requires
        '0' <= digit <= '9',
    ensures
        parsed_usize(seq![digit]) == Some((digit as int - '0' as int) as usize),
        parsed_usize(seq!['+', digit]) == Some((digit as int - '0' as int) as usize),
        parsed_usize(text) matches Some(number) ==> parsed_usize(text.push(digit)) == (if 10
            * number + (digit as int - '0' as int) <= usize::MAX {
            Some((10 * number + (digit as int - '0' as int)) as usize)
        } else {
            None
        }),
        parsed_usize(text) is None && text.len() > 0 && text != seq!['+'] ==> parsed_usize(
            text.push(digit),
        ) is None,
{
    let one = seq![digit];
    assert(unsigned_part(one) =~= one);
    assert(one.drop_last() =~= Seq::<char>::empty());
    assert(decimal_value(one.drop_last()) == 0);
    assert(decimal_value(one) == digit as int - '0' as int);
    assert(is_digit(one[0]));
    let signed = seq!['+', digit];
    assert(unsigned_part(signed) =~= one);
    let digits = unsigned_part(text);
    let longer = text.push(digit);
    if text.len() > 0 {
        assert(unsigned_part(longer) =~= digits.push(digit));
        assert(digits.push(digit).drop_last() =~= digits);
    }
    if parsed_usize(text) is None && text.len() > 0 && text != seq!['+'] {
        if digits.len() == 0 {
            assert(text =~= seq!['+']);
        }
        if is_decimal(longer) {
            assert forall|i: int| 0 <= i < digits.len() implies is_digit(#[trigger] digits[i]) by {
                assert(is_digit(digits.push(digit)[i]));
            }
        }
    }
    if parsed_usize(text) is Some {
        assert forall|i: int| 0 <= i < digits.len() + 1 implies is_digit(
            #[trigger] digits.push(digit)[i],
        ) by {
            if i < digits.len() {
                assert(is_digit(digits[i]));
            }
        }
    }
}

/// Nothing but decimal notation denotes a number: the empty text does not, and
/// every character is a digit, but for a plus sign in front of a first digit.
pub proof fn only_decimal_texts_are_numbers(text: Seq<char>)
    ensures
        parsed_usize(text) is Some ==> {
            &&& text.len() > 0
            &&& forall|i: int|
                0 <= i < text.len() ==> '0' <= #[trigger] text[i] <= '9' || (i == 0 && text[0]
                    == '+' && text.len() > 1)
        },
{
    if parsed_usize(text) is Some {
        let digits = unsigned_part(text);
        assert forall|i: int| 0 <= i < text.len() implies '0' <= #[trigger] text[i] <= '9' || (i
            == 0 && text[0] == '+' && text.len() > 1) by {
            if text[0] == '+' {
                if i > 0 {
                    assert(is_digit(digits[i - 1]));
                }
            } else {
                assert(is_digit(digits[i]));
            }
        }
    }
}

} // verus!
