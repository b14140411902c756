//! Small verified helpers on text.

use vstd::prelude::*;
use vstd::string::StringSliceAdditionalSpecFns;
use vstd::std_specs::iter::IteratorSpec;

verus! {

/// The characters of `text`, in order.
pub fn chars_of(text: &str) -> (chars: Vec<char>)
    ensures
        chars@ == text@,
{
    broadcast use vstd::string::group_string_axioms;

    let mut rest = text.chars();
    let mut chars: Vec<char> = Vec::new();
    loop
        invariant
            rest.obeys_prophetic_iter_laws(),
            rest.decrease() is Some,
            chars@ + rest.remaining() == text@,
        decreases rest.decrease()->0,
    {
        match rest.next() {
            Some(c) => {
                chars.push(c);
            },
            None => {
                return chars;
            },
        }
    }
}

/// Whether `left` and `right` hold the same characters.
pub fn same_text(left: &str, right: &str) -> (same: bool)
    ensures
        same == (left@ == right@),
{
    let left_bytes = left.as_bytes();
    let right_bytes = right.as_bytes();
    if left_bytes.len() != right_bytes.len() {
        return false;
    }
    let mut at: usize = 0;
    while at < left_bytes.len()
        invariant
            at <= left_bytes.len(),
            left_bytes.len() == right_bytes.len(),
            left_bytes@ == left.spec_bytes(),
            right_bytes@ == right.spec_bytes(),
            forall|k: int| 0 <= k < at ==> left_bytes@[k] == right_bytes@[k],
        decreases left_bytes.len() - at,
    {
        if left_bytes[at] != right_bytes[at] {
            return false;
        }
        at = at + 1;
    }
    proof {
        assert(left_bytes@ =~= right_bytes@);
        vstd::utf8::encode_utf8_decode_utf8(left@);
        vstd::utf8::encode_utf8_decode_utf8(right@);
    }
    true
}

/// `std::string::String::push` appends one character to the string and
/// leaves the characters before it as they were.
pub assume_specification[ String::push ](text: &mut String, ch: char)
    ensures
        final(text)@ == old(text)@.push(ch),
;

/// Whether `fragment` stands in `text` at position `at`.
pub open spec fn occurs_at(text: Seq<char>, fragment: Seq<char>, at: int) -> bool {
    &&& 0 <= at
    &&& at + fragment.len() <= text.len()
    &&& forall|k: int| 0 <= k < fragment.len() ==> text[at + k] == #[trigger] fragment[k]
}

/// Whether `fragment` stands in `text` at some position not before `from`.
pub open spec fn occurs_from(text: Seq<char>, fragment: Seq<char>, from: int) -> bool {
    exists|at: int| from <= at && #[trigger] occurs_at(text, fragment, at)
}

/// Whether `text` ends with `suffix`.
pub open spec fn ends_with(text: Seq<char>, suffix: Seq<char>) -> bool {
    suffix.len() <= text.len() && occurs_at(text, suffix, text.len() - suffix.len())
}

/// The number of times `symbol` occurs in `text`.
pub open spec fn count_of(text: Seq<char>, symbol: char) -> nat
    decreases text.len(),
{
    if text.len() == 0 {
        0
    } else {
        count_of(text.drop_last(), symbol) + if text.last() == symbol {
            1nat
        } else {
            0nat
        }
    }
}

/// The position just after the last `symbol` in `text`; 0 if there is none.
pub open spec fn after_last(text: Seq<char>, symbol: char) -> int
    decreases text.len(),
{
    if text.len() == 0 {
        0
    } else if text.last() == symbol {
        text.len() as int
    } else {
        after_last(text.drop_last(), symbol)
    }
}

/// Whether `fragment` stands in `text` at position `at`.
pub fn check_occurs_at(text: &Vec<char>, fragment: &Vec<char>, at: usize) -> (found: bool)
    ensures
        found == occurs_at(text@, fragment@, at as int),
{
    if at > text.len() || fragment.len() > text.len() - at {
        return false;
    }
    let mut k: usize = 0;
    while k < fragment.len()
        invariant
            k <= fragment.len(),
            at + fragment.len() <= text.len(),
            forall|j: int| 0 <= j < k ==> text@[at + j] == #[trigger] fragment@[j],
        decreases fragment.len() - k,
    {
        if text[at + k] != fragment[k] {
            return false;
        }
        k = k + 1;
    }
    true
}

/// Whether `fragment` stands in `text` at some position not before `from`.
pub fn check_occurs_from(text: &Vec<char>, fragment: &Vec<char>, from: usize) -> (found: bool)
    ensures
        found == occurs_from(text@, fragment@, from as int),
{
    if from > text.len() || fragment.len() > text.len() - from {
        return false;
    }
    let last: usize = text.len() - fragment.len();
    let mut at: usize = from;
    while at <= last
        invariant
            from <= at <= last + 1,
            last == text.len() - fragment.len(),
            forall|j: int| from <= j < at ==> !occurs_at(text@, fragment@, j),
        decreases last + 1 - at,
    {
        if check_occurs_at(text, fragment, at) {
            return true;
        }
        at = at + 1;
    }
    false
}

/// Whether `text` ends with `suffix`.
pub fn check_ends_with(text: &Vec<char>, suffix: &Vec<char>) -> (found: bool)
    ensures
        found == ends_with(text@, suffix@),
{
    if suffix.len() > text.len() {
        return false;
    }
    check_occurs_at(text, suffix, text.len() - suffix.len())
}

/// The number of times `symbol` occurs in `text`.
pub fn count_symbol(text: &Vec<char>, symbol: char) -> (count: usize)
    ensures
        count == count_of(text@, symbol),
{
    let mut count: usize = 0;
    let mut at: usize = 0;
    while at < text.len()
        invariant
            at <= text.len(),
            count <= at,
            count == count_of(text@.take(at as int), symbol),
        decreases text.len() - at,
    {
        assert(text@.take(at + 1).drop_last() =~= text@.take(at as int));
        if text[at] == symbol {
            count = count + 1;
        }
        at = at + 1;
    }
    assert(text@.take(at as int) =~= text@);
    count
}

/// The position just after the last `symbol` in `text`; 0 if there is none.
pub fn position_after_last(text: &Vec<char>, symbol: char) -> (position: usize)
    ensures
        position == after_last(text@, symbol),
        position <= text.len(),
{
    let mut position: usize = text.len();
    assert(text@.take(position as int) =~= text@);
    while position > 0 && text[position - 1] != symbol
        invariant
            position <= text.len(),
            after_last(text@, symbol) == after_last(text@.take(position as int), symbol),
        decreases position,
    {
        assert(text@.take(position as int).drop_last() =~= text@.take(position - 1));
        position = position - 1;
    }
    position
}

/// Whether `c` is a decimal digit.
pub open spec fn is_digit(c: char) -> bool {
    '0' as u32 <= c as u32 <= '9' as u32
}

/// The number that the digit `c` stands for.
pub open spec fn digit_value(c: char) -> nat {
    (c as u32 - '0' as u32) as nat
}

/// Whether `text` holds decimal digits only.
pub open spec fn all_digits(text: Seq<char>) -> bool {
    forall|k: int| 0 <= k < text.len() ==> is_digit(#[trigger] text[k])
}

/// The number that the digits of `text` write in base ten.
pub open spec fn decimal_value(text: Seq<char>) -> nat
    decreases text.len(),
{
    if text.len() == 0 {
        0
    } else {
        decimal_value(text.drop_last()) * 10 + digit_value(text.last())
    }
}

/// The number that `text` writes, if `text` is one digit or more and the
/// number is no larger than `max`.
pub open spec fn spec_number(text: Seq<char>, max: nat) -> Option<nat> {
    if text.len() > 0 && all_digits(text) && decimal_value(text) <= max {
        Some(decimal_value(text))
    } else {
        None
    }
}

/// The digits read so far never write more than all the digits do.
pub proof fn lemma_decimal_value_grows(text: Seq<char>, taken: int)
    requires
        0 <= taken <= text.len(),
    ensures
        decimal_value(text.take(taken)) <= decimal_value(text),
    decreases text.len() - taken,
{
    if taken == text.len() {
        assert(text.take(taken) =~= text);
    } else {
        lemma_decimal_value_grows(text, taken + 1);
        assert(text.take(taken + 1).drop_last() =~= text.take(taken));
    }
}

/// Reads `text` as a decimal number: one digit or more, nothing else, and a
/// value that fits.
pub fn parse_decimal(text: &[char]) -> (number: Option<u64>)
    ensures
        match number {
            Some(value) => spec_number(text@, u64::MAX as nat) == Some(value as nat),
            None => spec_number(text@, u64::MAX as nat) is None,
        },
{
    if text.len() == 0 {
        return None;
    }
    let mut value: u64 = 0;
    let mut at: usize = 0;
    while at < text.len()
        invariant
            at <= text.len(),
            all_digits(text@.take(at as int)),
            value == decimal_value(text@.take(at as int)),
        decreases text.len() - at,
    {
        let c = text[at];
        let code = c as u32;
        if code < '0' as u32 || code > '9' as u32 {
            assert(!is_digit(text@[at as int]));
            return None;
        }
        let digit = (code - '0' as u32) as u64;
        proof {
            assert(text@.take(at + 1).drop_last() =~= text@.take(at as int));
            assert(text@.take(at + 1).last() == c);
            lemma_decimal_value_grows(text@, at + 1);
        }
        let tens = match value.checked_mul(10) {
            Some(tens) => tens,
            None => {
                return None;
            },
        };
        value = match tens.checked_add(digit) {
            Some(sum) => sum,
            None => {
                return None;
            },
        };
        at = at + 1;
    }
    assert(text@.take(at as int) =~= text@);
    Some(value)
}

/// Whether the characters of `text` are those of `word`.
pub fn spells(text: &[char], word: &str) -> (same: bool)
    ensures
        same == (text@ == word@),
{
    let wanted = chars_of(word);
    if wanted.len() != text.len() {
        return false;
    }
    let mut at: usize = 0;
    while at < text.len()
        invariant
            at <= text.len(),
            wanted.len() == text.len(),
            wanted@ == word@,
            forall|k: int| 0 <= k < at ==> text@[k] == wanted@[k],
        decreases text.len() - at,
    {
        if text[at] != wanted[at] {
            return false;
        }
        at = at + 1;
    }
    assert(text@ =~= wanted@);
    true
}

/// The characters of `chars`, as a string.
pub fn string_from(chars: &[char]) -> (text: String)
    ensures
        text@ == chars@,
{
    let mut text = String::new();
    let mut at: usize = 0;
    while at < chars.len()
        invariant
            at <= chars.len(),
            text@ == chars@.take(at as int),
        decreases chars.len() - at,
    {
        text.push(chars[at]);
        at = at + 1;
        assert(text@ =~= chars@.take(at as int));
    }
    assert(chars@.take(at as int) =~= chars@);
    text
}

/// The character that writes the digit `digit`.
pub open spec fn digit_char(digit: nat) -> char {
    if digit == 0 {
        '0'
    } else if digit == 1 {
        '1'
    } else if digit == 2 {
        '2'
    } else if digit == 3 {
        '3'
    } else if digit == 4 {
        '4'
    } else if digit == 5 {
        '5'
    } else if digit == 6 {
        '6'
    } else if digit == 7 {
        '7'
    } else if digit == 8 {
        '8'
    } else {
        '9'
    }
}

/// `number` written in base ten, without leading zeros.
pub open spec fn decimal_text(number: nat) -> Seq<char>
    decreases number,
{
    if number < 10 {
        seq![digit_char(number)]
    } else {
        decimal_text(number / 10).push(digit_char(number % 10))
    }
}

fn digit_to_char(digit: u64) -> (c: char)
    requires
        digit < 10,
    ensures
        c == digit_char(digit as nat),
{
    if digit == 0 {
        '0'
    } else if digit == 1 {
        '1'
    } else if digit == 2 {
        '2'
    } else if digit == 3 {
        '3'
    } else if digit == 4 {
        '4'
    } else if digit == 5 {
        '5'
    } else if digit == 6 {
        '6'
    } else if digit == 7 {
        '7'
    } else if digit == 8 {
        '8'
    } else {
        '9'
    }
}

/// Writes `number` in base ten, without leading zeros.
pub fn render_decimal(number: u64) -> (text: String)
    ensures
        text@ == decimal_text(number as nat),
    decreases number,
{
    if number < 10 {
        let mut text = String::new();
        text.push(digit_to_char(number));
        assert(text@ =~= seq![digit_char(number as nat)]);
        text
    } else {
        let mut text = render_decimal(number / 10);
        text.push(digit_to_char(number % 10));
        text
    }
}

} // verus!
