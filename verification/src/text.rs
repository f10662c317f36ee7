//! Small helpers on text.

use vstd::prelude::*;

verus! {

/// Whether two texts are made of the same characters.
pub fn str_eq(a: &str, b: &str) -> (same: bool)
    ensures
        same == (a@ == b@),
{
    a.to_owned() == b.to_owned()
}

/// The digit that `c` stands for, if it stands for one.
pub open spec fn digit_of(c: char) -> Option<int> {
    if c == '0' {
        Some(0)
    } else if c == '1' {
        Some(1)
    } else if c == '2' {
        Some(2)
    } else if c == '3' {
        Some(3)
    } else if c == '4' {
        Some(4)
    } else if c == '5' {
        Some(5)
    } else if c == '6' {
        Some(6)
    } else if c == '7' {
        Some(7)
    } else if c == '8' {
        Some(8)
    } else if c == '9' {
        Some(9)
    } else {
        None
    }
}

/// The number that `digits` spell in decimal; none where they are not digits
/// and nothing else, or where there are none.
pub open spec fn number_of(digits: Seq<char>) -> Option<int>
    decreases digits.len(),
{
    if digits.len() == 0 {
        None
    } else {
        match digit_of(digits.last()) {
            None => None,
            Some(d) => if digits.len() == 1 {
                Some(d)
            } else {
                match number_of(digits.drop_last()) {
                    Some(n) => Some(10 * n + d),
                    None => None,
                }
            },
        }
    }
}

/// Whether `text` begins with a sign.
pub open spec fn has_sign(text: Seq<char>) -> bool {
    text.len() > 0 && (text[0] == '-' || text[0] == '+')
}

/// The whole number that `text` spells: decimal digits, with `+` or `-` before
/// them or without, and nothing else, for a number that an `i64` holds.
pub open spec fn parsed_integer(text: Seq<char>) -> Option<i64> {
    let digits = if has_sign(text) {
        text.skip(1)
    } else {
        text
    };
    match number_of(digits) {
        Some(n) => {
            let value = if has_sign(text) && text[0] == '-' {
                -n
            } else {
                n
            };
            if i64::MIN <= value <= i64::MAX {
                Some(value as i64)
            } else {
                None
            }
        },
        None => None,
    }
}

/// Digits with something among them that is no digit spell no number.
pub proof fn lemma_no_number(digits: Seq<char>, i: int)
    requires
        0 <= i < digits.len(),
        digit_of(digits[i]) is None,
    ensures
        number_of(digits) is None,
    decreases digits.len(),
{
    if i < digits.len() - 1 {
        lemma_no_number(digits.drop_last(), i);
    }
}

/// The digit that `c` stands for, if it stands for one.
fn digit(c: char) -> (d: Option<u8>)
    ensures
        match d {
            Some(d) => digit_of(c) == Some(d as int),
            None => digit_of(c) is None,
        },
{
    if c == '0' {
        Some(0)
    } else if c == '1' {
        Some(1)
    } else if c == '2' {
        Some(2)
    } else if c == '3' {
        Some(3)
    } else if c == '4' {
        Some(4)
    } else if c == '5' {
        Some(5)
    } else if c == '6' {
        Some(6)
    } else if c == '7' {
        Some(7)
    } else if c == '8' {
        Some(8)
    } else if c == '9' {
        Some(9)
    } else {
        None
    }
}

/// The whole number that `text` spells, if it spells one.
pub fn parse_integer(text: &str) -> (number: Option<i64>)
    ensures
        number == parsed_integer(text@),
{
    let ghost digits = if has_sign(text@) {
        text@.skip(1)
    } else {
        text@
    };
    let ghost lead: int = if has_sign(text@) {
        1
    } else {
        0
    };
    let mut negative = false;
    let mut first = true;
    let mut any = false;
    let mut over = false;
    let mut magnitude: i128 = 0;
    for c in it: text.chars()
        invariant
            it.seq() == text@,
            digits == if has_sign(text@) {
                text@.skip(1)
            } else {
                text@
            },
            lead == if has_sign(text@) {
                1int
            } else {
                0int
            },
            first == (it.index() == 0),
            first ==> !negative,
            !first ==> negative == (has_sign(text@) && text@[0] == '-'),
            any == (it.index() > lead),
            0 <= magnitude <= 0x8000_0000_0000_0000,
            any ==> number_of(digits.take(it.index() - lead)) is Some,
            any && !over ==> number_of(digits.take(it.index() - lead)) == Some(magnitude as int),
            any && over ==> number_of(digits.take(it.index() - lead))->0 > 0x8000_0000_0000_0000,
            !any ==> magnitude == 0 && !over,
    {
        let ghost k = it.index() - lead;
        if first && (c == '-' || c == '+') {
            negative = c == '-';
        } else {
            proof {
                let upto = digits.take(k + 1);
                assert(upto.drop_last() =~= digits.take(k));
            }
            match digit(c) {
                Some(d) => {
                    if !over {
                        magnitude = 10 * magnitude + d as i128;
                        if magnitude > 0x8000_0000_0000_0000 {
                            over = true;
                            magnitude = 0;
                        }
                    }
                    any = true;
                },
                None => {
                    proof {
                        lemma_no_number(digits, k);
                    }
                    return None;
                },
            }
        }
        first = false;
    }
    proof {
        if any {
            assert(digits.take(digits.len() as int) =~= digits);
        }
    }
    if !any || over {
        return None;
    }
    let value: i128 = if negative {
        -magnitude
    } else {
        magnitude
    };
    if value < i64::MIN as i128 || value > i64::MAX as i128 {
        None
    } else {
        Some(value as i64)
    }
}

/// Where the first `-` of `text` stands; the length of `text` where it has
/// none.
pub open spec fn dash_index(text: Seq<char>) -> int
    decreases text.len(),
{
    if text.len() == 0 || text[0] == '-' {
        0
    } else {
        1 + dash_index(text.drop_first())
    }
}

/// What stands before the first `-` of `text`; all of it where it has none.
pub open spec fn before_dash(text: Seq<char>) -> Seq<char> {
    text.take(dash_index(text))
}

/// What stands after the first `-` of `text`, if it has one.
pub open spec fn after_dash(text: Seq<char>) -> Option<Seq<char>> {
    if dash_index(text) < text.len() {
        Some(text.skip(dash_index(text) + 1))
    } else {
        None
    }
}

/// The first `-` of a text stands within it or at its end, and nothing before
/// it is a `-`.
pub proof fn lemma_dash_index(text: Seq<char>)
    ensures
        0 <= dash_index(text) <= text.len(),
        dash_index(text) < text.len() ==> text[dash_index(text)] == '-',
        forall|i: int| 0 <= i < dash_index(text) ==> text[i] != '-',
    decreases text.len(),
{
    if text.len() == 0 || text[0] == '-' {
    } else {
        let rest = text.drop_first();
        lemma_dash_index(rest);
        assert forall|i: int| 0 <= i < dash_index(text) implies text[i] != '-' by {
            if i > 0 {
                assert(rest[i - 1] == text[i]);
            }
        }
    }
}

/// Splits `text` at its first `-`: what stands before it, and what stands
/// after it if there is one.
pub fn split_at_dash(text: &str) -> (parts: (&str, Option<&str>))
    ensures
        parts.0@ == before_dash(text@),
        match parts.1 {
            Some(rest) => after_dash(text@) == Some(rest@),
            None => after_dash(text@) is None,
        },
{
    let len = text.unicode_len();
    let mut i: usize = 0;
    assert(text@.skip(0) =~= text@);
    while i < len
        invariant
            len == text@.len(),
            i <= len,
            dash_index(text@) == i + dash_index(text@.skip(i as int)),
        decreases len - i,
    {
        proof {
            let here = text@.skip(i as int);
            assert(here.drop_first() =~= text@.skip(i + 1));
        }
        if text.get_char(i) == '-' {
            return (text.substring_char(0, i), Some(text.substring_char(i + 1, len)));
        }
        i = i + 1;
    }
    (text, None)
}

/// The character that stands for the digit `d`.
pub open spec fn digit_char(d: int) -> char {
    if d == 0 {
        '0'
    } else if d == 1 {
        '1'
    } else if d == 2 {
        '2'
    } else if d == 3 {
        '3'
    } else if d == 4 {
        '4'
    } else if d == 5 {
        '5'
    } else if d == 6 {
        '6'
    } else if d == 7 {
        '7'
    } else if d == 8 {
        '8'
    } else {
        '9'
    }
}

/// The decimal digits of `n`, without leading zeros.
pub open spec fn decimal_digits(n: nat) -> Seq<char>
    decreases n,
{
    if n < 10 {
        seq![digit_char(n as int)]
    } else {
        decimal_digits(n / 10).push(digit_char((n % 10) as int))
    }
}

/// The text of one digit.
fn digit_text(d: u64) -> (text: &'static str)
    requires
        d < 10,
    ensures
        text@ == seq![digit_char(d as int)],
{
    proof {
        reveal_strlit("0");
        reveal_strlit("1");
        reveal_strlit("2");
        reveal_strlit("3");
        reveal_strlit("4");
        reveal_strlit("5");
        reveal_strlit("6");
        reveal_strlit("7");
        reveal_strlit("8");
        reveal_strlit("9");
    }
    let text = if d == 0 {
        "0"
    } else if d == 1 {
        "1"
    } else if d == 2 {
        "2"
    } else if d == 3 {
        "3"
    } else if d == 4 {
        "4"
    } else if d == 5 {
        "5"
    } else if d == 6 {
        "6"
    } else if d == 7 {
        "7"
    } else if d == 8 {
        "8"
    } else {
        "9"
    };
    text
}

/// `n` written in decimal.
pub fn decimal(n: u64) -> (text: String)
    ensures
        text@ == decimal_digits(n as nat),
    decreases n,
{
    if n < 10 {
        digit_text(n).to_owned()
    } else {
        let mut text = decimal(n / 10);
        text.append(digit_text(n % 10));
        text
    }
}

} // verus!
