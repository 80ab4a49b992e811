//! Decimal rendering of integers, as kernel names and error labels use it.

use vstd::prelude::*;
use vstd::string::*;

verus! {

/// The character of one decimal digit.
pub open spec fn digit(d: int) -> char {
    if d == 0 {
        '0'
    } else if d == 1 {
        '1'
    } else if d == 2 {
        '2'
    } else if d == 3 {
        '3'
    } else if d == 4 {
        '4'
    } else if d == 5 {
        '5'
    } else if d == 6 {
        '6'
    } else if d == 7 {
        '7'
    } else if d == 8 {
        '8'
    } else {
        '9'
    }
}

/// The decimal digits of a natural number, most significant first, without
/// leading zeros.
pub open spec fn digits(n: nat) -> Seq<char>
    decreases n,
{
    if n < 10 {
        seq![digit(n as int)]
    } else {
        digits(n / 10).push(digit((n % 10) as int))
    }
}

/// The decimal text of an integer: a minus sign for a negative one, then the
/// digits of its magnitude.
pub open spec fn decimal(n: int) -> Seq<char> {
    if n < 0 {
        seq!['-'] + digits((-n) as nat)
    } else {
        digits(n as nat)
    }
}

/// Whether a character is one that decimal text is made of.
pub open spec fn is_decimal_char(c: char) -> bool {
    c == '-' || c == '0' || c == '1' || c == '2' || c == '3' || c == '4' || c == '5' || c == '6'
        || c == '7' || c == '8' || c == '9'
}

/// Digits are never empty and hold decimal digits only.
pub proof fn lemma_digits_shape(n: nat)
    ensures
        digits(n).len() >= 1,
        forall|i: int| 0 <= i < digits(n).len() ==> is_decimal_char(#[trigger] digits(n)[i]),
        forall|i: int| 0 <= i < digits(n).len() ==> #[trigger] digits(n)[i] != '-',
    decreases n,
{
    if n >= 10 {
        lemma_digits_shape(n / 10);
    }
}

/// Decimal text is never empty and holds a sign and digits only; in
/// particular it holds no NUL character.
pub proof fn lemma_decimal_shape(n: int)
    ensures
        decimal(n).len() >= 1,
        forall|i: int| 0 <= i < decimal(n).len() ==> is_decimal_char(#[trigger] decimal(n)[i]),
        forall|i: int| 0 <= i < decimal(n).len() ==> #[trigger] decimal(n)[i] != '\0',
{
    if n < 0 {
        lemma_digits_shape((-n) as nat);
    } else {
        lemma_digits_shape(n as nat);
    }
}

/// Different natural numbers have different digits.
pub proof fn lemma_digits_differ(a: nat, b: nat)
    requires
        a != b,
    ensures
        digits(a) != digits(b),
    decreases a,
{
    if a < 10 && b < 10 {
        assert(digits(a)[0] != digits(b)[0]);
    } else if a < 10 {
        lemma_digits_shape(b / 10);
        assert(digits(b).len() >= 2);
    } else if b < 10 {
        lemma_digits_shape(a / 10);
        assert(digits(a).len() >= 2);
    } else {
        if a / 10 != b / 10 {
            lemma_digits_differ(a / 10, b / 10);
            if digits(a) == digits(b) {
                assert(digits(a).drop_last() =~= digits(a / 10));
                assert(digits(b).drop_last() =~= digits(b / 10));
            }
        } else {
            assert(a % 10 != b % 10);
            assert(digits(a).last() != digits(b).last());
        }
    }
}

/// Different integers have different decimal texts.
pub proof fn lemma_decimal_differs(a: int, b: int)
    requires
        a != b,
    ensures
        decimal(a) != decimal(b),
{
    if a < 0 && b < 0 {
        lemma_digits_differ((-a) as nat, (-b) as nat);
        if decimal(a) == decimal(b) {
            assert(decimal(a).drop_first() =~= digits((-a) as nat));
            assert(decimal(b).drop_first() =~= digits((-b) as nat));
        }
    } else if a < 0 {
        lemma_digits_shape(b as nat);
        assert(decimal(a)[0] == '-');
        assert(decimal(b)[0] != '-');
    } else if b < 0 {
        lemma_digits_shape(a as nat);
        assert(decimal(b)[0] == '-');
        assert(decimal(a)[0] != '-');
    } else {
        lemma_digits_differ(a as nat, b as nat);
    }
}

/// The one-character text of a decimal digit.
fn digit_text(d: u32) -> (r: &'static str)
    requires
        d < 10,
    ensures
        r@ == seq![digit(d as int)],
{
    proof {
        reveal_strlit("0");
        reveal_strlit("1");
        reveal_strlit("2");
        reveal_strlit("3");
        reveal_strlit("4");
        reveal_strlit("5");
        reveal_strlit("6");
        reveal_strlit("7");
        reveal_strlit("8");
        reveal_strlit("9");
    }
    let r = if d == 0 {
        "0"
    } else if d == 1 {
        "1"
    } else if d == 2 {
        "2"
    } else if d == 3 {
        "3"
    } else if d == 4 {
        "4"
    } else if d == 5 {
        "5"
    } else if d == 6 {
        "6"
    } else if d == 7 {
        "7"
    } else if d == 8 {
        "8"
    } else {
        "9"
    };
    assert(r@ =~= seq![digit(d as int)]);
    r
}

/// Appends the digits of `n` to `text`.
fn append_digits(text: &mut String, n: u32)
    ensures
        final(text)@ == old(text)@ + digits(n as nat),
    decreases n,
{
    if n >= 10 {
        append_digits(text, n / 10);
    }
    text.append(digit_text(n % 10));
    assert(text@ =~= old(text)@ + digits(n as nat));
}

/// Appends the decimal text of `n` to `text`.
pub fn append_decimal(text: &mut String, n: i32)
    ensures
        final(text)@ == old(text)@ + decimal(n as int),
{
    if n < 0 {
        proof {
            reveal_strlit("-");
        }
        text.append("-");
        let magnitude: u32 = if n == i32::MIN {
            2147483648u32
        } else {
            (-n) as u32
        };
        append_digits(text, magnitude);
        assert(text@ =~= old(text)@ + decimal(n as int));
    } else {
        append_digits(text, n as u32);
    }
}

/// The text `label` followed by the decimal text of `n`.
pub fn labelled(label: &str, n: i32) -> (r: String)
    ensures
        r@ == label@ + decimal(n as int),
{
    let mut text = String::from_str(label);
    append_decimal(&mut text, n);
    text
}

} // verus!
