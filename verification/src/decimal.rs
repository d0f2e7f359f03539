use vstd::prelude::*;

verus! {

/// The character that writes the digit `d`.
pub open spec fn digit_char(d: nat) -> char {
    if d == 0 {
        '0'
    } else if d == 1 {
        '1'
    } else if d == 2 {
        '2'
    } else if d == 3 {
        '3'
    } else if d == 4 {
        '4'
    } else if d == 5 {
        '5'
    } else if d == 6 {
        '6'
    } else if d == 7 {
        '7'
    } else if d == 8 {
        '8'
    } else {
        '9'
    }
}

/// The decimal digits of `n`, most significant first, without leading zeros;
/// `0` is written as the single digit `0`.
pub open spec fn decimal_digits(n: nat) -> Seq<char>
    decreases n,
{
    if n < 10 {
        seq![digit_char(n)]
    } else {
        decimal_digits(n / 10).push(digit_char(n % 10))
    }
}

/// The decimal representation of `n`: its digits, after a minus sign if `n`
/// is negative.
pub open spec fn decimal(n: int) -> Seq<char> {
    if n < 0 {
        seq!['-'] + decimal_digits((-n) as nat)
    } else {
        decimal_digits(n as nat)
    }
}

/// The number that a sequence of digits writes in base ten.
pub open spec fn digits_value(digits: Seq<char>) -> nat
    decreases digits.len(),
{
    if digits.len() == 0 {
        0
    } else {
        10 * digits_value(digits.drop_last()) + digit_value(digits.last())
    }
}

/// The digit that the character `c` writes; `0` for any other character.
pub open spec fn digit_value(c: char) -> nat {
    if c == '1' {
        1
    } else if c == '2' {
        2
    } else if c == '3' {
        3
    } else if c == '4' {
        4
    } else if c == '5' {
        5
    } else if c == '6' {
        6
    } else if c == '7' {
        7
    } else if c == '8' {
        8
    } else if c == '9' {
        9
    } else {
        0
    }
}

/// `c` is one of the ten digit characters.
pub open spec fn is_digit_char(c: char) -> bool {
    c == '0' || c == '1' || c == '2' || c == '3' || c == '4' || c == '5' || c == '6' || c == '7'
        || c == '8' || c == '9'
}

/// The decimal digits of `n` are digit characters only, they start with `0`
/// only for `n == 0`, and reading them gives `n` back.
pub proof fn lemma_decimal_digits_value(n: nat)
    ensures
        decimal_digits(n).len() >= 1,
        forall|i: int| 0 <= i < decimal_digits(n).len() ==> is_digit_char(#[trigger] decimal_digits(n)[i]),
        decimal_digits(n)[0] == '0' <==> n == 0,
        digits_value(decimal_digits(n)) == n,
    decreases n,
{
    let digits = decimal_digits(n);
    if n < 10 {
        assert(digits.drop_last().len() == 0);
        assert(digits_value(digits.drop_last()) == 0);
        assert(digits.last() == digit_char(n));
    } else {
        lemma_decimal_digits_value(n / 10);
        assert(digits.drop_last() =~= decimal_digits(n / 10));
        assert(digits.last() == digit_char(n % 10));
        assert(digits[0] == decimal_digits(n / 10)[0]);
        assert forall|i: int| 0 <= i < digits.len() implies is_digit_char(#[trigger] digits[i]) by {
            if i < digits.len() - 1 {
                assert(digits[i] == decimal_digits(n / 10)[i]);
            }
        }
    }
}

/// Different numbers are written differently.
pub proof fn lemma_decimal_injective(m: int, n: int)
    requires
        decimal(m) == decimal(n),
    ensures
        m == n,
{
    let p: int = if m < 0 {
        -m
    } else {
        m
    };
    let q: int = if n < 0 {
        -n
    } else {
        n
    };
    lemma_decimal_digits_value(p as nat);
    lemma_decimal_digits_value(q as nat);
    if m < 0 {
        assert(decimal(m)[0] == '-');
        assert(decimal(m).subrange(1, decimal(m).len() as int) =~= decimal_digits(p as nat));
    }
    if n < 0 {
        assert(decimal(n)[0] == '-');
        assert(decimal(n).subrange(1, decimal(n).len() as int) =~= decimal_digits(q as nat));
    }
    if m >= 0 {
        assert(is_digit_char(decimal_digits(p as nat)[0]));
    }
    if n >= 0 {
        assert(is_digit_char(decimal_digits(q as nat)[0]));
    }
}

/// The one-character string for the digit `d`.
fn digit_str(d: u64) -> (s: &'static str)
    requires
        d < 10,
    ensures
        s@ == seq![digit_char(d as nat)],
{
    proof {
        reveal_strlit("0");
        reveal_strlit("1");
        reveal_strlit("2");
        reveal_strlit("3");
        reveal_strlit("4");
        reveal_strlit("5");
        reveal_strlit("6");
        reveal_strlit("7");
        reveal_strlit("8");
        reveal_strlit("9");
    }
    let s: &'static str = if d == 0 {
        "0"
    } else if d == 1 {
        "1"
    } else if d == 2 {
        "2"
    } else if d == 3 {
        "3"
    } else if d == 4 {
        "4"
    } else if d == 5 {
        "5"
    } else if d == 6 {
        "6"
    } else if d == 7 {
        "7"
    } else if d == 8 {
        "8"
    } else {
        "9"
    };
    assert(s@ =~= seq![digit_char(d as nat)]);
    s
}

/// Appends the decimal digits of `n` to `out`.
pub fn push_decimal_digits(out: &mut String, n: u64)
    ensures
        final(out)@ == old(out)@ + decimal_digits(n as nat),
    decreases n,
{
    if n < 10 {
        out.append(digit_str(n));
        assert(out@ =~= old(out)@ + decimal_digits(n as nat));
    } else {
        push_decimal_digits(out, n / 10);
        out.append(digit_str(n % 10));
        assert(out@ =~= old(out)@ + decimal_digits(n as nat));
    }
}

/// Writes `n` in decimal.
pub fn decimal_string(n: i64) -> (text: String)
    ensures
        text@ == decimal(n as int),
{
    let mut text = String::new();
    if n < 0 {
        text.append("-");
        proof {
            reveal_strlit("-");
        }
        let magnitude: u64 = ((-(n + 1)) as u64) + 1;
        push_decimal_digits(&mut text, magnitude);
        assert(text@ =~= decimal(n as int));
    } else {
        push_decimal_digits(&mut text, n as u64);
        assert(text@ =~= decimal(n as int));
    }
    text
}

/// Adds `a` and `b` and writes the sum in decimal.
///
/// The sum has to fit a signed 64-bit integer.
pub fn sum_as_string(a: i64, b: i64) -> (text: String)
    requires
        i64::MIN <= a + b <= i64::MAX,
    ensures
        text@ == decimal(a + b),
{
    decimal_string(a + b)
}

} // verus!
