//! Decimal text of integers.
use vstd::prelude::*;

verus! {

/// `String::push`: appends the character to the end of the string.
pub assume_specification[ String::push ](s: &mut String, c: char)
    ensures
        final(s)@ == old(s)@.push(c),
;

/// The character of a decimal digit.
pub open spec fn digit(d: nat) -> char {
    ('0' as nat + d) as char
}

/// The decimal digits of `n`, without leading zeros.
pub open spec fn decimal(n: nat) -> Seq<char>
    decreases n,
{
    if n < 10 {
        seq![digit(n)]
    } else {
        decimal(n / 10).push(digit(n % 10))
    }
}

/// The decimal text of `n`.
pub fn u64_text(n: u64) -> (text: String)
    ensures
        text@ == decimal(n as nat),
    decreases n,
{
    let mut text = if n < 10 {
        String::new()
    } else {
        u64_text(n / 10)
    };
    text.push((48 + (n % 10) as u8) as char);
    text
}

/// The decimal text of an integer, with a minus sign below zero.
pub open spec fn signed_decimal(n: int) -> Seq<char> {
    if n < 0 {
        "-"@ + decimal((-n) as nat)
    } else {
        decimal(n as nat)
    }
}

/// The decimal text of `n`.
pub fn i32_text(n: i32) -> (text: String)
    ensures
        text@ == signed_decimal(n as int),
{
    if n < 0 {
        let mut text = "-".to_owned();
        text.append(u64_text((-(n as i64)) as u64).as_str());
        text
    } else {
        u64_text(n as u64)
    }
}

/// The number that a line of decimal digits stands for.
pub open spec fn digits_value(digits: Seq<char>) -> nat
    decreases digits.len(),
{
    if digits.len() == 0 {
        0
    } else {
        (10 * digits_value(digits.drop_last()) + (digits.last() as int - '0' as int)) as nat
    }
}

/// The decimal text is made of digits, has no leading zero, and reads back as the
/// number.
pub proof fn law_decimal_reads_back(n: nat)
    ensures
        decimal(n).len() > 0,
        forall|i: int| 0 <= i < decimal(n).len() ==> '0' <= #[trigger] decimal(n)[i] <= '9',
        n > 0 ==> decimal(n)[0] != '0',
        digits_value(decimal(n)) == n,
    decreases n,
{
    if n < 10 {
        assert(decimal(n).drop_last() =~= seq![]);
        assert(digits_value(seq![]) == 0);
    } else {
        law_decimal_reads_back(n / 10);
        assert(decimal(n).drop_last() =~= decimal(n / 10));
    }
}

/// Different numbers have different texts.
pub proof fn law_texts_tell_numbers_apart(a: int, b: int)
    ensures
        signed_decimal(a) == signed_decimal(b) ==> a == b,
        a >= 0 ==> signed_decimal(a) == decimal(a as nat),
        a < 0 ==> signed_decimal(a) == seq!['-'] + decimal((-a) as nat),
{
    reveal_strlit("-");
    assert("-"@ =~= seq!['-']);
    let (m, n) = (if a < 0 { (-a) as nat } else { a as nat }, if b < 0 {
        (-b) as nat
    } else {
        b as nat
    });
    law_decimal_reads_back(m);
    law_decimal_reads_back(n);
    if signed_decimal(a) == signed_decimal(b) {
        if a < 0 && b < 0 {
            assert(signed_decimal(a).skip(1) =~= decimal(m));
            assert(signed_decimal(b).skip(1) =~= decimal(n));
        } else if a < 0 {
            assert(signed_decimal(a)[0] == '-');
            assert(decimal(n)[0] == '-');
        } else if b < 0 {
            assert(signed_decimal(b)[0] == '-');
            assert(decimal(m)[0] == '-');
        }
    }
}

} // verus!
