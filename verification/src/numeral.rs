use vstd::prelude::*;

use crate::text::chars_of;

verus! {

/// The character for a digit value: `0` to `9`, then `a` to `f`.
pub open spec fn digit(d: int) -> char {
    if d < 10 {
        (48 + d) as char
    } else {
        (87 + d) as char
    }
}

/// An ASCII decimal digit.
pub open spec fn is_digit(c: char) -> bool {
    '0' <= c <= '9'
}

/// `n` in decimal, without leading zeros.
pub open spec fn decimal(n: nat) -> Seq<char>
    decreases n,
{
    if n < 10 {
        seq![digit(n as int)]
    } else {
        decimal(n / 10).push(digit((n % 10) as int))
    }
}

/// The number that decimal digits spell.
pub open spec fn digits_value(s: Seq<char>) -> nat
    decreases s.len(),
{
    if s.len() == 0 {
        0
    } else {
        10 * digits_value(s.drop_last()) + (s.last() as nat - 48) as nat
    }
}

pub open spec fn all_digits(s: Seq<char>) -> bool {
    forall|i: int| 0 <= i < s.len() ==> is_digit(#[trigger] s[i])
}

/// The digits of a number that may carry a plus sign.
pub open spec fn unsigned_digits(s: Seq<char>) -> Seq<char> {
    if s.len() > 0 && s[0] == '+' {
        s.drop_first()
    } else {
        s
    }
}

/// A port number in text: an optional plus sign and at least one decimal digit, no more than
/// 65535 in value.
pub open spec fn port_of(s: Seq<char>) -> Option<u16> {
    let digits = unsigned_digits(s);
    if digits.len() > 0 && all_digits(digits) && digits_value(digits) <= 65535 {
        Some(digits_value(digits) as u16)
    } else {
        None
    }
}

/// Each byte as two lower-case hexadecimal digits.
pub open spec fn hex(bytes: Seq<u8>) -> Seq<char>
    decreases bytes.len(),
{
    if bytes.len() == 0 {
        Seq::empty()
    } else {
        hex(bytes.drop_last()).push(digit(bytes.last() as int / 16)).push(
            digit(bytes.last() as int % 16),
        )
    }
}

/// The character of one digit.
pub fn digit_char(d: u8) -> (r: char)
    requires
        d < 16,
    ensures
        r == digit(d as int),
{
    if d < 10 {
        (48 + d) as char
    } else {
        (87 + d) as char
    }
}

/// `n` in decimal.
pub fn decimal_text(n: u64) -> (r: String)
    ensures
        r@ == decimal(n as nat),
    decreases n,
{
    let mut out = if n < 10 {
        String::new()
    } else {
        decimal_text(n / 10)
    };
    let last: u8 = (n % 10) as u8;
    out.push(digit_char(last));
    proof {
        if n < 10 {
            assert(Seq::<char>::empty().push(digit(n as int)) == seq![digit(n as int)]);
        }
    }
    out
}

/// More digits never spell a smaller number.
proof fn lemma_value_grows(s: Seq<char>, i: int)
    requires
        all_digits(s),
        0 <= i <= s.len(),
    ensures
        digits_value(s.take(i)) <= digits_value(s),
    decreases s.len() - i,
{
    if i < s.len() {
        assert(s.take(i + 1).drop_last() == s.take(i));
        assert(is_digit(s[i]));
        lemma_value_grows(s, i + 1);
    } else {
        assert(s.take(i) == s);
    }
}

/// Reads a port number.
pub fn parse_port(s: &str) -> (r: Option<u16>)
    ensures
        r == port_of(s@),
{
    let chars = chars_of(s);
    let from: usize = if chars.len() > 0 && chars[0] == '+' {
        1
    } else {
        0
    };
    let ghost digits = unsigned_digits(s@);
    assert(digits == chars@.skip(from as int));
    if from == chars.len() {
        return None;
    }
    let mut value: u32 = 0;
    let mut too_large: bool = false;
    let mut i: usize = from;
    assert(digits.take(0) == Seq::<char>::empty());
    while i < chars.len()
        invariant
            digits == unsigned_digits(s@),
            digits == chars@.skip(from as int),
            from <= i <= chars@.len(),
            forall|j: int| 0 <= j < i - from ==> is_digit(#[trigger] digits[j]),
            !too_large ==> value == digits_value(digits.take(i - from)) && value <= 65535,
            too_large ==> digits_value(digits.take(i - from)) > 65535,
        decreases chars@.len() - i,
    {
        let c = chars[i];
        assert(digits[i - from] == c);
        if c < '0' || c > '9' {
            assert(!is_digit(digits[i - from]));
            return None;
        }
        proof {
            assert(digits.take(i + 1 - from).drop_last() == digits.take(i - from));
        }
        let d: u32 = c as u32 - 48;
        if !too_large {
            value = value * 10 + d;
            if value > 65535 {
                too_large = true;
            }
        }
        i = i + 1;
    }
    assert(digits.take(i - from) == digits);
    if too_large {
        None
    } else {
        Some(value as u16)
    }
}

/// The bytes in hexadecimal.
pub fn hex_text(bytes: &[u8]) -> (r: String)
    ensures
        r@ == hex(bytes@),
{
    let mut out = String::new();
    let mut i: usize = 0;
    assert(bytes@.take(0) == Seq::<u8>::empty());
    while i < bytes.len()
        invariant
            i <= bytes@.len(),
            out@ == hex(bytes@.take(i as int)),
        decreases bytes@.len() - i,
    {
        let b: u8 = bytes[i];
        assert(bytes@.take(i + 1).drop_last() == bytes@.take(i as int));
        out.push(digit_char(b / 16));
        out.push(digit_char(b % 16));
        i = i + 1;
    }
    assert(bytes@.take(i as int) == bytes@);
    out
}

/// A number written in decimal is digits throughout and reads back as itself.
pub proof fn decimal_reads_back(n: nat)
    ensures
        decimal(n).len() > 0,
        all_digits(decimal(n)),
        digits_value(decimal(n)) == n,
    decreases n,
{
    if n < 10 {
        assert(decimal(n).drop_last() == Seq::<char>::empty());
        assert(digits_value(Seq::<char>::empty()) == 0);
    } else {
        decimal_reads_back(n / 10);
        let init = decimal(n / 10);
        assert(decimal(n).drop_last() == init);
        assert forall|i: int| 0 <= i < decimal(n).len() implies is_digit(#[trigger] decimal(n)[i]) by {
            if i < init.len() {
                assert(decimal(n)[i] == init[i]);
            }
        }
    }
}

/// A port written in decimal reads back as itself.
pub proof fn port_reads_back(p: u16)
    ensures
        port_of(decimal(p as nat)) == Some(p),
{
    decimal_reads_back(p as nat);
    assert(is_digit(decimal(p as nat)[0]));
}

/// Two hexadecimal digits for every byte, none of them in upper case.
pub proof fn hex_is_lower_case_pairs(bytes: Seq<u8>)
    ensures
        hex(bytes).len() == 2 * bytes.len(),
        forall|i: int|
            0 <= i < hex(bytes).len() ==> ('0' <= #[trigger] hex(bytes)[i] <= '9' || 'a' <= hex(
                bytes,
            )[i] <= 'f'),
    decreases bytes.len(),
{
    if bytes.len() > 0 {
        let init = hex(bytes.drop_last());
        hex_is_lower_case_pairs(bytes.drop_last());
        assert forall|i: int| 0 <= i < hex(bytes).len() implies ('0' <= #[trigger] hex(bytes)[i] <= '9'
            || 'a' <= hex(bytes)[i] <= 'f') by {
            if i < init.len() {
                assert(hex(bytes)[i] == init[i]);
            }
        }
    }
}

/// Different byte strings of one length have different hexadecimal texts.
pub proof fn hex_is_injective(a: Seq<u8>, b: Seq<u8>)
    requires
        hex(a) == hex(b),
    ensures
        a == b,
    decreases a.len(),
{
    hex_is_lower_case_pairs(a);
    hex_is_lower_case_pairs(b);
    if a.len() > 0 {
        let ha = hex(a);
        let n = ha.len() as int;
        assert(ha.drop_last().drop_last() == hex(a.drop_last()));
        assert(hex(b).drop_last().drop_last() == hex(b.drop_last()));
        hex_is_injective(a.drop_last(), b.drop_last());
        assert(ha[n - 1] == digit(a.last() as int % 16));
        assert(ha[n - 2] == digit(a.last() as int / 16));
        assert(hex(b)[n - 1] == digit(b.last() as int % 16));
        assert(hex(b)[n - 2] == digit(b.last() as int / 16));
        assert(a.last() == b.last());
        assert(a == a.drop_last().push(a.last()));
        assert(b == b.drop_last().push(b.last()));
    } else {
        assert(a == b);
    }
}

/// A number is written without leading zeros.
pub proof fn decimal_has_no_leading_zero(n: nat)
    ensures
        decimal(n)[0] == '0' <==> n == 0,
        n < 10 <==> decimal(n).len() == 1,
    decreases n,
{
    if n >= 10 {
        decimal_has_no_leading_zero(n / 10);
        decimal_reads_back(n / 10);
        assert(decimal(n)[0] == decimal(n / 10)[0]);
    }
}

/// Each further digit counts ten times what stands before it and itself.
pub proof fn digits_are_positional(s: Seq<char>, c: char)
    requires
        '0' <= c <= '9',
    ensures
        digits_value(s.push(c)) == 10 * digits_value(s) + (c as int - '0' as int),
        digits_value(Seq::empty()) == 0,
{
    assert(s.push(c).drop_last() == s);
}

/// Decimal digits, with or without a plus sign before them, are a port exactly where their value is
/// one, however many leading zeros there are.
pub proof fn digits_up_to_65535_are_a_port(digits: Seq<char>)
    requires
        digits.len() > 0,
        forall|i: int| 0 <= i < digits.len() ==> '0' <= #[trigger] digits[i] <= '9',
    ensures
        port_of(digits) == (if digits_value(digits) <= 65535 {
            Some(digits_value(digits) as u16)
        } else {
            None
        }),
        port_of("+"@ + digits) == port_of(digits),
{
    reveal_strlit("+");
    assert('0' <= digits[0] <= '9');
    assert(("+"@ + digits).drop_first() == digits);
    assert(all_digits(digits));
}

/// A text with anything but digits behind an optional plus sign is no port, and neither is one
/// without a digit.
pub proof fn other_characters_are_no_port(s: Seq<char>, i: int)
    requires
        0 <= i < s.len(),
        !('0' <= s[i] <= '9'),
        i == 0 ==> s[i] != '+',
    ensures
        port_of(s) is None,
        port_of(Seq::empty()) is None,
        port_of("+"@) is None,
{
    reveal_strlit("+");
    let digits = unsigned_digits(s);
    if s[0] == '+' {
        assert(digits[i - 1] == s[i]);
        assert(!is_digit(digits[i - 1]));
    } else {
        assert(!is_digit(digits[i]));
    }
}

/// The value of a hexadecimal digit in lower case.
pub open spec fn digit_value(c: char) -> int {
    if c <= '9' {
        c as int - '0' as int
    } else {
        10 + c as int - 'a' as int
    }
}

/// The two digits of a byte spell it, the higher one first.
pub proof fn hex_spells_each_byte(bytes: Seq<u8>, i: int)
    requires
        0 <= i < bytes.len(),
    ensures
        hex(bytes).len() == 2 * bytes.len(),
        16 * digit_value(hex(bytes)[2 * i]) + digit_value(hex(bytes)[2 * i + 1]) == bytes[i],
    decreases bytes.len(),
{
    hex_is_lower_case_pairs(bytes);
    let init = bytes.drop_last();
    hex_is_lower_case_pairs(init);
    if i < init.len() {
        hex_spells_each_byte(init, i);
        assert(hex(bytes)[2 * i] == hex(init)[2 * i]);
        assert(hex(bytes)[2 * i + 1] == hex(init)[2 * i + 1]);
    }
}

} // verus!
