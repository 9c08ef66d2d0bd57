use vstd::prelude::*;

verus! {

/// The value of one hexadecimal digit character (either case), or -1.
pub open spec fn digit_value(c: char) -> int {
    if '0' <= c && c <= '9' {
        c as int - '0' as int
    } else if 'A' <= c && c <= 'F' {
        c as int - 'A' as int + 10
    } else if 'a' <= c && c <= 'f' {
        c as int - 'a' as int + 10
    } else {
        -1
    }
}

/// The upper-case character of a digit value below sixteen.
pub open spec fn digit_char(d: nat) -> char {
    if d < 10 {
        (d + '0' as nat) as char
    } else {
        (d - 10 + 'A' as nat) as char
    }
}

/// A character that upper-case hexadecimal output may hold.
pub open spec fn is_upper_hex_char(c: char) -> bool {
    ('0' <= c && c <= '9') || ('A' <= c && c <= 'F')
}

pub open spec fn is_upper_hex(s: Seq<char>) -> bool {
    forall|i: int| 0 <= i < s.len() ==> is_upper_hex_char(#[trigger] s[i])
}

pub open spec fn pow16(n: nat) -> nat
    decreases n,
{
    if n == 0 {
        1
    } else {
        16 * pow16((n - 1) as nat)
    }
}

/// `v` in upper-case hexadecimal, zero-padded on the left to at least
/// `width` digits; zero is written "0" when `width` is zero.
pub open spec fn upper_hex(v: nat, width: nat) -> Seq<char>
    decreases v + width,
{
    if v < 16 && width <= 1 {
        seq![digit_char(v)]
    } else {
        upper_hex(v / 16, if width > 0 { (width - 1) as nat } else { 0 }).push(digit_char(v % 16))
    }
}

/// `v` in decimal, without sign or padding.
pub open spec fn decimal(v: nat) -> Seq<char>
    decreases v,
{
    if v < 10 {
        seq![digit_char(v)]
    } else {
        decimal(v / 10).push(digit_char(v % 10))
    }
}

/// The number that a string of hexadecimal digits spells, most significant first.
pub open spec fn hex_value(s: Seq<char>) -> int
    decreases s.len(),
{
    if s.len() == 0 {
        0
    } else {
        hex_value(s.drop_last()) * 16 + digit_value(s.last())
    }
}

pub open spec fn all_hex_digits(s: Seq<char>) -> bool {
    forall|i: int| 0 <= i < s.len() ==> digit_value(#[trigger] s[i]) >= 0
}

/// What parsing `s` as an unsigned 32-bit number in base sixteen gives: an
/// optional leading `+`, then at least one digit of either case, with a value
/// that fits in 32 bits.
pub open spec fn radix16_u32(s: Seq<char>) -> Option<u32> {
    let t = if s.len() > 1 && s[0] == '+' {
        s.drop_first()
    } else {
        s
    };
    if t.len() > 0 && all_hex_digits(t) && hex_value(t) <= u32::MAX {
        Some(hex_value(t) as u32)
    } else {
        None
    }
}

proof fn lemma_digit(d: nat)
    requires
        d < 16,
    ensures
        digit_value(digit_char(d)) == d,
        is_upper_hex_char(digit_char(d)),
{
}

/// Reading back upper-case hexadecimal output gives the number written, the
/// output holds digits only, at least `width` of them and exactly `width`
/// when the number fits.
pub proof fn lemma_upper_hex(v: nat, width: nat)
    ensures
        hex_value(upper_hex(v, width)) == v,
        is_upper_hex(upper_hex(v, width)),
        upper_hex(v, width).len() >= 1,
        upper_hex(v, width).len() >= width,
        width >= 1 && v < pow16(width) ==> upper_hex(v, width).len() == width,
    decreases v + width,
{
    let s = upper_hex(v, width);
    if v < 16 && width <= 1 {
        lemma_digit(v);
        assert(s.drop_last() =~= Seq::<char>::empty());
        assert(hex_value(s.drop_last()) == 0);
        assert(s.last() == digit_char(v));
        if width == 1 {
            assert(pow16(1) == 16) by {
                reveal_with_fuel(pow16, 2);
            }
        }
    } else {
        let w2: nat = if width > 0 { (width - 1) as nat } else { 0 };
        lemma_upper_hex(v / 16, w2);
        lemma_digit(v % 16);
        let p = upper_hex(v / 16, w2);
        assert(s == p.push(digit_char(v % 16)));
        assert(s.drop_last() =~= p);
        assert(s.last() == digit_char(v % 16));
        assert(hex_value(s) == hex_value(p) * 16 + (v % 16));
        assert(v == (v / 16) * 16 + v % 16) by (nonlinear_arith);
        assert forall|i: int| 0 <= i < s.len() implies is_upper_hex_char(#[trigger] s[i]) by {
            if i < p.len() {
                assert(s[i] == p[i]);
            }
        }
        if width >= 1 && v < pow16(width) {
            if width == 1 {
                assert(pow16(1) == 16) by {
                    reveal_with_fuel(pow16, 2);
                }
            } else {
                assert(pow16(width) == 16 * pow16(w2));
                assert(v / 16 < pow16(w2));
            }
        }
    }
}

/// Two numbers written in upper-case hexadecimal to the same width give the
/// same text only when they are equal.
pub proof fn lemma_upper_hex_injective(u: nat, v: nat, width: nat)
    requires
        upper_hex(u, width) == upper_hex(v, width),
    ensures
        u == v,
{
    lemma_upper_hex(u, width);
    lemma_upper_hex(v, width);
}

/// Relies on std's `{:0w$X}` formatting of a `u128`: upper-case hexadecimal
/// digits, zero-padded on the left to at least `width` characters (a width
/// given at run time above 65535 panics).
#[verifier::external_body]
pub(crate) fn format_upper_hex(v: u128, width: usize) -> (r: String)
    requires
        width <= 65535,
    ensures
        r@ == upper_hex(v as nat, width as nat),
{
    format!("{:0w$X}", v, w = width)
}

/// Relies on std's `{}` formatting of a `u64`: decimal digits, no padding.
#[verifier::external_body]
pub(crate) fn format_decimal(v: u64) -> (r: String)
    ensures
        r@ == decimal(v as nat),
{
    format!("{}", v)
}

/// Relies on `u32::from_str_radix(s, 16)`: an optional `+`, then hexadecimal
/// digits of either case whose value fits in 32 bits; anything else is an error.
#[verifier::external_body]
pub(crate) fn parse_hex_u32(s: &str) -> (r: Option<u32>)
    ensures
        r == radix16_u32(s@),
{
    u32::from_str_radix(s, 16).ok()
}

} // verus!
