//! Decimal numbers read into fixed-point integers.
//!
//! Venues write prices and quantities as decimal text. They are read straight
//! into integers of a fixed number of decimals, so that no price is ever
//! rounded and two prices are the same level exactly when their texts mean the
//! same number.

use vstd::prelude::*;
use vstd::string::*;

verus! {

pub open spec fn is_digit(byte: u8) -> bool {
    48 <= byte <= 57
}

pub open spec fn all_digits(bytes: Seq<u8>) -> bool {
    forall|i: int| 0 <= i < bytes.len() ==> is_digit(#[trigger] bytes[i])
}

/// The number that a string of decimal digits writes.
pub open spec fn number_of(digits: Seq<u8>) -> nat
    decreases digits.len(),
{
    if digits.len() == 0 {
        0
    } else {
        number_of(digits.drop_last()) * 10 + (digits.last() - 48) as nat
    }
}

/// Ten to the power of `n`.
pub open spec fn pow10(n: nat) -> nat
    decreases n,
{
    if n == 0 {
        1
    } else {
        10 * pow10((n - 1) as nat)
    }
}

/// `bytes` is a decimal number whose whole part has `whole` digits: digits, and
/// after them either nothing or a point and at least one and at most `decimals`
/// digits more.
pub open spec fn is_fixed(bytes: Seq<u8>, decimals: nat, whole: int) -> bool {
    &&& 0 < whole <= bytes.len()
    &&& all_digits(bytes.take(whole))
    &&& whole < bytes.len() ==> {
        &&& bytes[whole] == 46
        &&& whole + 1 < bytes.len()
        &&& bytes.len() - whole - 1 <= decimals
        &&& all_digits(bytes.skip(whole + 1))
    }
}

/// The digits of a decimal number whose whole part has `whole` digits, without
/// the point.
pub open spec fn digits_of(bytes: Seq<u8>, whole: int) -> Seq<u8> {
    if whole < bytes.len() {
        bytes.take(whole) + bytes.skip(whole + 1)
    } else {
        bytes
    }
}

/// How many of the `decimals` decimals a number whose whole part has `whole`
/// digits leaves unwritten.
pub open spec fn unwritten(bytes: Seq<u8>, decimals: nat, whole: int) -> nat {
    if whole < bytes.len() {
        (decimals + whole + 1 - bytes.len()) as nat
    } else {
        decimals
    }
}

/// The value of a decimal number in units of ten to the power of minus
/// `decimals`, where the text is such a number with at most `decimals` digits
/// after the point.
pub open spec fn fixed_value(bytes: Seq<u8>, decimals: nat) -> Option<nat> {
    if exists|whole: int| is_fixed(bytes, decimals, whole) {
        let whole = choose|whole: int| is_fixed(bytes, decimals, whole);
        Some(number_of(digits_of(bytes, whole)) * pow10(unwritten(bytes, decimals, whole)))
    } else {
        None
    }
}

/// What reading a decimal number into an integer of 64 bits gives: its value,
/// where the text is a number and the value fits.
pub open spec fn fixed_of(bytes: Seq<u8>, decimals: nat) -> Option<u64> {
    match fixed_value(bytes, decimals) {
        Some(value) => if value <= u64::MAX {
            Some(value as u64)
        } else {
            None
        },
        None => None,
    }
}

/// A number has only one count of whole digits.
pub proof fn lemma_whole_is_unique(bytes: Seq<u8>, decimals: nat, a: int, b: int)
    requires
        is_fixed(bytes, decimals, a),
        is_fixed(bytes, decimals, b),
    ensures
        a == b,
{
    if a < b {
        assert(bytes.take(b)[a] == bytes[a]);
        assert(is_digit(bytes.take(b)[a]));
    } else if b < a {
        assert(bytes.take(a)[b] == bytes[b]);
        assert(is_digit(bytes.take(a)[b]));
    }
}

/// The number written by the first digits of a string is no greater than the
/// number written by all of them.
pub proof fn lemma_number_of_prefix(digits: Seq<u8>, n: int)
    requires
        0 <= n <= digits.len(),
    ensures
        number_of(digits.take(n)) <= number_of(digits),
    decreases digits.len() - n,
{
    if n == digits.len() {
        assert(digits.take(n) =~= digits);
    } else {
        lemma_number_of_prefix(digits, n + 1);
        assert(digits.take(n + 1).drop_last() =~= digits.take(n));
    }
}

/// Powers of ten are positive and grow.
pub proof fn lemma_pow10_grows(a: nat, b: nat)
    requires
        a <= b,
    ensures
        1 <= pow10(a) <= pow10(b),
    decreases b,
{
    if b > 0 {
        if a < b {
            lemma_pow10_grows(a, (b - 1) as nat);
        } else {
            lemma_pow10_grows((a - 1) as nat, (b - 1) as nat);
        }
    }
}

/// A product grows with each factor.
proof fn lemma_product_grows(a: nat, b: nat, c: nat, d: nat)
    requires
        a <= b,
        c <= d,
    ensures
        a * c <= b * d,
{
    assert(a * c <= b * c) by (nonlinear_arith)
        requires
            a <= b,
    ;
    assert(b * c <= b * d) by (nonlinear_arith)
        requires
            c <= d,
    ;
}

/// Reads a decimal number into an integer of `decimals` decimals. The text is
/// digits, then either nothing or a point and between one and `decimals` more
/// digits; no sign, no space, no exponent. Returns `None` for any other text,
/// and for a number too large for 64 bits.
pub fn parse_fixed(text: &str, decimals: u8) -> (r: Option<u64>)
    ensures
        r == fixed_of(text.spec_bytes(), decimals as nat),
{
    let bytes = text.as_bytes();
    let len = bytes.len();
    let ghost all = bytes@;
    let ghost places = decimals as nat;
    // The whole part.
    let mut whole: usize = 0;
    while whole < len && 48 <= bytes[whole] && bytes[whole] <= 57
        invariant
            whole <= len,
            len == all.len(),
            bytes@ == all,
            all_digits(all.take(whole as int)),
        decreases len - whole,
    {
        assert(all.take(whole + 1) =~= all.take(whole as int).push(all[whole as int]));
        whole += 1;
    }
    if whole == 0 {
        proof {
            if exists|w: int| is_fixed(all, places, w) {
                let w = choose|w: int| is_fixed(all, places, w);
                assert(all.take(w)[0] == all[0]);
            }
        }
        return None;
    }
    if whole < len {
        let well_formed = bytes[whole] == 46 && len - whole - 1 >= 1 && len - whole - 1
            <= decimals as usize;
        if !well_formed {
            proof {
                if exists|w: int| is_fixed(all, places, w) {
                    let w = choose|w: int| is_fixed(all, places, w);
                    if w < whole {
                        assert(all.take(whole as int)[w] == all[w]);
                    } else if w > whole {
                        assert(all.take(w)[whole as int] == all[whole as int]);
                    }
                }
            }
            return None;
        }
        let mut i: usize = whole + 1;
        while i < len
            invariant
                whole < i <= len,
                len == all.len(),
                bytes@ == all,
                all == text.spec_bytes(),
                places == decimals as nat,
                all_digits(all.take(whole as int)),
                all[whole as int] == 46,
                all_digits(all.subrange(whole + 1, i as int)),
            decreases len - i,
        {
            if !(48 <= bytes[i] && bytes[i] <= 57) {
                proof {
                    if exists|w: int| is_fixed(all, places, w) {
                        let w = choose|w: int| is_fixed(all, places, w);
                        if w < whole {
                            assert(all.take(whole as int)[w] == all[w]);
                        } else if w > whole {
                            assert(all.take(w)[whole as int] == all[whole as int]);
                        } else {
                            assert(all.skip(whole + 1)[i - whole - 1] == all[i as int]);
                        }
                    }
                }
                return None;
            }
            assert(all.subrange(whole + 1, i + 1) =~= all.subrange(whole + 1, i as int).push(
                all[i as int],
            ));
            i += 1;
        }
        assert(all.subrange(whole + 1, len as int) =~= all.skip(whole + 1));
    }
    // The text is a number: add up its digits.
    assert(is_fixed(all, places, whole as int));
    proof {
        let w = choose|w: int| is_fixed(all, places, w);
        lemma_whole_is_unique(all, places, w, whole as int);
    }
    let ghost digits = digits_of(all, whole as int);
    let ghost scale = unwritten(all, places, whole as int);
    assert(fixed_value(all, places) == Some(number_of(digits) * pow10(scale)));
    let mut value: u64 = 0;
    let mut i: usize = 0;
    let mut taken: usize = 0;
    assert(digits.take(0) =~= Seq::<u8>::empty());
    while i < len
        invariant
            i <= len,
            0 < whole <= len,
            len == all.len(),
            bytes@ == all,
            all == text.spec_bytes(),
            places == decimals as nat,
            is_fixed(all, places, whole as int),
            digits == digits_of(all, whole as int),
            taken == if i <= whole {
                i as int
            } else {
                i - 1
            },
            taken <= digits.len(),
            value == number_of(digits.take(taken as int)),
            fixed_value(all, places) == Some(number_of(digits) * pow10(scale)),
        decreases len - i,
    {
        if i != whole {
            let byte = bytes[i];
            proof {
                if i < whole {
                    assert(all.take(whole as int)[i as int] == all[i as int]);
                } else {
                    assert(all.skip(whole + 1)[i - whole - 1] == all[i as int]);
                }
                assert(digits[taken as int] == byte);
                assert(is_digit(byte));
                assert(digits.take(taken + 1).drop_last() =~= digits.take(taken as int));
                assert(digits.take(taken + 1).last() == byte);
                lemma_number_of_prefix(digits, taken + 1);
                lemma_pow10_grows(0, scale);
                lemma_product_grows(
                    number_of(digits.take(taken + 1)),
                    number_of(digits),
                    1,
                    pow10(scale),
                );
            }
            let digit = (byte - 48) as u64;
            if value > (u64::MAX - digit) / 10 {
                return None;
            }
            value = value * 10 + digit;
            taken += 1;
        }
        i += 1;
    }
    assert(digits.take(taken as int) =~= digits);
    // Fill up the decimals that the text left out.
    let missing: usize = if whole < len {
        decimals as usize - (len - whole - 1)
    } else {
        decimals as usize
    };
    assert(missing == scale);
    assert(pow10(0) == 1);
    assert(value == number_of(digits));
    assert(value == number_of(digits) * pow10(0)) by (nonlinear_arith)
        requires
            value == number_of(digits),
            pow10(0) == 1,
    ;
    let mut filled: usize = 0;
    while filled < missing
        invariant
            filled <= missing,
            missing == scale,
            all == text.spec_bytes(),
            places == decimals as nat,
            value == number_of(digits) * pow10(filled as nat),
            fixed_value(all, places) == Some(number_of(digits) * pow10(scale)),
        decreases missing - filled,
    {
        proof {
            lemma_pow10_grows((filled + 1) as nat, scale);
            lemma_product_grows(
                number_of(digits),
                number_of(digits),
                pow10((filled + 1) as nat),
                pow10(scale),
            );
            assert(number_of(digits) * pow10((filled + 1) as nat) == value * 10) by (
                nonlinear_arith)
                requires
                    value == number_of(digits) * pow10(filled as nat),
                    pow10((filled + 1) as nat) == 10 * pow10(filled as nat),
            ;
        }
        if value > u64::MAX / 10 {
            return None;
        }
        value = value * 10;
        filled += 1;
    }
    Some(value)
}

} // verus!
