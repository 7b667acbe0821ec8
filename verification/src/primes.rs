//! Primality of decimal strings, for the line-oriented companion service.
//!
//! A negative decimal is never prime and is answered without consulting the
//! checker. Everything else is handed to a deterministic Miller-Rabin
//! checker that works on arbitrarily long decimals; its verdict is a
//! function of the characters alone and is named `prime_verdict` here.

use vstd::prelude::*;
use vstd::string::StrSliceExecFns;

verus! {

/// True when every character of `s` is an ASCII decimal digit.
pub open spec fn all_dec_digits(s: Seq<char>) -> bool {
    forall|i: int| 0 <= i < s.len() ==> '0' <= #[trigger] s[i] <= '9'
}

/// True when `s` is a non-negative decimal literal: at least one digit,
/// optionally led by `+`. Exactly these strings the primality checker
/// parses; on anything else it panics.
pub open spec fn unsigned_decimal(s: Seq<char>) -> bool {
    if s.len() > 0 && s[0] == '+' {
        s.len() > 1 && all_dec_digits(s.skip(1))
    } else {
        s.len() > 0 && all_dec_digits(s)
    }
}

/// The verdict of the Miller-Rabin checker on the decimal in `s`. The
/// checker draws its witnesses from the input alone, so the verdict is a
/// function of the characters.
pub uninterp spec fn prime_verdict(s: Seq<char>) -> bool;

/// Relies on is_prime::is_prime: a deterministic Miller-Rabin test over the
/// decimal in the string, whose witnesses are taken from the input's length,
/// so the verdict depends on the characters alone. It parses the string with
/// num_bigint::BigUint::from_str and panics unless the string is an optional
/// `+` followed by digits, which the precondition guarantees.
#[verifier::external_body]
fn miller_rabin_verdict(n: &str) -> (r: bool)
    requires
        unsigned_decimal(n@),
    ensures
        r == prime_verdict(n@),
{
    is_prime::is_prime(n)
}

/// Whether the decimal in `n` is prime according to the Miller-Rabin
/// checker; a `-`-led string is negative and never prime. The input must be
/// either `-`-led or a non-negative decimal literal: on anything else the
/// checker does not return.
pub fn is_prime(n: &str) -> (r: bool)
    requires
        n@.len() > 0,
        n@[0] == '-' || unsigned_decimal(n@),
    ensures
        r == if n@[0] == '-' {
            false
        } else {
            prime_verdict(n@)
        },
{
    if n.get_char(0) == '-' {
        return false;
    }
    miller_rabin_verdict(n)
}

} // verus!
