//! The words on the progress bar.
//!
//! While more than a minute is left the label counts minutes, after that
//! seconds. Either count is rounded to the nearest whole number, a half going
//! up.

use crate::decimal::{decimal, decimal_digits};
use vstd::prelude::*;
use vstd::string::*;

verus! {

/// The milliseconds in a second.
pub const SECOND: u64 = 1_000;

/// The milliseconds in a minute.
pub const MINUTE: u64 = 60_000;

/// `amount / unit`, rounded to the nearest whole number, a half going up.
pub open spec fn rounded(amount: nat, unit: nat) -> nat {
    (2 * amount + unit) / (2 * unit)
}

/// Whether the label counts minutes.
pub open spec fn counts_minutes(remaining: nat) -> bool {
    remaining > MINUTE
}

/// The number on the label: minutes while more than a minute is left, seconds
/// after that.
pub open spec fn label_number(remaining: nat) -> nat {
    if counts_minutes(remaining) {
        rounded(remaining, MINUTE as nat)
    } else {
        rounded(remaining, SECOND as nat)
    }
}

/// What follows the number on the label.
pub open spec fn label_unit(remaining: nat) -> Seq<char> {
    if counts_minutes(remaining) {
        " minutes remaining"@
    } else {
        " seconds remaining"@
    }
}

/// The label for `remaining` milliseconds.
pub open spec fn label_text(remaining: nat) -> Seq<char> {
    decimal_digits(label_number(remaining)) + label_unit(remaining)
}

/// The rounded quotient is the whole number nearest to `amount / unit`: it is
/// at most half a unit away, and where two are as near it is the greater.
pub proof fn lemma_rounded_is_nearest(amount: nat, unit: nat)
    requires
        unit > 0,
    ensures
        2 * rounded(amount, unit) * unit <= 2 * amount + unit,
        2 * amount + unit < 2 * (rounded(amount, unit) + 1) * unit,
{
    let n = 2 * amount + unit;
    let d = 2 * unit;
    let q = rounded(amount, unit);
    assert(n == d * (n / d) + n % d) by {
        vstd::arithmetic::div_mod::lemma_fundamental_div_mod(n as int, d as int);
    }
    assert(0 <= n % d < d);
    assert(2 * q * unit == d * (n / d)) by (nonlinear_arith)
        requires
            q == n / d,
            d == 2 * unit,
    ;
    assert(2 * (q + 1) * unit == 2 * q * unit + d) by (nonlinear_arith)
        requires
            d == 2 * unit,
    ;
}

/// The label is a number and a unit: at most sixty seconds, or at least one
/// minute, and always eighteen characters after the number.
pub proof fn lemma_label_shape(remaining: nat)
    ensures
        label_unit(remaining).len() == 18,
        label_text(remaining).len() == decimal_digits(label_number(remaining)).len() + 18,
        !counts_minutes(remaining) ==> label_number(remaining) <= 60,
        counts_minutes(remaining) ==> label_number(remaining) >= 1,
{
    reveal_strlit(" minutes remaining");
    reveal_strlit(" seconds remaining");
    assert(rounded(remaining, 1_000) == (2 * remaining + 1_000) / 2_000);
    assert(rounded(remaining, 60_000) == (2 * remaining + 60_000) / 120_000);
}

/// `amount / unit` rounded to the nearest whole number, for an even unit.
fn round_to_unit(amount: u64, unit: u64) -> (r: u64)
    requires
        unit == SECOND || unit == MINUTE,
    ensures
        r == rounded(amount as nat, unit as nat),
{
    let whole: u64 = amount / unit;
    let rest: u64 = amount % unit;
    proof {
        if unit == SECOND {
            assert(rounded(amount as nat, 1_000) == (2 * amount + 1_000) / 2_000);
            assert(whole == amount / 1_000 && rest == amount % 1_000);
        } else {
            assert(rounded(amount as nat, 60_000) == (2 * amount + 60_000) / 120_000);
            assert(whole == amount / 60_000 && rest == amount % 60_000);
        }
    }
    if rest >= unit / 2 {
        whole + 1
    } else {
        whole
    }
}

/// The label for `remaining` milliseconds.
pub fn label(remaining: u64) -> (r: String)
    ensures
        r@ == label_text(remaining as nat),
{
    if remaining > MINUTE {
        let mut r: String = decimal(round_to_unit(remaining, MINUTE));
        r.append(" minutes remaining");
        r
    } else {
        let mut r: String = decimal(round_to_unit(remaining, SECOND));
        r.append(" seconds remaining");
        r
    }
}

} // verus!
