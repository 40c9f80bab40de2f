//! Royalties: the share of a sale price that a token owes, and to whom.

use vstd::prelude::*;
use vstd::arithmetic::div_mod::{lemma_div_multiples_vanish_fancy, lemma_fundamental_div_mod};

use crate::metadata::Extension;
use crate::state::royalty_in_range;

verus! {

/// The royalty on `sale_price` at `percentage` percent: the exact share, rounded down.
pub open spec fn royalty_of(sale_price: nat, percentage: nat) -> nat {
    sale_price * percentage / 100
}

/// Whether a royalty percentage, where `extension` sets one, is at most one hundred.
pub fn valid_royalty(extension: &Extension) -> (ok: bool)
    ensures
        ok == royalty_in_range(extension.deep_view()),
{
    match extension {
        Some(metadata) => match metadata.royalty_percentage {
            Some(percentage) => percentage <= 100,
            None => true,
        },
        None => true,
    }
}

/// A royalty of at most one hundred percent is at most the sale price.
pub proof fn lemma_royalty_bounded(sale_price: nat, percentage: nat)
    requires
        percentage <= 100,
    ensures
        royalty_of(sale_price, percentage) <= sale_price,
{
    assert(sale_price * percentage <= sale_price * 100) by (nonlinear_arith)
        requires
            percentage <= 100,
    ;
    assert(sale_price * percentage / 100 <= sale_price) by (nonlinear_arith)
        requires
            sale_price * percentage <= sale_price * 100,
    ;
}

/// The royalty on `sale_price` at `percentage` percent, rounded down.
pub fn royalty_amount(sale_price: u128, percentage: u64) -> (amount: u128)
    requires
        percentage <= 100,
    ensures
        amount == royalty_of(sale_price as nat, percentage as nat),
        amount <= sale_price,
{
    let share: u128 = percentage as u128;
    let hundreds: u128 = sale_price / 100;
    let units: u128 = sale_price % 100;
    proof {
        let p = sale_price as int;
        let s = share as int;
        let q = hundreds as int;
        let r = units as int;
        lemma_fundamental_div_mod(p, 100);
        assert(p == 100 * q + r);
        assert(q * s <= q * 100) by (nonlinear_arith)
            requires
                0 <= s <= 100,
                0 <= q,
        ;
        assert(r * s <= 99 * 100) by (nonlinear_arith)
            requires
                0 <= s <= 100,
                0 <= r <= 99,
        ;
        assert(0 <= r * s) by (nonlinear_arith)
            requires
                0 <= s,
                0 <= r,
        ;
        assert(p * s == 100 * (q * s) + r * s) by (nonlinear_arith)
            requires
                p == 100 * q + r,
        ;
        let rem = (r * s) % 100;
        let quo = (r * s) / 100;
        lemma_fundamental_div_mod(r * s, 100);
        assert(p * s == 100 * (q * s + quo) + rem);
        lemma_div_multiples_vanish_fancy(q * s + quo, rem, 100);
        assert((100 * (q * s + quo) + rem) / 100 == q * s + quo);
        lemma_royalty_bounded(sale_price as nat, percentage as nat);
    }
    hundreds * share + units * share / 100
}

} // verus!
