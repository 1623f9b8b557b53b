//! The mathematics of the swap engine.
//!
//! A trade against a pool with reserves `(reserve_in, reserve_out)` deposits
//! a net amount into the in-side reserve and pays out of the out-side
//! reserve whatever keeps the product of the reserves constant, rounded with
//! floor division. The net amount is the gross spent amount minus the taker
//! fee, itself a floor-divided fraction of the gross amount.
//!
//! This module states those formulas as spec functions and proves the facts
//! the rest of the crate relies on: the fee never exceeds the amount (for a
//! fee rate at most one), the payout never exceeds the out-side reserve, the
//! payout is monotone in the spent amount, and how the product of the
//! reserves moves across a trade.

use vstd::arithmetic::div_mod::{
    lemma_div_is_ordered, lemma_div_is_ordered_by_denominator, lemma_div_multiples_vanish,
    lemma_div_plus_one, lemma_div_pos_is_pos, lemma_fundamental_div_mod,
    lemma_mod_division_less_than_divisor,
};
use vstd::prelude::*;

verus! {

/// The taker fee charged on a gross `amount` at the rate
/// `fee_num / fee_den`: `floor(amount * fee_num / fee_den)`.
pub open spec fn fee_of(amount: int, fee_num: int, fee_den: int) -> int {
    (amount * fee_num) / fee_den
}

/// When the checked fee computation succeeds: the multiplication fits in a
/// balance and the divisor is nonzero.
pub open spec fn fee_ok(amount: int, fee_num: int, fee_den: int) -> bool {
    &&& fee_den > 0
    &&& amount * fee_num <= u128::MAX as int
}

/// What is left of a gross `amount` once the taker fee is deducted; this is
/// what a trade deposits into the in-side reserve.
pub open spec fn net_of(amount: int, fee_num: int, fee_den: int) -> int {
    amount - fee_of(amount, fee_num, fee_den)
}

/// The out-side reserve after a trade that deposits `net` into the in-side
/// reserve: `floor(reserve_in * reserve_out / (reserve_in + net))`.
pub open spec fn swap_quotient(reserve_in: int, reserve_out: int, net: int) -> int {
    (reserve_in * reserve_out) / (reserve_in + net)
}

/// The amount a trade pays out: the drop of the out-side reserve.
pub open spec fn swap_output(reserve_in: int, reserve_out: int, net: int) -> int {
    reserve_out - swap_quotient(reserve_in, reserve_out, net)
}

/// When the swap engine succeeds on a nonzero gross `amount`: each checked
/// step — the reserve product, the fee, the deduction of the fee, and the
/// grown in-side reserve — stays in range, and the division is by a nonzero
/// divisor.
pub open spec fn receive_ok(
    reserve_in: int,
    reserve_out: int,
    amount: int,
    fee_num: int,
    fee_den: int,
) -> bool {
    &&& reserve_in * reserve_out <= u128::MAX as int
    &&& fee_ok(amount, fee_num, fee_den)
    &&& fee_of(amount, fee_num, fee_den) <= amount
    &&& reserve_in + net_of(amount, fee_num, fee_den) <= u128::MAX as int
    &&& reserve_in + net_of(amount, fee_num, fee_den) > 0
}

/// What the swap engine returns: zero for a zero amount (no fee charged),
/// otherwise the constant-product payout on the fee-deducted amount.
pub open spec fn receive_amount(
    reserve_in: int,
    reserve_out: int,
    amount: int,
    fee_num: int,
    fee_den: int,
) -> int {
    if amount == 0 {
        0
    } else {
        swap_output(reserve_in, reserve_out, net_of(amount, fee_num, fee_den))
    }
}

/// At a fee rate of at most one, the fee on an amount lies between zero and
/// the amount itself, so deducting it never underflows.
pub proof fn lemma_fee_le_amount(amount: int, fee_num: int, fee_den: int)
    requires
        0 <= amount,
        0 <= fee_num <= fee_den,
        0 < fee_den,
    ensures
        0 <= fee_of(amount, fee_num, fee_den) <= amount,
{
    assert(0 <= amount * fee_num <= amount * fee_den) by (nonlinear_arith)
        requires
            0 <= amount,
            0 <= fee_num <= fee_den,
    ;
    lemma_div_pos_is_pos(amount * fee_num, fee_den);
    lemma_div_is_ordered(amount * fee_num, amount * fee_den, fee_den);
    lemma_div_multiples_vanish(amount, fee_den);
    assert(amount * fee_den == fee_den * amount) by (nonlinear_arith);
}

/// The post-trade out-side reserve lies between zero and the pre-trade
/// reserve: the pool never pays out more than it holds, and the payout
/// subtraction never underflows.
pub proof fn lemma_quotient_le_reserve(reserve_in: int, reserve_out: int, net: int)
    requires
        0 <= reserve_in,
        0 <= reserve_out,
        0 <= net,
        0 < reserve_in + net,
    ensures
        0 <= swap_quotient(reserve_in, reserve_out, net) <= reserve_out,
{
    let k = reserve_in * reserve_out;
    assert(k >= 0) by (nonlinear_arith)
        requires
            0 <= reserve_in,
            0 <= reserve_out,
            k == reserve_in * reserve_out,
    ;
    lemma_div_pos_is_pos(k, reserve_in + net);
    if reserve_in == 0 {
        assert(k == 0) by (nonlinear_arith)
            requires
                reserve_in == 0,
                k == reserve_in * reserve_out,
        ;
        assert(k / (reserve_in + net) == 0);
    } else {
        lemma_div_is_ordered_by_denominator(k, reserve_in, reserve_in + net);
        lemma_div_multiples_vanish(reserve_out, reserve_in);
        assert(k == reserve_in * reserve_out);
    }
}

/// Raising the gross amount by one raises the fee by at most one (and never
/// lowers it), at a fee rate of at most one.
proof fn lemma_fee_step(amount: int, fee_num: int, fee_den: int)
    requires
        0 <= amount,
        0 <= fee_num <= fee_den,
        0 < fee_den,
    ensures
        fee_of(amount, fee_num, fee_den) <= fee_of(amount + 1, fee_num, fee_den) <= fee_of(
            amount,
            fee_num,
            fee_den,
        ) + 1,
{
    assert((amount + 1) * fee_num == amount * fee_num + fee_num) by (nonlinear_arith);
    lemma_div_is_ordered(amount * fee_num, amount * fee_num + fee_num, fee_den);
    lemma_div_is_ordered(amount * fee_num + fee_num, amount * fee_num + fee_den, fee_den);
    lemma_div_plus_one(amount * fee_num, fee_den);
}

/// The net (fee-deducted) amount is monotone in the gross amount, at a fee
/// rate of at most one.
pub proof fn lemma_net_monotonic(amount1: int, amount2: int, fee_num: int, fee_den: int)
    requires
        0 <= amount1 <= amount2,
        0 <= fee_num <= fee_den,
        0 < fee_den,
    ensures
        net_of(amount1, fee_num, fee_den) <= net_of(amount2, fee_num, fee_den),
    decreases amount2 - amount1,
{
    if amount1 < amount2 {
        lemma_net_monotonic(amount1, amount2 - 1, fee_num, fee_den);
        lemma_fee_step(amount2 - 1, fee_num, fee_den);
    }
}

/// A larger net deposit never yields a smaller payout, for fixed reserves.
pub proof fn lemma_output_monotonic_in_net(reserve_in: int, reserve_out: int, net1: int, net2: int)
    requires
        0 <= reserve_in,
        0 <= reserve_out,
        0 <= net1 <= net2,
        0 < reserve_in + net1,
    ensures
        swap_output(reserve_in, reserve_out, net1) <= swap_output(reserve_in, reserve_out, net2),
{
    let k = reserve_in * reserve_out;
    assert(k >= 0) by (nonlinear_arith)
        requires
            0 <= reserve_in,
            0 <= reserve_out,
            k == reserve_in * reserve_out,
    ;
    lemma_div_is_ordered_by_denominator(k, reserve_in + net1, reserve_in + net2);
}

/// How the product of the reserves moves across a trade. The reserves after
/// a trade with net deposit `net` are `(reserve_in + net, swap_quotient)`;
/// their product never exceeds the pre-trade product, and falls short of it
/// by less than the post-trade in-side reserve — the rounding loss of a
/// single floor division. When the post-trade in-side reserve divides the
/// pre-trade product exactly, the product is preserved.
pub proof fn lemma_product_after_trade(reserve_in: int, reserve_out: int, net: int)
    requires
        0 <= reserve_in,
        0 <= reserve_out,
        0 <= net,
        0 < reserve_in + net,
    ensures
        swap_quotient(reserve_in, reserve_out, net) * (reserve_in + net) <= reserve_in
            * reserve_out,
        reserve_in * reserve_out - swap_quotient(reserve_in, reserve_out, net) * (reserve_in + net)
            < reserve_in + net,
        (reserve_in * reserve_out) % (reserve_in + net) == 0 ==> swap_quotient(
            reserve_in,
            reserve_out,
            net,
        ) * (reserve_in + net) == reserve_in * reserve_out,
{
    let k = reserve_in * reserve_out;
    let m = reserve_in + net;
    assert(k >= 0) by (nonlinear_arith)
        requires
            0 <= reserve_in,
            0 <= reserve_out,
            k == reserve_in * reserve_out,
    ;
    lemma_fundamental_div_mod(k, m);
    lemma_mod_division_less_than_divisor(k, m);
    assert(m * (k / m) == (k / m) * m) by (nonlinear_arith);
}

} // verus!
