//! Laws of the market maker, stated and proved over the same spec
//! functions that the operations' contracts use.

use crate::math::{
    lemma_fee_le_amount, lemma_net_monotonic, lemma_output_monotonic_in_net,
    lemma_product_after_trade, lemma_quotient_le_reserve, net_of, receive_amount, receive_ok,
    swap_quotient,
};
use crate::types::Balance;
use vstd::arithmetic::div_mod::lemma_div_pos_is_pos;
use vstd::prelude::*;

verus! {

/// A zero spent amount receives zero, for every pair of reserves and every
/// fee rate: the swap engine charges nothing and pays nothing.
pub proof fn lemma_zero_amount_receives_zero(
    reserve_in: int,
    reserve_out: int,
    fee_num: int,
    fee_den: int,
)
    ensures
        receive_amount(reserve_in, reserve_out, 0, fee_num, fee_den) == 0,
{
}

/// How the product of the reserves moves across a successful trade of a
/// nonzero amount. A buy moves the pool's reserves from
/// `(base, quote) == (reserve_out, reserve_in)` to
/// `(reserve_out - receive, reserve_in + net)`, and a sell does the same
/// with the roles swapped, so the product of the reserves after the trade
/// is `(reserve_out - receive) * (reserve_in + net)`. That product never
/// exceeds the pre-trade product; it falls short of it by less than the
/// grown in-side reserve (the rounding loss of one floor division); and it
/// equals the pre-trade product — in particular, does not decrease —
/// whenever the grown in-side reserve divides the pre-trade product.
pub proof fn lemma_trade_constant_product(
    reserve_in: int,
    reserve_out: int,
    amount: int,
    fee_num: int,
    fee_den: int,
)
    requires
        0 <= reserve_in,
        0 <= reserve_out,
        0 < amount,
        0 <= fee_num,
        receive_ok(reserve_in, reserve_out, amount, fee_num, fee_den),
    ensures
        ({
            let net = net_of(amount, fee_num, fee_den);
            let receive = receive_amount(reserve_in, reserve_out, amount, fee_num, fee_den);
            let product_after = (reserve_out - receive) * (reserve_in + net);
            &&& product_after <= reserve_in * reserve_out
            &&& reserve_in * reserve_out - product_after < reserve_in + net
            &&& (reserve_in * reserve_out) % (reserve_in + net) == 0 ==> product_after == reserve_in
                * reserve_out
        }),
{
    let net = net_of(amount, fee_num, fee_den);
    lemma_div_pos_is_pos(amount * fee_num, fee_den);
    assert(amount * fee_num >= 0) by (nonlinear_arith)
        requires
            0 <= amount,
            0 <= fee_num,
    ;
    assert(net >= 0);
    let receive = receive_amount(reserve_in, reserve_out, amount, fee_num, fee_den);
    assert(reserve_out - receive == swap_quotient(reserve_in, reserve_out, net));
    lemma_product_after_trade(reserve_in, reserve_out, net);
}

/// The swap engine is monotone in the spent amount, for fixed valid
/// reserves and a fee rate of at most one: whenever the engine succeeds on
/// the larger amount it succeeds on the smaller one, the smaller amount
/// never receives more, and no amount ever receives more than the out-side
/// reserve.
pub proof fn lemma_receive_monotonic(
    reserve_in: int,
    reserve_out: int,
    amount1: int,
    amount2: int,
    fee_num: int,
    fee_den: int,
)
    requires
        1 <= reserve_in,
        0 <= reserve_out,
        0 <= amount1 <= amount2,
        0 <= fee_num <= fee_den,
        0 < fee_den,
        amount2 == 0 || receive_ok(reserve_in, reserve_out, amount2, fee_num, fee_den),
    ensures
        amount1 == 0 || receive_ok(reserve_in, reserve_out, amount1, fee_num, fee_den),
        receive_amount(reserve_in, reserve_out, amount1, fee_num, fee_den) <= receive_amount(
            reserve_in,
            reserve_out,
            amount2,
            fee_num,
            fee_den,
        ),
        0 <= receive_amount(reserve_in, reserve_out, amount2, fee_num, fee_den) <= reserve_out,
{
    if amount2 == 0 {
        assert(amount1 == 0);
    } else {
        let net1 = net_of(amount1, fee_num, fee_den);
        let net2 = net_of(amount2, fee_num, fee_den);
        lemma_fee_le_amount(amount1, fee_num, fee_den);
        lemma_fee_le_amount(amount2, fee_num, fee_den);
        lemma_net_monotonic(amount1, amount2, fee_num, fee_den);
        assert(amount1 * fee_num <= amount2 * fee_num) by (nonlinear_arith)
            requires
                0 <= amount1 <= amount2,
                0 <= fee_num,
        ;
        if amount1 > 0 {
            assert(receive_ok(reserve_in, reserve_out, amount1, fee_num, fee_den));
        }
        lemma_quotient_le_reserve(reserve_in, reserve_out, net2);
        if amount1 == 0 {
            assert(receive_amount(reserve_in, reserve_out, amount1, fee_num, fee_den) == 0);
        } else {
            lemma_output_monotonic_in_net(reserve_in, reserve_out, net1, net2);
        }
    }
}

/// A deposit followed by a withdrawal of the same amounts restores the
/// provider's liquidity position and the pool's reserves, absent
/// intervening trades. The two hypotheses are what the contracts of
/// `deposit_liquidity` and `withdraw_liquidity` guarantee of the position
/// (and likewise of the reserves) across two successful calls.
pub proof fn lemma_deposit_withdraw_roundtrip(
    before: (Balance, Balance),
    deposited: (Balance, Balance),
    withdrawn: (Balance, Balance),
    base_amount: Balance,
    quote_amount: Balance,
)
    requires
        before.0 + base_amount <= u128::MAX,
        before.1 + quote_amount <= u128::MAX,
        deposited == (((before.0 + base_amount) as Balance), ((before.1 + quote_amount) as Balance)),
        withdrawn == (
            ((deposited.0 - base_amount) as Balance),
            ((deposited.1 - quote_amount) as Balance),
        ),
    ensures
        withdrawn == before,
{
}

} // verus!
