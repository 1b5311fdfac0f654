//! Conservation of value: across deposits and swaps, what a pool holds plus
//! what it has paid out equals what it started with plus what was paid in, for
//! every denomination. A swap credits the whole amount offered, so any excess
//! over the price stays in the pool.
use vstd::prelude::*;

use crate::coin::CoinV;
use crate::contract::{add_funds_outcome, swap_outcome, with_reserves};
use crate::error::ContractError;
use crate::state::{contains_id, lemma_lookup, lemma_replace, lookup, registry_wf, PoolModel};
use crate::engine::{
    all_known, credit, deposit_result, deposited, distinct_denoms, first_slot, has_denom, lemma_first_slot,
    price_of, swap_result,
};

verus! {

/// The total amount of denomination `d` in `h`.
pub open spec fn total(h: Seq<CoinV>, d: Seq<char>) -> int
    decreases h.len(),
{
    if h.len() == 0 {
        0
    } else {
        total(h.drop_last(), d) + if h.last().0 == d {
            h.last().1 as int
        } else {
            0
        }
    }
}

proof fn lemma_total_one(x: Seq<CoinV>, d: Seq<char>)
    requires
        x.len() == 1,
    ensures
        total(x, d) == if x[0].0 == d { x[0].1 as int } else { 0 },
{
    assert(x.drop_last().len() == 0);
    reveal_with_fuel(total, 2);
}

proof fn lemma_total_two(x: Seq<CoinV>, d: Seq<char>)
    requires
        x.len() == 2,
    ensures
        total(x, d) == (if x[0].0 == d { x[0].1 as int } else { 0 }) + (if x[1].0 == d {
            x[1].1 as int
        } else {
            0
        }),
{
    lemma_total_one(x.drop_last(), d);
    assert(x.drop_last()[0] == x[0]);
}

/// A deposit into a two-reserve pool adds to each denomination exactly what
/// was deposited of it, and the pool keeps two reserves.
pub proof fn deposit_conserves(h: Seq<CoinV>, funds: Seq<CoinV>, d: Seq<char>)
    requires
        h.len() == 2,
        deposit_result(h, funds) is Ok,
    ensures
        deposit_result(h, funds)->Ok_0.len() == 2,
        total(deposit_result(h, funds)->Ok_0, d) == total(h, d) + total(funds, d),
{
    let h2 = deposit_result(h, funds)->Ok_0;
    assert(has_denom(h, funds[0].0));
    assert(has_denom(h, funds[1].0));
    lemma_first_slot(h, funds[0].0);
    lemma_first_slot(h, funds[1].0);
    let s0 = first_slot(h, funds[0].0);
    let s1 = first_slot(h, funds[1].0);
    assert(s0 != s1);
    assert(funds.drop_last().last() == funds[0]);
    assert(funds.drop_last().drop_last().len() == 0);
    assert(credit(h, funds, s1) == Some(funds[1].1));
    assert(credit(h, funds.drop_last(), s0) == Some(funds[0].1));
    assert(credit(h, funds, s0) == Some(funds[0].1));
    lemma_total_two(h, d);
    lemma_total_two(h2, d);
    lemma_total_two(funds, d);
}

/// The order in which two coins are deposited does not matter: both orders
/// are refused with the same error, or both give the same reserves.
pub proof fn deposit_order_irrelevant(h: Seq<CoinV>, funds: Seq<CoinV>)
    requires
        h.len() == 2,
        funds.len() == 2,
    ensures
        deposit_result(h, funds) == deposit_result(h, seq![funds[1], funds[0]]),
{
    let rev = seq![funds[1], funds[0]];
    assert(distinct_denoms(funds) == distinct_denoms(rev));
    assert(all_known(h, funds) == all_known(h, rev)) by {
        if all_known(h, funds) {
            assert(has_denom(h, rev[0].0) && has_denom(h, rev[1].0));
        }
        if all_known(h, rev) {
            assert(has_denom(h, funds[0].0) && has_denom(h, funds[1].0));
        }
    }
    if distinct_denoms(funds) && all_known(h, funds) {
        assert(has_denom(h, funds[0].0));
        assert(has_denom(h, funds[1].0));
        lemma_first_slot(h, funds[0].0);
        lemma_first_slot(h, funds[1].0);
        assert(funds.drop_last().last() == funds[0]);
        assert(funds.drop_last().drop_last().len() == 0);
        assert(rev.drop_last().last() == funds[1]);
        assert(rev.drop_last().drop_last().len() == 0);
        assert(first_slot(h, funds[0].0) != first_slot(h, funds[1].0));
        assert(rev.last() == funds[0]);
        assert(funds.last() == funds[1]);
        assert forall|i: int| credit(h, funds, i) == credit(h, rev, i) by {
            assert(credit(h, funds.drop_last().drop_last(), i) == None::<u128>);
            assert(credit(h, rev.drop_last().drop_last(), i) == None::<u128>);
            reveal_with_fuel(credit, 3);
        }
        assert(deposit_result(h, funds) == deposit_result(h, rev)) by {
            assert(deposited(h, funds) =~= deposited(h, rev));
        }
    }
}

/// A swap against a two-reserve pool keeps, for every denomination, the
/// reserves plus the payout equal to the reserves before plus the coin offered,
/// and the pool keeps two reserves.
/// The price charged was at most what was offered: the difference stays in the
/// pool.
pub proof fn swap_conserves(h: Seq<CoinV>, offered: Seq<CoinV>, ask: CoinV, d: Seq<char>)
    requires
        h.len() == 2,
        swap_result(h, offered, ask) is Ok,
    ensures
        swap_result(h, offered, ask)->Ok_0.len() == 2,
        total(swap_result(h, offered, ask)->Ok_0, d) + (if ask.0 == d {
            ask.1 as int
        } else {
            0
        }) == total(h, d) + total(offered, d),
        price_of(h, ask.0, offered[0].0) is Some,
        ask.1 * price_of(h, ask.0, offered[0].0)->Some_0 <= offered[0].1,
{
    let h3 = swap_result(h, offered, ask)->Ok_0;
    lemma_first_slot(h, ask.0);
    lemma_first_slot(h, offered[0].0);
    lemma_total_two(h, d);
    lemma_total_two(h3, d);
    lemma_total_one(offered, d);
}

/// One operation on a pool's reserves: a deposit of some coins, or a swap
/// paying out the asked coin for the coins offered.
pub enum PoolOp {
    Deposit(Seq<CoinV>),
    Swap(Seq<CoinV>, CoinV),
}

/// The reserves after one operation, or `None` where it is refused.
pub open spec fn step(h: Seq<CoinV>, op: PoolOp) -> Option<Seq<CoinV>> {
    match op {
        PoolOp::Deposit(funds) => match deposit_result(h, funds) {
            Ok(h2) => Some(h2),
            Err(_) => None,
        },
        PoolOp::Swap(offered, ask) => match swap_result(h, offered, ask) {
            Ok(h2) => Some(h2),
            Err(_) => None,
        },
    }
}

/// The reserves after a sequence of operations, or `None` if one is refused.
pub open spec fn run(h: Seq<CoinV>, ops: Seq<PoolOp>) -> Option<Seq<CoinV>>
    decreases ops.len(),
{
    if ops.len() == 0 {
        Some(h)
    } else {
        match run(h, ops.drop_last()) {
            Some(h1) => step(h1, ops.last()),
            None => None,
        }
    }
}

/// What the operations paid into the pool of denomination `d`.
pub open spec fn paid_in(ops: Seq<PoolOp>, d: Seq<char>) -> int
    decreases ops.len(),
{
    if ops.len() == 0 {
        0
    } else {
        paid_in(ops.drop_last(), d) + match ops.last() {
            PoolOp::Deposit(funds) => total(funds, d),
            PoolOp::Swap(offered, _) => total(offered, d),
        }
    }
}

/// What the operations paid out of the pool of denomination `d`.
pub open spec fn paid_out(ops: Seq<PoolOp>, d: Seq<char>) -> int
    decreases ops.len(),
{
    if ops.len() == 0 {
        0
    } else {
        paid_out(ops.drop_last(), d) + match ops.last() {
            PoolOp::Deposit(_) => 0,
            PoolOp::Swap(_, ask) => if ask.0 == d {
                ask.1 as int
            } else {
                0
            },
        }
    }
}

/// Over any sequence of accepted deposits and swaps on a two-reserve pool, for
/// every denomination, the final reserves plus everything paid out equal the
/// first reserves plus everything paid in.
pub proof fn run_conserves(h: Seq<CoinV>, ops: Seq<PoolOp>, d: Seq<char>)
    requires
        h.len() == 2,
        run(h, ops) is Some,
    ensures
        run(h, ops)->Some_0.len() == 2,
        total(run(h, ops)->Some_0, d) + paid_out(ops, d) == total(h, d) + paid_in(ops, d),
    decreases ops.len(),
{
    if ops.len() > 0 {
        let prefix = ops.drop_last();
        run_conserves(h, prefix, d);
        let h1 = run(h, prefix)->Some_0;
        assert(ops.last() == ops[ops.len() - 1]);
        match ops.last() {
            PoolOp::Deposit(funds) => {
                deposit_conserves(h1, funds, d);
            },
            PoolOp::Swap(offered, ask) => {
                swap_conserves(h1, offered, ask, d);
            },
        }
    }
}

/// The registry after running `op` as a command on pool `id`: an `AddFunds`
/// of the deposited coins, or a `SwapTokens` paying out the asked coin for the
/// coins offered.
pub open spec fn command_outcome(s: Seq<PoolModel>, id: Seq<char>, op: PoolOp) -> Result<
    Seq<PoolModel>,
    ContractError,
> {
    match op {
        PoolOp::Deposit(funds) => add_funds_outcome(s, funds, id),
        PoolOp::Swap(offered, ask) => swap_outcome(s, offered, id, ask),
    }
}

/// The registry after a history of commands on pool `id`, or `None` if one of
/// them was refused.
pub open spec fn history(s: Seq<PoolModel>, id: Seq<char>, ops: Seq<PoolOp>) -> Option<
    Seq<PoolModel>,
>
    decreases ops.len(),
{
    if ops.len() == 0 {
        Some(s)
    } else {
        match history(s, id, ops.drop_last()) {
            Some(s1) => match command_outcome(s1, id, ops.last()) {
                Ok(s2) => Some(s2),
                Err(_) => None,
            },
            None => None,
        }
    }
}

/// Over any history of accepted deposit and swap commands on pool `id` of a
/// well-formed registry, for every denomination, the pool's final reserves plus
/// everything paid out equal its first reserves plus everything paid in. The
/// pool's reserves are those that the same operations give on its reserves alone.
pub proof fn history_conserves(s: Seq<PoolModel>, id: Seq<char>, ops: Seq<PoolOp>, d: Seq<char>)
    requires
        registry_wf(s),
        contains_id(s, id),
        history(s, id, ops) is Some,
    ensures
        registry_wf(history(s, id, ops)->Some_0),
        contains_id(history(s, id, ops)->Some_0, id),
        run(lookup(s, id).reserves, ops) == Some(lookup(history(s, id, ops)->Some_0, id).reserves),
        total(lookup(history(s, id, ops)->Some_0, id).reserves, d) + paid_out(ops, d) == total(
            lookup(s, id).reserves,
            d,
        ) + paid_in(ops, d),
    decreases ops.len(),
{
    lemma_lookup(s, id);
    if ops.len() > 0 {
        let prefix = ops.drop_last();
        history_conserves(s, id, prefix, d);
        let s1 = history(s, id, prefix)->Some_0;
        lemma_lookup(s1, id);
        let p1 = lookup(s1, id);
        match ops.last() {
            PoolOp::Deposit(funds) => {
                deposit_conserves(p1.reserves, funds, d);
                lemma_replace(s1, id, with_reserves(p1, deposit_result(p1.reserves, funds)->Ok_0));
            },
            PoolOp::Swap(offered, ask) => {
                swap_conserves(p1.reserves, offered, ask, d);
                lemma_replace(
                    s1,
                    id,
                    with_reserves(p1, swap_result(p1.reserves, offered, ask)->Ok_0),
                );
            },
        }
    }
    run_conserves(lookup(s, id).reserves, ops, d);
}

} // verus!
