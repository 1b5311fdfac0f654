//! The pool engine: what deposits and swaps do to a pool's reserves.
use vstd::prelude::*;

use crate::coin::{duplicate_all, holdings, Coin, CoinV};
use crate::error::ContractError;

verus! {

/// Some slot of `h` holds denomination `d`.
pub open spec fn has_denom(h: Seq<CoinV>, d: Seq<char>) -> bool {
    exists|i: int| 0 <= i < h.len() && h[i].0 == d
}

/// Slot `i` is the first slot of `h` that holds denomination `d`.
pub open spec fn is_first_slot(h: Seq<CoinV>, d: Seq<char>, i: int) -> bool {
    &&& 0 <= i < h.len()
    &&& h[i].0 == d
    &&& forall|j: int| 0 <= j < i ==> h[j].0 != d
}

/// The slot that an incoming coin of denomination `d` is matched against.
pub open spec fn first_slot(h: Seq<CoinV>, d: Seq<char>) -> int {
    choose|i: int| is_first_slot(h, d, i)
}

proof fn lemma_least_slot(h: Seq<CoinV>, d: Seq<char>, i: int)
    requires
        0 <= i < h.len(),
        h[i].0 == d,
    ensures
        exists|k: int| is_first_slot(h, d, k),
    decreases i,
{
    if exists|j: int| 0 <= j < i && h[j].0 == d {
        let j = choose|j: int| 0 <= j < i && h[j].0 == d;
        lemma_least_slot(h, d, j);
    } else {
        assert(is_first_slot(h, d, i));
    }
}

/// A denomination that `h` holds has a first slot, and only one.
pub proof fn lemma_first_slot(h: Seq<CoinV>, d: Seq<char>)
    requires
        has_denom(h, d),
    ensures
        is_first_slot(h, d, first_slot(h, d)),
        forall|i: int| is_first_slot(h, d, i) ==> i == first_slot(h, d),
{
    let i = choose|i: int| 0 <= i < h.len() && h[i].0 == d;
    lemma_least_slot(h, d, i);
    let f = first_slot(h, d);
    assert forall|i: int| is_first_slot(h, d, i) implies i == f by {
        if i < f {
            assert(h[i].0 == d);
        } else if f < i {
            assert(h[f].0 == d);
        }
    }
}

/// Finds the first slot of `coins` holding `denom`.
pub fn find_slot(coins: &Vec<Coin>, denom: &String) -> (r: Option<usize>)
    ensures
        match r {
            Some(i) => has_denom(holdings(coins@), denom@) && i as int == first_slot(
                holdings(coins@),
                denom@,
            ) && is_first_slot(holdings(coins@), denom@, i as int),
            None => !has_denom(holdings(coins@), denom@),
        },
{
    let ghost h = holdings(coins@);
    let mut i: usize = 0;
    while i < coins.len()
        invariant
            i <= coins.len(),
            h == holdings(coins@),
            forall|j: int| 0 <= j < i ==> h[j].0 != denom@,
        decreases coins.len() - i,
    {
        if coins[i].denom == *denom {
            proof {
                assert(is_first_slot(h, denom@, i as int));
                lemma_first_slot(h, denom@);
            }
            return Some(i);
        }
        i = i + 1;
    }
    None
}

/// The amount of the last slot of `h` holding `d`, or zero if none does.
pub open spec fn amount_of(h: Seq<CoinV>, d: Seq<char>) -> u128
    decreases h.len(),
{
    if h.len() == 0 {
        0
    } else if h.last().0 == d {
        h.last().1
    } else {
        amount_of(h.drop_last(), d)
    }
}

/// The price of one unit of `d1` in units of `d2`: the reserve of `d2` divided
/// by the reserve of `d1`, rounded down; `None` where the reserve of `d1` is
/// empty.
pub open spec fn price_of(h: Seq<CoinV>, d1: Seq<char>, d2: Seq<char>) -> Option<u128> {
    let t1 = amount_of(h, d1);
    let t2 = amount_of(h, d2);
    if t1 == 0 {
        None
    } else {
        Some((t2 / t1) as u128)
    }
}

/// Computes the price of one unit of `denom1` in units of `denom2`.
pub fn price(coins: &Vec<Coin>, denom1: &String, denom2: &String) -> (r: Option<u128>)
    ensures
        r == price_of(holdings(coins@), denom1@, denom2@),
{
    let ghost h = holdings(coins@);
    let mut t1: u128 = 0;
    let mut t2: u128 = 0;
    let mut i: usize = 0;
    while i < coins.len()
        invariant
            i <= coins.len(),
            h == holdings(coins@),
            t1 == amount_of(h.take(i as int), denom1@),
            t2 == amount_of(h.take(i as int), denom2@),
        decreases coins.len() - i,
    {
        proof {
            assert(h.take(i as int + 1).drop_last() =~= h.take(i as int));
            assert(h.take(i as int + 1).last() == h[i as int]);
        }
        if coins[i].denom == *denom1 {
            t1 = coins[i].amount;
        }
        if coins[i].denom == *denom2 {
            t2 = coins[i].amount;
        }
        i = i + 1;
    }
    proof {
        assert(h.take(coins@.len() as int) =~= h);
    }
    t2.checked_div(t1)
}


/// What a fallible step yields, seen through the coins' views.
pub open spec fn outcome(r: Result<Vec<Coin>, ContractError>) -> Result<Seq<CoinV>, ContractError> {
    match r {
        Ok(v) => Ok(holdings(v@)),
        Err(e) => Err(e),
    }
}

/// The amount that a deposit of `funds` credits to slot `i` of `h`: that of the
/// coin matched to slot `i`, if any. Deposits name each denomination at most
/// once, so at most one coin matches a slot.
pub open spec fn credit(h: Seq<CoinV>, funds: Seq<CoinV>, i: int) -> Option<u128>
    decreases funds.len(),
{
    if funds.len() == 0 {
        None
    } else if first_slot(h, funds.last().0) == i {
        Some(funds.last().1)
    } else {
        credit(h, funds.drop_last(), i)
    }
}

/// The credit of slot `i` as a number, zero where nothing is credited.
pub open spec fn credited(h: Seq<CoinV>, funds: Seq<CoinV>, i: int) -> int {
    match credit(h, funds, i) {
        Some(a) => a as int,
        None => 0,
    }
}

/// No two coins of `f` share a denomination.
pub open spec fn distinct_denoms(f: Seq<CoinV>) -> bool {
    forall|i: int, j: int| 0 <= i < j < f.len() ==> f[i].0 != f[j].0
}

/// Every coin of `funds` has a denomination that `h` holds.
pub open spec fn all_known(h: Seq<CoinV>, funds: Seq<CoinV>) -> bool {
    forall|j: int| 0 <= j < funds.len() ==> has_denom(h, #[trigger] funds[j].0)
}

/// No slot leaves the range of `u128` when credited.
pub open spec fn deposit_fits(h: Seq<CoinV>, funds: Seq<CoinV>) -> bool {
    forall|i: int| 0 <= i < h.len() ==> #[trigger] h[i].1 + credited(h, funds, i) <= u128::MAX
}

/// The reserves after each slot is credited.
pub open spec fn deposited(h: Seq<CoinV>, funds: Seq<CoinV>) -> Seq<CoinV> {
    Seq::new(h.len(), |i: int| (h[i].0, (h[i].1 + credited(h, funds, i)) as u128))
}

/// A deposit of `funds` into reserves `h`: one coin for each slot, no
/// denomination twice, each of a denomination the pool holds, and no amount
/// overflowing.
pub open spec fn deposit_result(h: Seq<CoinV>, funds: Seq<CoinV>) -> Result<
    Seq<CoinV>,
    ContractError,
> {
    if funds.len() != h.len() || !distinct_denoms(funds) || !all_known(h, funds) {
        Err(ContractError::FundsMismatched {  })
    } else if !deposit_fits(h, funds) {
        Err(ContractError::Overflow {  })
    } else {
        Ok(deposited(h, funds))
    }
}

/// Matches every coin of `funds` to a slot of `coins` first, then credits the
/// slots, so that a mismatch leaves nothing half done.
pub fn deposit(coins: &Vec<Coin>, funds: &Vec<Coin>) -> (r: Result<Vec<Coin>, ContractError>)
    ensures
        outcome(r) == deposit_result(holdings(coins@), holdings(funds@)),
        r is Ok ==> r->Ok_0@.len() == coins@.len(),
{
    let ghost h = holdings(coins@);
    let ghost fv = holdings(funds@);
    if funds.len() != coins.len() {
        return Err(ContractError::FundsMismatched {  });
    }
    let mut pending: Vec<Option<u128>> = Vec::new();
    let mut k: usize = 0;
    while k < coins.len()
        invariant
            k <= coins.len(),
            pending@.len() == k,
            forall|i: int| 0 <= i < k ==> pending@[i] == None::<u128>,
        decreases coins.len() - k,
    {
        pending.push(None);
        k = k + 1;
    }
    let mut j: usize = 0;
    while j < funds.len()
        invariant
            j <= funds.len(),
            h == holdings(coins@),
            fv == holdings(funds@),
            pending@.len() == h.len(),
            forall|i: int| 0 <= i < h.len() ==> pending@[i] == credit(h, fv.take(j as int), i),
            forall|jj: int| 0 <= jj < j ==> has_denom(h, #[trigger] fv[jj].0),
            distinct_denoms(fv.take(j as int)),
        decreases funds.len() - j,
    {
        let mut k: usize = 0;
        while k < j
            invariant
                k <= j < funds.len(),
                fv == holdings(funds@),
                forall|kk: int| 0 <= kk < k ==> fv[kk].0 != fv[j as int].0,
            decreases j - k,
        {
            if funds[k].denom == funds[j].denom {
                proof {
                    assert(fv[k as int].0 == fv[j as int].0);
                    assert(!distinct_denoms(fv));
                }
                return Err(ContractError::FundsMismatched {  });
            }
            k = k + 1;
        }
        proof {
            let pre = fv.take(j as int);
            let next = fv.take(j as int + 1);
            assert(next =~= pre.push(fv[j as int]));
            assert forall|x: int, y: int| 0 <= x < y < next.len() implies #[trigger] next[x].0
                != #[trigger] next[y].0 by {
                if y < j {
                    assert(pre[x] == next[x] && pre[y] == next[y]);
                }
            }
        }
        match find_slot(coins, &funds[j].denom) {
            None => {
                proof {
                    assert(fv[j as int].0 == funds@[j as int].denom@);
                    assert(!all_known(h, fv));
                }
                return Err(ContractError::FundsMismatched {  });
            },
            Some(s) => {
                pending.set(s, Some(funds[j].amount));
                proof {
                    assert(fv.take(j as int + 1).drop_last() =~= fv.take(j as int));
                    assert(fv.take(j as int + 1).last() == fv[j as int]);
                }
            },
        }
        j = j + 1;
    }
    proof {
        assert(fv.take(funds@.len() as int) =~= fv);
    }
    assert(distinct_denoms(fv));
    let mut out: Vec<Coin> = Vec::new();
    let mut i: usize = 0;
    while i < coins.len()
        invariant
            i <= coins.len(),
            h == holdings(coins@),
            pending@.len() == h.len(),
            forall|k: int| 0 <= k < h.len() ==> pending@[k] == credit(h, fv, k),
            fv == holdings(funds@),
            funds.len() == coins.len(),
            all_known(h, fv),
            distinct_denoms(fv),
            out@.len() == i,
            forall|k: int| 0 <= k < i ==> (#[trigger] out@[k])@ == deposited(h, fv)[k],
            forall|k: int| 0 <= k < i ==> #[trigger] h[k].1 + credited(h, fv, k) <= u128::MAX,
        decreases coins.len() - i,
    {
        let add: u128 = match pending[i] {
            Some(a) => a,
            None => 0,
        };
        match coins[i].amount.checked_add(add) {
            None => {
                proof {
                    assert(h[i as int].1 + credited(h, fv, i as int) > u128::MAX);
                    assert(!deposit_fits(h, fv));
                }
                return Err(ContractError::Overflow {  });
            },
            Some(v) => {
                out.push(Coin { denom: coins[i].denom.clone(), amount: v });
            },
        }
        i = i + 1;
    }
    proof {
        assert(holdings(out@) =~= deposited(h, fv));
    }
    Ok(out)
}

/// A swap against reserves `h` that pays out `ask` for the coins `offered`.
/// Exactly one coin is offered; the pool must hold both denominations and at
/// least the amount asked; the price is taken from the reserves before the
/// swap; the whole offered amount is credited, even beyond the price.
pub open spec fn swap_result(h: Seq<CoinV>, offered: Seq<CoinV>, ask: CoinV) -> Result<
    Seq<CoinV>,
    ContractError,
> {
    if offered.len() != 1 {
        Err(ContractError::FundsMismatched {  })
    } else if !has_denom(h, ask.0) {
        Err(ContractError::FundsMismatched {  })
    } else if h[first_slot(h, ask.0)].1 < ask.1 {
        Err(ContractError::InsufficientFunds {  })
    } else if !has_denom(h, offered[0].0) {
        Err(ContractError::FundsMismatched {  })
    } else {
        match price_of(h, ask.0, offered[0].0) {
            None => Err(ContractError::DivideByZero {  }),
            Some(p) => {
                let t = first_slot(h, offered[0].0);
                let g = first_slot(h, ask.0);
                if ask.1 * p > u128::MAX {
                    Err(ContractError::Overflow {  })
                } else if ask.1 * p > offered[0].1 {
                    Err(ContractError::InsufficientFunds {  })
                } else if h[t].1 + offered[0].1 > u128::MAX {
                    Err(ContractError::Overflow {  })
                } else {
                    let h2 = h.update(t, (h[t].0, (h[t].1 + offered[0].1) as u128));
                    Ok(h2.update(g, (h2[g].0, (h2[g].1 - ask.1) as u128)))
                }
            },
        }
    }
}

/// Computes the reserves after a swap, or why it is refused.
pub fn swap(coins: &Vec<Coin>, offered: &Vec<Coin>, ask: &Coin) -> (r: Result<
    Vec<Coin>,
    ContractError,
>)
    ensures
        outcome(r) == swap_result(holdings(coins@), holdings(offered@), ask@),
        r is Ok ==> r->Ok_0@.len() == coins@.len(),
{
    let ghost h = holdings(coins@);
    if offered.len() != 1 {
        return Err(ContractError::FundsMismatched {  });
    }
    let g = match find_slot(coins, &ask.denom) {
        None => {
            return Err(ContractError::FundsMismatched {  });
        },
        Some(g) => g,
    };
    if coins[g].amount < ask.amount {
        return Err(ContractError::InsufficientFunds {  });
    }
    let t = match find_slot(coins, &offered[0].denom) {
        None => {
            return Err(ContractError::FundsMismatched {  });
        },
        Some(t) => t,
    };
    let p = match price(coins, &ask.denom, &offered[0].denom) {
        None => {
            return Err(ContractError::DivideByZero {  });
        },
        Some(p) => p,
    };
    let cost = match ask.amount.checked_mul(p) {
        None => {
            return Err(ContractError::Overflow {  });
        },
        Some(c) => c,
    };
    if cost > offered[0].amount {
        return Err(ContractError::InsufficientFunds {  });
    }
    let added = match coins[t].amount.checked_add(offered[0].amount) {
        None => {
            return Err(ContractError::Overflow {  });
        },
        Some(a) => a,
    };
    let mut out = duplicate_all(coins);
    let ghost h2 = h.update(t as int, (h[t as int].0, added));
    out.set(t, Coin { denom: coins[t].denom.clone(), amount: added });
    assert(holdings(out@) =~= h2);
    let remaining = out[g].amount - ask.amount;
    let denom = out[g].denom.clone();
    out.set(g, Coin { denom, amount: remaining });
    assert(holdings(out@) =~= h2.update(g as int, (h2[g as int].0, remaining)));
    Ok(out)
}

} // verus!
