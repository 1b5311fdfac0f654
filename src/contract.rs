//! Entry points: each command is checked against the pool it names, and the
//! registry is written only when the command succeeds.
use vstd::prelude::*;

use crate::coin::{decimal, decimal_string, duplicate_all, holdings, Coin, CoinV};
use crate::engine::{deposit, deposit_result, price, price_of, swap, swap_result};
use crate::error::ContractError;
use crate::msg::{ExecuteMsg, FundsResponse, InstantiateMsg, PriceResponse, QueryMsg, QueryResponse};
use crate::state::{contains_id, index_of, lemma_lookup, lookup, Pool, PoolModel, Registry};

verus! {

/// Who sent a command, and the coins sent along with it.
pub struct MessageInfo {
    pub sender: String,
    pub funds: Vec<Coin>,
}

/// A transfer that the host is asked to make once the command is committed.
pub enum BankMsg {
    Send { to_address: String, amount: Vec<Coin> },
}

/// A key and a value describing what a command did.
pub struct Attribute {
    pub key: String,
    pub value: String,
}

/// What a successful command asks of the host.
pub struct Response {
    pub messages: Vec<BankMsg>,
    pub attributes: Vec<Attribute>,
}

/// A transfer as a recipient and the coins sent.
pub open spec fn transfer_view(m: BankMsg) -> (Seq<char>, Seq<CoinV>) {
    match m {
        BankMsg::Send { to_address, amount } => (to_address@, holdings(amount@)),
    }
}

/// The transfers that a response requests.
pub open spec fn transfers(r: Response) -> Seq<(Seq<char>, Seq<CoinV>)> {
    r.messages@.map_values(|m: BankMsg| transfer_view(m))
}

/// An attribute as its key and its value.
pub open spec fn attribute_view(a: Attribute) -> (Seq<char>, Seq<char>) {
    (a.key@, a.value@)
}

/// A sequence of attributes as keys and values.
pub open spec fn attribute_views(s: Seq<Attribute>) -> Seq<(Seq<char>, Seq<char>)> {
    s.map_values(|a: Attribute| attribute_view(a))
}

/// The attributes of a response, in their order.
pub open spec fn attributes_of(r: Response) -> Seq<(Seq<char>, Seq<char>)> {
    attribute_views(r.attributes@)
}

/// An amount and a denomination attribute for each coin deposited.
pub open spec fn coin_attributes(funds: Seq<CoinV>) -> Seq<(Seq<char>, Seq<char>)>
    decreases funds.len(),
{
    if funds.len() == 0 {
        seq![]
    } else {
        coin_attributes(funds.drop_last()) + seq![
            ("amount"@, decimal(funds.last().1 as nat)),
            ("denom"@, funds.last().0),
        ]
    }
}

/// The attributes of a deposit into pool `id`.
pub open spec fn add_funds_attributes(id: Seq<char>, funds: Seq<CoinV>) -> Seq<
    (Seq<char>, Seq<char>),
> {
    seq![("pool_id"@, id), ("action"@, "add funds"@)] + coin_attributes(funds)
}

/// The attributes of a response that pays `to` for action `action`.
pub open spec fn payout_attributes(action: Seq<char>, to: Seq<char>) -> Seq<
    (Seq<char>, Seq<char>),
> {
    seq![("action"@, action), ("to"@, to)]
}

/// Pool `p` with its reserves replaced by `h`.
pub open spec fn with_reserves(p: PoolModel, h: Seq<CoinV>) -> PoolModel {
    PoolModel { reserves: h, ..p }
}

/// The registry after creating pool `name` from `funds`.
pub open spec fn create_outcome(s: Seq<PoolModel>, funds: Seq<CoinV>, name: Seq<char>) -> Result<
    Seq<PoolModel>,
    ContractError,
> {
    if funds.len() != 2 {
        Err(ContractError::FundsMismatched {  })
    } else if contains_id(s, name) {
        Err(ContractError::AlreadyInUse {  })
    } else {
        Ok(s.push(PoolModel { id: name, name, reserves: funds }))
    }
}

/// The registry after depositing `funds` into pool `id`.
pub open spec fn add_funds_outcome(s: Seq<PoolModel>, funds: Seq<CoinV>, id: Seq<char>) -> Result<
    Seq<PoolModel>,
    ContractError,
> {
    if !contains_id(s, id) {
        Err(ContractError::NotFound {  })
    } else {
        match deposit_result(lookup(s, id).reserves, funds) {
            Err(e) => Err(e),
            Ok(h) => Ok(s.update(index_of(s, id), with_reserves(lookup(s, id), h))),
        }
    }
}

/// The registry after a swap in pool `id` paying out `ask` for `funds`.
pub open spec fn swap_outcome(
    s: Seq<PoolModel>,
    funds: Seq<CoinV>,
    id: Seq<char>,
    ask: CoinV,
) -> Result<Seq<PoolModel>, ContractError> {
    if !contains_id(s, id) {
        Err(ContractError::NotFound {  })
    } else {
        match swap_result(lookup(s, id).reserves, funds, ask) {
            Err(e) => Err(e),
            Ok(h) => Ok(s.update(index_of(s, id), with_reserves(lookup(s, id), h))),
        }
    }
}

/// A command answered `r` and took the registry from `before` to `after` as
/// `o` says: on an error nothing changed.
pub open spec fn committed(
    r: Result<Response, ContractError>,
    before: Seq<PoolModel>,
    after: Seq<PoolModel>,
    o: Result<Seq<PoolModel>, ContractError>,
) -> bool {
    match o {
        Err(e) => r == Err::<Response, ContractError>(e) && after == before,
        Ok(s) => r is Ok && after == s,
    }
}

/// Setting up the library does nothing.
pub fn instantiate(_msg: InstantiateMsg) -> (r: Result<Response, ContractError>)
    ensures
        r is Ok,
        r->Ok_0.messages@.len() == 0,
        r->Ok_0.attributes@.len() == 0,
{
    Ok(Response { messages: Vec::new(), attributes: Vec::new() })
}

/// Runs one command against the registry.
pub fn execute(registry: &mut Registry, info: MessageInfo, msg: ExecuteMsg) -> (r: Result<
    Response,
    ContractError,
>)
    requires
        old(registry).wf(),
    ensures
        final(registry).wf(),
        match msg {
            ExecuteMsg::CreatePool { name } => committed(
                r,
                old(registry)@,
                final(registry)@,
                create_outcome(old(registry)@, holdings(info.funds@), name@),
            ) && (r is Ok ==> r->Ok_0.messages@.len() == 0 && r->Ok_0.attributes@.len() == 0),
            ExecuteMsg::AddFunds { pool_id } => committed(
                r,
                old(registry)@,
                final(registry)@,
                add_funds_outcome(old(registry)@, holdings(info.funds@), pool_id@),
            ) && (r is Ok ==> r->Ok_0.messages@.len() == 0 && attributes_of(r->Ok_0)
                == add_funds_attributes(pool_id@, holdings(info.funds@))),
            ExecuteMsg::SwapTokens { pool_id, amount } => committed(
                r,
                old(registry)@,
                final(registry)@,
                swap_outcome(old(registry)@, holdings(info.funds@), pool_id@, amount@),
            ) && (r is Ok ==> transfers(r->Ok_0) == seq![(info.sender@, seq![amount@])]
                && attributes_of(r->Ok_0) == payout_attributes("Swap"@, info.sender@)),
        },
{
    match msg {
        ExecuteMsg::CreatePool { name } => try_create(registry, info, name),
        ExecuteMsg::AddFunds { pool_id } => try_add_funds(registry, info, pool_id),
        ExecuteMsg::SwapTokens { pool_id, amount } => try_swap_tokens(
            registry,
            info,
            pool_id,
            amount,
        ),
    }
}

/// Creates a pool named `name` whose reserves are the two coins supplied, in
/// their order.
pub fn try_create(registry: &mut Registry, info: MessageInfo, name: String) -> (r: Result<
    Response,
    ContractError,
>)
    requires
        old(registry).wf(),
    ensures
        final(registry).wf(),
        committed(
            r,
            old(registry)@,
            final(registry)@,
            create_outcome(old(registry)@, holdings(info.funds@), name@),
        ),
        r is Ok ==> r->Ok_0.messages@.len() == 0 && r->Ok_0.attributes@.len() == 0,
{
    if info.funds.len() != 2 {
        return Err(ContractError::FundsMismatched {  });
    }
    let new_pool = Pool { id: name.clone(), name: name.clone(), coins: info.funds };
    match registry.create(new_pool) {
        Err(e) => Err(e),
        Ok(()) => Ok(Response { messages: Vec::new(), attributes: Vec::new() }),
    }
}

/// Deposits the coins supplied into pool `pool_id`: one coin for each
/// reserve, each of a denomination that the pool holds.
pub fn try_add_funds(registry: &mut Registry, info: MessageInfo, pool_id: String) -> (r: Result<
    Response,
    ContractError,
>)
    requires
        old(registry).wf(),
    ensures
        final(registry).wf(),
        committed(
            r,
            old(registry)@,
            final(registry)@,
            add_funds_outcome(old(registry)@, holdings(info.funds@), pool_id@),
        ),
        r is Ok ==> r->Ok_0.messages@.len() == 0,
        r is Ok ==> attributes_of(r->Ok_0) == add_funds_attributes(pool_id@, holdings(info.funds@)),
{
    let pool = registry.load(&pool_id)?;
    let coins = deposit(&pool.coins, &info.funds)?;
    let mut attributes: Vec<Attribute> = Vec::new();
    attributes.push(Attribute { key: "pool_id".to_owned(), value: pool_id.clone() });
    attributes.push(Attribute { key: "action".to_owned(), value: "add funds".to_owned() });
    let ghost fv = holdings(info.funds@);
    let ghost head = seq![("pool_id"@, pool_id@), ("action"@, "add funds"@)];
    assert(attribute_views(attributes@) =~= head + coin_attributes(
        fv.take(0),
    ));
    let mut j: usize = 0;
    while j < info.funds.len()
        invariant
            j <= info.funds.len(),
            fv == holdings(info.funds@),
            attribute_views(attributes@) == head + coin_attributes(
                fv.take(j as int),
            ),
        decreases info.funds.len() - j,
    {
        let ghost prev = attributes@;
        let amount_attr = Attribute {
            key: "amount".to_owned(),
            value: decimal_string(info.funds[j].amount),
        };
        let denom_attr = Attribute { key: "denom".to_owned(), value: info.funds[j].denom.clone() };
        let ghost pair = seq![attribute_view(amount_attr), attribute_view(denom_attr)];
        attributes.push(amount_attr);
        attributes.push(denom_attr);
        proof {
            assert(attribute_views(attributes@) =~= attribute_views(prev) + pair);
            assert(fv.take(j as int + 1).drop_last() =~= fv.take(j as int));
            assert(fv.take(j as int + 1).last() == fv[j as int]);
            assert(attribute_views(attributes@) =~= head
                + coin_attributes(fv.take(j as int + 1)));
        }
        j = j + 1;
    }
    assert(fv.take(fv.len() as int) =~= fv);
    let ghost h = holdings(coins@);
    proof {
        lemma_lookup(old(registry)@, pool_id@);
    }
    registry.save(Pool { id: pool.id, name: pool.name, coins });
    assert(with_reserves(lookup(old(registry)@, pool_id@), h) == (Pool { id: pool.id, name: pool.name, coins })@);
    Ok(Response { messages: Vec::new(), attributes })
}

/// Pays out `amount` from pool `pool_id` for the one coin supplied, priced by
/// the reserves before the swap.
pub fn try_swap_tokens(
    registry: &mut Registry,
    info: MessageInfo,
    pool_id: String,
    amount: Coin,
) -> (r: Result<Response, ContractError>)
    requires
        old(registry).wf(),
    ensures
        final(registry).wf(),
        committed(
            r,
            old(registry)@,
            final(registry)@,
            swap_outcome(old(registry)@, holdings(info.funds@), pool_id@, amount@),
        ),
        r is Ok ==> transfers(r->Ok_0) == seq![(info.sender@, seq![amount@])],
        r is Ok ==> attributes_of(r->Ok_0) == payout_attributes("Swap"@, info.sender@),
{
    let pool = registry.load(&pool_id)?;
    let coins = swap(&pool.coins, &info.funds, &amount)?;
    proof {
        lemma_lookup(old(registry)@, pool_id@);
    }
    registry.save(Pool { id: pool.id, name: pool.name, coins });
    let ghost ask = amount@;
    let mut payout: Vec<Coin> = Vec::new();
    payout.push(amount);
    assert(holdings(payout@) =~= seq![ask]);
    Ok(send_tokens(info.sender, payout, "Swap"))
}

/// A response asking the host to send `amount` to `to_address`.
fn send_tokens(to_address: String, amount: Vec<Coin>, action: &str) -> (r: Response)
    ensures
        transfers(r) == seq![(to_address@, holdings(amount@))],
        attributes_of(r) == payout_attributes(action@, to_address@),
{
    let mut attributes: Vec<Attribute> = Vec::new();
    attributes.push(Attribute { key: "action".to_owned(), value: action.to_owned() });
    attributes.push(Attribute { key: "to".to_owned(), value: to_address.clone() });
    let mut messages: Vec<BankMsg> = Vec::new();
    messages.push(BankMsg::Send { to_address, amount });
    let r = Response { messages, attributes };
    assert(transfers(r) =~= seq![(to_address@, holdings(amount@))]);
    assert(attributes_of(r) =~= payout_attributes(action@, to_address@));
    r
}

/// Answers a query.
pub fn query(registry: &Registry, msg: QueryMsg) -> (r: Result<QueryResponse, ContractError>)
    requires
        registry.wf(),
    ensures
        match msg {
            QueryMsg::GetFunds { id } => match r {
                Ok(QueryResponse::Funds(f)) => contains_id(registry@, id@) && holdings(f.funds@)
                    == lookup(registry@, id@).reserves,
                Ok(_) => false,
                Err(e) => !contains_id(registry@, id@) && e == ContractError::NotFound {  },
            },
            QueryMsg::GetPrice { pool_id, denom1, denom2 } => match r {
                Ok(QueryResponse::Price(p)) => Ok::<PriceResponse, ContractError>(p)
                    == price_outcome(registry@, pool_id@, denom1@, denom2@),
                Ok(_) => false,
                Err(e) => Err::<PriceResponse, ContractError>(e) == price_outcome(
                    registry@,
                    pool_id@,
                    denom1@,
                    denom2@,
                ),
            },
        },
{
    match msg {
        QueryMsg::GetFunds { id } => match query_funds(registry, id) {
            Ok(f) => Ok(QueryResponse::Funds(f)),
            Err(e) => Err(e),
        },
        QueryMsg::GetPrice { pool_id, denom1, denom2 } => match query_price(
            registry,
            pool_id,
            denom1,
            denom2,
        ) {
            Ok(p) => Ok(QueryResponse::Price(p)),
            Err(e) => Err(e),
        },
    }
}

/// The reserves of pool `id`, in their order.
pub fn query_funds(registry: &Registry, id: String) -> (r: Result<FundsResponse, ContractError>)
    requires
        registry.wf(),
    ensures
        match r {
            Ok(f) => contains_id(registry@, id@) && holdings(f.funds@) == lookup(
                registry@,
                id@,
            ).reserves,
            Err(e) => !contains_id(registry@, id@) && e == ContractError::NotFound {  },
        },
{
    let pool = registry.load(&id)?;
    Ok(FundsResponse { funds: duplicate_all(&pool.coins) })
}

/// The answer to a price query on pool `id`.
pub open spec fn price_outcome(
    s: Seq<PoolModel>,
    id: Seq<char>,
    denom1: Seq<char>,
    denom2: Seq<char>,
) -> Result<PriceResponse, ContractError> {
    if !contains_id(s, id) {
        Err(ContractError::NotFound {  })
    } else {
        match price_of(lookup(s, id).reserves, denom1, denom2) {
            None => Err(ContractError::DivideByZero {  }),
            Some(p) => Ok(PriceResponse { price: p }),
        }
    }
}

/// The price of one unit of `denom1` in units of `denom2` in pool `pool_id`:
/// the floor of the reserve of `denom2` over the reserve of `denom1`.
pub fn query_price(registry: &Registry, pool_id: String, denom1: String, denom2: String) -> (r:
    Result<PriceResponse, ContractError>)
    requires
        registry.wf(),
    ensures
        r == price_outcome(registry@, pool_id@, denom1@, denom2@),
{
    let pool = registry.load(&pool_id)?;
    match price(&pool.coins, &denom1, &denom2) {
        None => Err(ContractError::DivideByZero {  }),
        Some(p) => Ok(PriceResponse { price: p }),
    }
}

} // verus!
