use cw_liquidity_pool::coin::Coin;
use cw_liquidity_pool::contract::{execute, instantiate, query, BankMsg, MessageInfo};
use cw_liquidity_pool::error::ContractError;
use cw_liquidity_pool::msg::{ExecuteMsg, InstantiateMsg, QueryMsg, QueryResponse};
use cw_liquidity_pool::state::Registry;

fn coin(amount: u128, denom: &str) -> Coin {
    Coin::new(amount, denom)
}

fn info(sender: &str, funds: Vec<Coin>) -> MessageInfo {
    MessageInfo { sender: sender.to_string(), funds }
}

fn view(coins: &[Coin]) -> Vec<(String, u128)> {
    coins.iter().map(|c| (c.denom.clone(), c.amount)).collect()
}

fn funds_of(registry: &Registry, id: &str) -> Vec<(String, u128)> {
    match query(registry, QueryMsg::GetFunds { id: id.to_string() }) {
        Ok(QueryResponse::Funds(f)) => view(&f.funds),
        _ => panic!("funds query failed"),
    }
}

fn price_of(registry: &Registry, id: &str, d1: &str, d2: &str) -> Result<u128, ContractError> {
    let msg = QueryMsg::GetPrice {
        pool_id: id.to_string(),
        denom1: d1.to_string(),
        denom2: d2.to_string(),
    };
    match query(registry, msg) {
        Ok(QueryResponse::Price(p)) => Ok(p.price),
        Ok(_) => panic!("wrong answer"),
        Err(e) => Err(e),
    }
}

fn expect(pairs: &[(&str, u128)]) -> Vec<(String, u128)> {
    pairs.iter().map(|(d, a)| (d.to_string(), *a)).collect()
}

fn with_pool() -> Registry {
    let mut deps = Registry::new();
    let _res = instantiate(InstantiateMsg {}).unwrap();
    let msg = ExecuteMsg::CreatePool { name: "POOL1".to_string() };
    execute(&mut deps, info("elon", vec![coin(200, "earth"), coin(100, "mars")]), msg).unwrap();
    deps
}

fn add(deps: &mut Registry, funds: Vec<Coin>) -> Result<(), ContractError> {
    let msg = ExecuteMsg::AddFunds { pool_id: "POOL1".to_string() };
    execute(deps, info("murali", funds), msg).map(|_| ())
}

fn swap_msg(ask: Coin) -> ExecuteMsg {
    ExecuteMsg::SwapTokens { pool_id: "POOL1".to_string(), amount: ask }
}

#[test]
fn proper_initialization() {
    let _deps = Registry::new();
    let res = instantiate(InstantiateMsg {}).unwrap();
    assert_eq!(0, res.messages.len());
}

#[test]
fn create() {
    let deps = with_pool();
    assert_eq!(expect(&[("earth", 200), ("mars", 100)]), funds_of(&deps, "POOL1"));
}

#[test]
fn add_funds() {
    let mut deps = with_pool();
    assert_eq!(expect(&[("earth", 200), ("mars", 100)]), funds_of(&deps, "POOL1"));

    // mismatched number of tokens
    match add(&mut deps, vec![coin(10, "earth")]) {
        Err(ContractError::FundsMismatched {}) => {}
        _ => panic!("Must return Mismatched error"),
    }

    // mismatched type of tokens
    match add(&mut deps, vec![coin(20, "earth"), coin(10, "moon")]) {
        Err(ContractError::FundsMismatched {}) => {}
        _ => panic!("Must return Mismatched error"),
    }

    // correct type and number of tokens
    add(&mut deps, vec![coin(20, "earth"), coin(10, "mars")]).unwrap();
    assert_eq!(expect(&[("earth", 220), ("mars", 110)]), funds_of(&deps, "POOL1"));
}

#[test]
fn price() {
    let deps = with_pool();
    assert_eq!(expect(&[("earth", 200), ("mars", 100)]), funds_of(&deps, "POOL1"));
    assert_eq!(Ok(0), price_of(&deps, "POOL1", "earth", "mars"));
}

#[test]
fn swap() {
    let mut deps = with_pool();
    assert_eq!(expect(&[("earth", 200), ("mars", 100)]), funds_of(&deps, "POOL1"));
    assert_eq!(Ok(2), price_of(&deps, "POOL1", "mars", "earth"));

    // wrong number of funds
    let funds = vec![coin(200, "earth"), coin(100, "token")];
    match execute(&mut deps, info("elon", funds), swap_msg(coin(1, "mars"))) {
        Err(ContractError::FundsMismatched {}) => {}
        _ => panic!("Must return Insufficient funds error"),
    }

    // insufficient tokens sent
    match execute(&mut deps, info("elon", vec![coin(1, "earth")]), swap_msg(coin(1, "mars"))) {
        Err(ContractError::InsufficientFunds {}) => {}
        _ => panic!("Must return Insufficient funds error"),
    }

    // insufficient tokens asked
    match execute(&mut deps, info("elon", vec![coin(2, "earth")]), swap_msg(coin(300, "mars"))) {
        Err(ContractError::InsufficientFunds {}) => {}
        _ => panic!("Must return Insufficient funds error"),
    }

    let res =
        execute(&mut deps, info("elon", vec![coin(2, "earth")]), swap_msg(coin(1, "mars"))).unwrap();
    assert_eq!(1, res.messages.len());
    let msg = res.messages.get(0).expect("no message");
    match msg {
        BankMsg::Send { to_address, amount } => {
            assert_eq!("elon", to_address.as_str());
            assert_eq!(expect(&[("mars", 1)]), view(amount));
        }
    }

    assert_eq!(expect(&[("earth", 202), ("mars", 99)]), funds_of(&deps, "POOL1"));
    assert_eq!(Ok(2), price_of(&deps, "POOL1", "mars", "earth"));
}

#[test]
fn create_twice_is_refused() {
    let mut deps = with_pool();
    let msg = ExecuteMsg::CreatePool { name: "POOL1".to_string() };
    let res = execute(&mut deps, info("elon", vec![coin(5, "sun"), coin(6, "moon")]), msg);
    assert!(matches!(res, Err(ContractError::AlreadyInUse {})));
    assert_eq!(expect(&[("earth", 200), ("mars", 100)]), funds_of(&deps, "POOL1"));
}

#[test]
fn create_needs_two_coins() {
    let mut deps = Registry::new();
    let msg = ExecuteMsg::CreatePool { name: "P".to_string() };
    let res = execute(&mut deps, info("elon", vec![coin(5, "sun")]), msg);
    assert!(matches!(res, Err(ContractError::FundsMismatched {})));
    let res = query(&deps, QueryMsg::GetFunds { id: "P".to_string() });
    assert!(matches!(res, Err(ContractError::NotFound {})));
}

#[test]
fn deposit_refusals_leave_reserves() {
    let mut deps = with_pool();
    assert!(add(&mut deps, vec![coin(10, "earth")]).is_err());
    assert!(add(&mut deps, vec![coin(20, "earth"), coin(10, "moon")]).is_err());
    assert_eq!(expect(&[("earth", 200), ("mars", 100)]), funds_of(&deps, "POOL1"));
}

#[test]
fn deposit_in_other_order() {
    let mut deps = with_pool();
    add(&mut deps, vec![coin(7, "mars"), coin(3, "earth")]).unwrap();
    assert_eq!(expect(&[("earth", 203), ("mars", 107)]), funds_of(&deps, "POOL1"));
}

#[test]
fn deposit_overflow_is_refused() {
    let mut deps = with_pool();
    let res = add(&mut deps, vec![coin(u128::MAX, "earth"), coin(1, "mars")]);
    assert!(matches!(res, Err(ContractError::Overflow {})));
    assert_eq!(expect(&[("earth", 200), ("mars", 100)]), funds_of(&deps, "POOL1"));
}

#[test]
fn deposit_into_missing_pool() {
    let mut deps = with_pool();
    let msg = ExecuteMsg::AddFunds { pool_id: "NOPE".to_string() };
    let res = execute(&mut deps, info("m", vec![coin(1, "earth"), coin(1, "mars")]), msg);
    assert!(matches!(res, Err(ContractError::NotFound {})));
}

#[test]
fn swap_refusals_leave_reserves() {
    let mut deps = with_pool();
    let funds = vec![coin(2, "earth"), coin(2, "earth")];
    let res = execute(&mut deps, info("elon", funds), swap_msg(coin(1, "mars")));
    assert!(matches!(res, Err(ContractError::FundsMismatched {})));
    let res = execute(&mut deps, info("elon", vec![coin(1, "earth")]), swap_msg(coin(1, "mars")));
    assert!(matches!(res, Err(ContractError::InsufficientFunds {})));
    let res = execute(&mut deps, info("elon", vec![coin(2, "moon")]), swap_msg(coin(1, "mars")));
    assert!(matches!(res, Err(ContractError::FundsMismatched {})));
    let res = execute(&mut deps, info("elon", vec![coin(2, "earth")]), swap_msg(coin(1, "moon")));
    assert!(matches!(res, Err(ContractError::FundsMismatched {})));
    assert_eq!(expect(&[("earth", 200), ("mars", 100)]), funds_of(&deps, "POOL1"));
}

#[test]
fn swap_keeps_overpayment() {
    let mut deps = with_pool();
    let res = execute(&mut deps, info("elon", vec![coin(10, "earth")]), swap_msg(coin(1, "mars")));
    assert!(res.is_ok());
    // The price was 2, yet all 10 offered stay in the pool.
    assert_eq!(expect(&[("earth", 210), ("mars", 99)]), funds_of(&deps, "POOL1"));
}

#[test]
fn swap_against_empty_reserve() {
    let mut deps = Registry::new();
    let msg = ExecuteMsg::CreatePool { name: "POOL1".to_string() };
    execute(&mut deps, info("elon", vec![coin(200, "earth"), coin(0, "mars")]), msg).unwrap();
    assert_eq!(Err(ContractError::DivideByZero {}), price_of(&deps, "POOL1", "mars", "earth"));
    let res = execute(&mut deps, info("elon", vec![coin(2, "earth")]), swap_msg(coin(0, "mars")));
    assert!(matches!(res, Err(ContractError::DivideByZero {})));
    assert_eq!(expect(&[("earth", 200), ("mars", 0)]), funds_of(&deps, "POOL1"));
}

#[test]
fn price_of_missing_pool() {
    let deps = with_pool();
    assert_eq!(Err(ContractError::NotFound {}), price_of(&deps, "NOPE", "mars", "earth"));
}

#[test]
fn deposits_and_swaps_conserve_each_denomination() {
    let mut deps = with_pool();
    let mut paid_in = (200u128, 100u128);
    let mut paid_out = (0u128, 0u128);
    add(&mut deps, vec![coin(20, "earth"), coin(10, "mars")]).unwrap();
    paid_in = (paid_in.0 + 20, paid_in.1 + 10);
    let res = execute(&mut deps, info("a", vec![coin(5, "earth")]), swap_msg(coin(2, "mars")));
    assert!(res.is_ok());
    paid_in.0 += 5;
    paid_out.1 += 2;
    let res = execute(&mut deps, info("b", vec![coin(3, "mars")]), swap_msg(coin(1, "earth")));
    assert!(res.is_ok());
    paid_in.1 += 3;
    paid_out.0 += 1;
    let f = funds_of(&deps, "POOL1");
    assert_eq!(f[0].1 + paid_out.0, paid_in.0);
    assert_eq!(f[1].1 + paid_out.1, paid_in.1);
    assert_eq!(expect(&[("earth", 224), ("mars", 111)]), f);
}

#[test]
fn error_messages() {
    assert_eq!("Funds Mismatch", ContractError::FundsMismatched {}.message());
    assert_eq!("Pool id already in use", ContractError::AlreadyInUse {}.message());
    assert_eq!("Division by zero", ContractError::DivideByZero {}.message());
}

fn attrs(r: &cw_liquidity_pool::contract::Response) -> Vec<(String, String)> {
    r.attributes.iter().map(|a| (a.key.clone(), a.value.clone())).collect()
}

fn pairs(p: &[(&str, &str)]) -> Vec<(String, String)> {
    p.iter().map(|(k, v)| (k.to_string(), v.to_string())).collect()
}

#[test]
fn price_of_one_denomination_against_itself() {
    let deps = with_pool();
    assert_eq!(Ok(1), price_of(&deps, "POOL1", "earth", "earth"));
}

#[test]
fn swap_within_one_denomination_is_priced() {
    let mut deps = with_pool();
    let res = execute(&mut deps, info("x", vec![coin(0, "earth")]), swap_msg(coin(200, "earth")));
    assert!(matches!(res, Err(ContractError::InsufficientFunds {})));
    assert_eq!(expect(&[("earth", 200), ("mars", 100)]), funds_of(&deps, "POOL1"));
}

#[test]
fn deposit_naming_a_denomination_twice_is_refused() {
    let mut deps = with_pool();
    let res = add(&mut deps, vec![coin(5, "earth"), coin(7, "earth")]);
    assert!(matches!(res, Err(ContractError::FundsMismatched {})));
    let res = add(&mut deps, vec![coin(7, "earth"), coin(5, "earth")]);
    assert!(matches!(res, Err(ContractError::FundsMismatched {})));
    assert_eq!(expect(&[("earth", 200), ("mars", 100)]), funds_of(&deps, "POOL1"));
}

#[test]
fn deposit_attributes() {
    let mut deps = with_pool();
    let msg = ExecuteMsg::AddFunds { pool_id: "POOL1".to_string() };
    let res =
        execute(&mut deps, info("m", vec![coin(20, "earth"), coin(1234567, "mars")]), msg).unwrap();
    assert!(res.messages.is_empty());
    let want = pairs(&[
        ("pool_id", "POOL1"),
        ("action", "add funds"),
        ("amount", "20"),
        ("denom", "earth"),
        ("amount", "1234567"),
        ("denom", "mars"),
    ]);
    assert_eq!(want, attrs(&res));
}

#[test]
fn swap_attributes() {
    let mut deps = with_pool();
    let res =
        execute(&mut deps, info("elon", vec![coin(2, "earth")]), swap_msg(coin(1, "mars"))).unwrap();
    assert_eq!(pairs(&[("action", "Swap"), ("to", "elon")]), attrs(&res));
}

#[test]
fn create_returns_empty_response() {
    let mut deps = Registry::new();
    let msg = ExecuteMsg::CreatePool { name: "P".to_string() };
    let res = execute(&mut deps, info("e", vec![coin(1, "a"), coin(2, "b")]), msg).unwrap();
    assert!(res.messages.is_empty());
    assert!(res.attributes.is_empty());
}
