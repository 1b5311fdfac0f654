use vstd::prelude::*;

verus! {

/// An amount of one fungible token denomination.
pub struct Coin {
    pub denom: String,
    pub amount: u128,
}

/// What a coin is in contracts: its denomination and its amount.
pub type CoinV = (Seq<char>, u128);

impl View for Coin {
    type V = CoinV;

    open spec fn view(&self) -> CoinV {
        (self.denom@, self.amount)
    }
}

/// The denominations and amounts of a sequence of coins.
pub open spec fn holdings(coins: Seq<Coin>) -> Seq<CoinV> {
    coins.map_values(|c: Coin| c@)
}

/// The character of decimal digit `d`.
pub open spec fn digit_char(d: nat) -> char {
    seq!['0', '1', '2', '3', '4', '5', '6', '7', '8', '9'][d as int]
}

/// The decimal digits of `n`, most significant first, without leading zeros.
pub open spec fn decimal(n: nat) -> Seq<char>
    decreases n,
{
    if n < 10 {
        seq![digit_char(n)]
    } else {
        decimal(n / 10).push(digit_char(n % 10))
    }
}

/// Relies on `ToString::to_string` through the `Display` of `u128`, which
/// writes the number in decimal digits with no sign and no leading zeros.
#[verifier::external_body]
pub(crate) fn decimal_string(n: u128) -> (r: String)
    ensures
        r@ == decimal(n as nat),
{
    n.to_string()
}

impl Coin {
    pub fn new(amount: u128, denom: &str) -> (r: Coin)
        ensures
            r@ == (denom@, amount),
    {
        Coin { denom: denom.to_string(), amount }
    }

    pub fn duplicate(&self) -> (r: Coin)
        ensures
            r@ == self@,
    {
        Coin { denom: self.denom.clone(), amount: self.amount }
    }
}

/// Copies a sequence of coins, keeping their order.
pub fn duplicate_all(coins: &Vec<Coin>) -> (r: Vec<Coin>)
    ensures
        holdings(r@) == holdings(coins@),
        r@.len() == coins@.len(),
{
    let mut r: Vec<Coin> = Vec::new();
    let mut i: usize = 0;
    while i < coins.len()
        invariant
            i <= coins.len(),
            r@.len() == i,
            forall|j: int| 0 <= j < i ==> r@[j]@ == coins@[j]@,
        decreases coins.len() - i,
    {
        r.push(coins[i].duplicate());
        i = i + 1;
    }
    assert(holdings(r@) =~= holdings(coins@));
    r
}

} // verus!
