//! Pools and the registry that holds them under unique ids.
use vstd::prelude::*;

use crate::coin::{duplicate_all, holdings, Coin, CoinV};
use crate::error::ContractError;

verus! {

/// A named pool holding reserves of two denominations.
pub struct Pool {
    pub id: String,
    pub name: String,
    pub coins: Vec<Coin>,
}

/// What a pool is in contracts.
pub struct PoolModel {
    pub id: Seq<char>,
    pub name: Seq<char>,
    pub reserves: Seq<CoinV>,
}

impl View for Pool {
    type V = PoolModel;

    open spec fn view(&self) -> PoolModel {
        PoolModel { id: self.id@, name: self.name@, reserves: holdings(self.coins@) }
    }
}

impl Pool {
    /// Copies the pool.
    pub fn duplicate(&self) -> (r: Pool)
        ensures
            r@ == self@,
    {
        Pool { id: self.id.clone(), name: self.name.clone(), coins: duplicate_all(&self.coins) }
    }
}

/// Some pool of `s` has id `id`.
pub open spec fn contains_id(s: Seq<PoolModel>, id: Seq<char>) -> bool {
    exists|i: int| 0 <= i < s.len() && s[i].id == id
}

/// The position of the pool with id `id` in `s`.
pub open spec fn index_of(s: Seq<PoolModel>, id: Seq<char>) -> int {
    choose|i: int| 0 <= i < s.len() && s[i].id == id
}

/// The pool with id `id` in `s`.
pub open spec fn lookup(s: Seq<PoolModel>, id: Seq<char>) -> PoolModel {
    s[index_of(s, id)]
}

/// Ids are unique, and every pool holds exactly two reserves.
pub open spec fn registry_wf(s: Seq<PoolModel>) -> bool {
    &&& forall|i: int, j: int| 0 <= i < j < s.len() ==> s[i].id != s[j].id
    &&& forall|i: int| 0 <= i < s.len() ==> (#[trigger] s[i]).reserves.len() == 2
}

/// In a well-formed registry the pool with a present id sits at a valid
/// position, carries that id and holds two reserves.
pub proof fn lemma_lookup(s: Seq<PoolModel>, id: Seq<char>)
    requires
        registry_wf(s),
        contains_id(s, id),
    ensures
        0 <= index_of(s, id) < s.len(),
        lookup(s, id).id == id,
        lookup(s, id).reserves.len() == 2,
{
    let i = index_of(s, id);
    assert(s[i].reserves.len() == 2);
}

/// Replacing the pool with id `id` by another with that id and two reserves
/// keeps the registry well formed, and a lookup of `id` then finds the new pool.
pub proof fn lemma_replace(s: Seq<PoolModel>, id: Seq<char>, p: PoolModel)
    requires
        registry_wf(s),
        contains_id(s, id),
        p.id == id,
        p.reserves.len() == 2,
    ensures
        registry_wf(s.update(index_of(s, id), p)),
        contains_id(s.update(index_of(s, id), p), id),
        lookup(s.update(index_of(s, id), p), id) == p,
{
    lemma_lookup(s, id);
    let i = index_of(s, id);
    let s2 = s.update(i, p);
    assert(s2[i].id == id);
    let k = index_of(s2, id);
    assert(s2[k].id == id);
    if k != i {
        assert(s[k].id == id);
        if k < i {
            assert(s[k].id != s[i].id);
        } else {
            assert(s[i].id != s[k].id);
        }
    }
    assert forall|a: int, b: int| 0 <= a < b < s2.len() implies s2[a].id != s2[b].id by {
        assert(s[a].id != s[b].id);
    }
    assert forall|a: int| 0 <= a < s2.len() implies (#[trigger] s2[a]).reserves.len() == 2 by {
        if a != i {
            assert(s[a].reserves.len() == 2);
        }
    }
}

/// The pools, in the order in which they were created, each under its own id.
pub struct Registry {
    pools: Vec<Pool>,
}

impl View for Registry {
    type V = Seq<PoolModel>;

    closed spec fn view(&self) -> Seq<PoolModel> {
        self.pools@.map_values(|p: Pool| p@)
    }
}

impl Registry {
    pub open spec fn wf(&self) -> bool {
        registry_wf(self@)
    }

    /// An empty registry.
    pub fn new() -> (r: Registry)
        ensures
            r.wf(),
            r@ == Seq::<PoolModel>::empty(),
    {
        let r = Registry { pools: Vec::new() };
        assert(r@ =~= Seq::<PoolModel>::empty());
        r
    }

    /// The position of the pool with id `id`, if there is one.
    fn position(&self, id: &String) -> (r: Option<usize>)
        requires
            self.wf(),
        ensures
            match r {
                Some(i) => contains_id(self@, id@) && i as int == index_of(self@, id@) && i
                    < self@.len(),
                None => !contains_id(self@, id@),
            },
    {
        let mut i: usize = 0;
        while i < self.pools.len()
            invariant
                i <= self.pools.len(),
                self.wf(),
                forall|j: int| 0 <= j < i ==> self@[j].id != id@,
            decreases self.pools.len() - i,
        {
            if self.pools[i].id == *id {
                proof {
                    assert(self@[i as int].id == id@);
                    let k = index_of(self@, id@);
                    assert(self@[k].id == id@);
                    assert(registry_wf(self@));
                    if k < i {
                        assert(self@[k].id != self@[i as int].id);
                    } else if (i as int) < k {
                        assert(self@[i as int].id != self@[k].id);
                    }
                }
                return Some(i);
            }
            i = i + 1;
        }
        None
    }

    /// Registers `pool` under its id, unless that id is taken.
    pub fn create(&mut self, pool: Pool) -> (r: Result<(), ContractError>)
        requires
            old(self).wf(),
            pool.coins@.len() == 2,
        ensures
            final(self).wf(),
            contains_id(old(self)@, pool.id@) ==> r == Err::<(), ContractError>(
                ContractError::AlreadyInUse {  },
            ) && final(self)@ == old(self)@,
            !contains_id(old(self)@, pool.id@) ==> r is Ok && final(self)@ == old(self)@.push(
                pool@,
            ),
    {
        match self.position(&pool.id) {
            Some(_) => Err(ContractError::AlreadyInUse {  }),
            None => {
                let ghost model = pool@;
                self.pools.push(pool);
                assert(self@ =~= old(self)@.push(model));
                Ok(())
            },
        }
    }

    /// A copy of the pool with id `id`.
    pub fn load(&self, id: &String) -> (r: Result<Pool, ContractError>)
        requires
            self.wf(),
        ensures
            match r {
                Ok(p) => contains_id(self@, id@) && p@ == lookup(self@, id@) && p.id@ == id@,
                Err(e) => !contains_id(self@, id@) && e == ContractError::NotFound {  },
            },
    {
        match self.position(id) {
            Some(i) => Ok(self.pools[i].duplicate()),
            None => Err(ContractError::NotFound {  }),
        }
    }

    /// Overwrites the pool registered under the id of `pool`.
    pub fn save(&mut self, pool: Pool)
        requires
            old(self).wf(),
            contains_id(old(self)@, pool.id@),
            pool.coins@.len() == 2,
        ensures
            final(self).wf(),
            final(self)@ == old(self)@.update(index_of(old(self)@, pool.id@), pool@),
    {
        let i = self.position(&pool.id).unwrap();
        let ghost model = pool@;
        self.pools.set(i, pool);
        assert(self@ =~= old(self)@.update(i as int, model));
    }
}

} // verus!
