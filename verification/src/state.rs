use vstd::prelude::*;

use crate::error::ContractError;

verus! {

/// The single address allowed to mint, together with the optional hard
/// ceiling on total supply (`None` means unlimited minting).
#[derive(Clone, Debug, PartialEq, Eq)]
pub struct MinterData {
    pub minter: String,
    pub cap: Option<u128>,
}

/// The token metadata record: descriptive fields, the running total supply,
/// and the minting authority if one was configured at initialization.
#[derive(Clone, Debug, PartialEq, Eq)]
pub struct Meta {
    pub name: String,
    pub symbol: String,
    pub decimals: u8,
    pub total_supply: u128,
    pub mint: Option<MinterData>,
}

/// One ledger entry: a validated account identifier and its balance.
#[derive(Clone, Debug, PartialEq, Eq)]
pub struct BalanceEntry {
    pub address: String,
    pub amount: u128,
}

/// The whole state of the ledger: the balance table and the metadata record.
///
/// The store is an explicit handle threaded through every operation; the
/// hosting environment persists it between calls. All mutation should go
/// through the operations of this crate, which maintain [`Store::wf`].
#[derive(Clone, Debug)]
pub struct Store {
    pub balances: Vec<BalanceEntry>,
    pub token_info: Option<Meta>,
}

/// Sum of all amounts in a ledger view.
pub open spec fn sum_amounts(s: Seq<(Seq<char>, u128)>) -> int
    decreases s.len(),
{
    if s.len() == 0 {
        0
    } else {
        sum_amounts(s.drop_last()) + s.last().1
    }
}

/// The balance a ledger view gives to `id`; unknown identifiers hold zero.
pub open spec fn lookup(s: Seq<(Seq<char>, u128)>, id: Seq<char>) -> u128
    decreases s.len(),
{
    if s.len() == 0 {
        0
    } else if s.last().0 == id {
        s.last().1
    } else {
        lookup(s.drop_last(), id)
    }
}

/// No identifier occurs in two entries.
pub open spec fn distinct_keys(s: Seq<(Seq<char>, u128)>) -> bool {
    forall|i: int, j: int| 0 <= i < j < s.len() ==> s[i].0 != s[j].0
}

impl Store {
    /// The mathematical content of the balance table: a sequence of
    /// (identifier, amount) pairs.
    pub open spec fn ledger(self) -> Seq<(Seq<char>, u128)> {
        self.balances@.map_values(|e: BalanceEntry| (e.address@, e.amount))
    }

    /// Well-formedness of an externally observable state:
    /// - no identifier has two balance entries;
    /// - once metadata exists, the sum of all balances equals the recorded
    ///   total supply (conservation), `decimals` is at most 18, and a
    ///   configured cap bounds the total supply.
    pub open spec fn wf(self) -> bool {
        &&& distinct_keys(self.ledger())
        &&& match self.token_info {
            Some(m) => {
                &&& sum_amounts(self.ledger()) == m.total_supply as int
                &&& m.decimals <= 18
                &&& match m.mint {
                    Some(md) => match md.cap {
                        Some(c) => m.total_supply <= c,
                        None => true,
                    },
                    None => true,
                }
            },
            None => true,
        }
    }

    /// A fresh, empty store: no balances, no metadata.
    pub fn new() -> (s: Store)
        ensures
            s.balances@.len() == 0,
            s.token_info is None,
            s.ledger().len() == 0,
            s.wf(),
    {
        Store { balances: Vec::new(), token_info: None }
    }

    /// Balance lookup; unknown identifiers hold zero. Never fails.
    pub fn get(&self, id: &String) -> (r: u128)
        requires
            distinct_keys(self.ledger()),
        ensures
            r == lookup(self.ledger(), id@),
    {
        let n = self.balances.len();
        let mut k: usize = 0;
        while k < n
            invariant
                n == self.balances.len(),
                k <= n,
                distinct_keys(self.ledger()),
                forall|j: int| 0 <= j < k ==> self.ledger()[j].0 != id@,
            decreases n - k,
        {
            if self.balances[k].address == *id {
                proof {
                    assert(self.ledger()[k as int].0 == id@);
                    lemma_lookup_at(self.ledger(), k as int);
                }
                return self.balances[k].amount;
            }
            proof {
                assert(self.ledger()[k as int].0 != id@);
            }
            k += 1;
        }
        proof {
            lemma_lookup_absent(self.ledger(), id@);
        }
        0
    }

    /// Read-modify-write on one balance: a checked add, persisted only when
    /// it does not overflow. On overflow the store is left untouched and the
    /// operation fails; it never wraps. Returns the new balance.
    pub fn increase(&mut self, id: &String, delta: u128) -> (r: Result<u128, ContractError>)
        requires
            distinct_keys(old(self).ledger()),
        ensures
            final(self).token_info == old(self).token_info,
            distinct_keys(final(self).ledger()),
            r is Ok <==> lookup(old(self).ledger(), id@) + delta <= u128::MAX,
            match r {
                Ok(b) => {
                    &&& b == lookup(old(self).ledger(), id@) + delta
                    &&& lookup(final(self).ledger(), id@) == b
                    &&& forall|x: Seq<char>|
                        x != id@ ==> lookup(final(self).ledger(), x) == lookup(
                            old(self).ledger(),
                            x,
                        )
                    &&& sum_amounts(final(self).ledger()) == sum_amounts(old(self).ledger())
                        + delta
                },
                Err(e) => {
                    &&& e == ContractError::ArithmeticOverflow
                    &&& *final(self) == *old(self)
                },
            },
    {
        let n = self.balances.len();
        let mut k: usize = 0;
        while k < n
            invariant
                *self == *old(self),
                n == self.balances.len(),
                k <= n,
                distinct_keys(self.ledger()),
                forall|j: int| 0 <= j < k ==> self.ledger()[j].0 != id@,
            decreases n - k,
        {
            if self.balances[k].address == *id {
                proof {
                    assert(self.ledger()[k as int].0 == id@);
                    lemma_lookup_at(self.ledger(), k as int);
                }
                let cur = self.balances[k].amount;
                if delta > u128::MAX - cur {
                    return Err(ContractError::ArithmeticOverflow);
                }
                let nv = cur + delta;
                let addr = self.balances[k].address.clone();
                self.balances.set(k, BalanceEntry { address: addr, amount: nv });
                proof {
                    let s0 = old(self).ledger();
                    let v = (id@, nv);
                    assert(self.ledger() =~= s0.update(k as int, v));
                    lemma_sum_update(s0, k as int, v);
                    lemma_lookup_update(s0, k as int, v, id@);
                    assert forall|x: Seq<char>| x != id@ implies lookup(self.ledger(), x)
                        == lookup(s0, x) by {
                        lemma_lookup_update(s0, k as int, v, x);
                    }
                    lemma_distinct_update(s0, k as int, v);
                }
                return Ok(nv);
            }
            proof {
                assert(self.ledger()[k as int].0 != id@);
            }
            k += 1;
        }
        proof {
            lemma_lookup_absent(self.ledger(), id@);
        }
        let addr = id.clone();
        self.balances.push(BalanceEntry { address: addr, amount: delta });
        proof {
            let s0 = old(self).ledger();
            let v = (id@, delta);
            assert(self.ledger() =~= s0.push(v));
            lemma_sum_push(s0, v);
            lemma_lookup_push(s0, v, id@);
            assert forall|x: Seq<char>| x != id@ implies lookup(self.ledger(), x) == lookup(
                s0,
                x,
            ) by {
                lemma_lookup_push(s0, v, x);
            }
            lemma_distinct_push(s0, v);
        }
        Ok(delta)
    }
}

/// In a duplicate-free ledger, the balance of the identifier at position `i`
/// is exactly the amount stored there.
pub proof fn lemma_lookup_at(s: Seq<(Seq<char>, u128)>, i: int)
    requires
        distinct_keys(s),
        0 <= i < s.len(),
    ensures
        lookup(s, s[i].0) == s[i].1,
    decreases s.len(),
{
    if i == s.len() - 1 {
    } else {
        assert(s[i].0 != s[s.len() - 1].0);
        assert(distinct_keys(s.drop_last()));
        lemma_lookup_at(s.drop_last(), i);
        assert(s.drop_last()[i] == s[i]);
    }
}

/// An identifier that appears in no entry has balance zero.
pub proof fn lemma_lookup_absent(s: Seq<(Seq<char>, u128)>, id: Seq<char>)
    requires
        forall|j: int| 0 <= j < s.len() ==> s[j].0 != id,
    ensures
        lookup(s, id) == 0,
    decreases s.len(),
{
    if s.len() == 0 {
    } else {
        assert(s[s.len() - 1].0 != id);
        lemma_lookup_absent(s.drop_last(), id);
    }
}

/// Amounts are non-negative, so so is their sum.
pub proof fn lemma_sum_nonneg(s: Seq<(Seq<char>, u128)>)
    ensures
        sum_amounts(s) >= 0,
    decreases s.len(),
{
    if s.len() == 0 {
    } else {
        lemma_sum_nonneg(s.drop_last());
    }
}

/// No single balance exceeds the sum of all balances.
pub proof fn lemma_lookup_le_sum(s: Seq<(Seq<char>, u128)>, id: Seq<char>)
    ensures
        lookup(s, id) <= sum_amounts(s),
    decreases s.len(),
{
    if s.len() == 0 {
    } else if s.last().0 == id {
        lemma_sum_nonneg(s.drop_last());
    } else {
        lemma_lookup_le_sum(s.drop_last(), id);
    }
}

/// A prefix never sums to more than the whole: amounts are non-negative.
pub proof fn lemma_sum_take_le(s: Seq<(Seq<char>, u128)>, j: int)
    requires
        0 <= j <= s.len(),
    ensures
        sum_amounts(s.take(j)) <= sum_amounts(s),
    decreases s.len() - j,
{
    if j == s.len() {
        assert(s.take(j) =~= s);
    } else {
        assert(s.take(j + 1).drop_last() =~= s.take(j));
        assert(s.take(j + 1).last() == s[j]);
        lemma_sum_take_le(s, j + 1);
    }
}

/// Overwriting one entry changes the sum by the difference of the amounts.
pub proof fn lemma_sum_update(s: Seq<(Seq<char>, u128)>, i: int, v: (Seq<char>, u128))
    requires
        0 <= i < s.len(),
    ensures
        sum_amounts(s.update(i, v)) == sum_amounts(s) - s[i].1 + v.1,
    decreases s.len(),
{
    let t = s.update(i, v);
    if i == s.len() - 1 {
        assert(t.drop_last() =~= s.drop_last());
        assert(t.last() == v);
    } else {
        assert(t.drop_last() =~= s.drop_last().update(i, v));
        lemma_sum_update(s.drop_last(), i, v);
        assert(t.last() == s.last());
    }
}

/// Overwriting one entry with the same identifier changes that identifier's
/// balance to the new amount and leaves every other balance alone.
pub proof fn lemma_lookup_update(
    s: Seq<(Seq<char>, u128)>,
    i: int,
    v: (Seq<char>, u128),
    x: Seq<char>,
)
    requires
        distinct_keys(s),
        0 <= i < s.len(),
        v.0 == s[i].0,
    ensures
        lookup(s.update(i, v), x) == if x == v.0 {
            v.1
        } else {
            lookup(s, x)
        },
    decreases s.len(),
{
    let t = s.update(i, v);
    if i == s.len() - 1 {
        assert(t.last() == v);
        assert(t.drop_last() =~= s.drop_last());
    } else {
        assert(t.last() == s.last());
        assert(t.drop_last() =~= s.drop_last().update(i, v));
        assert(distinct_keys(s.drop_last()));
        assert(s.drop_last()[i] == s[i]);
        lemma_lookup_update(s.drop_last(), i, v, x);
        if x == v.0 {
            assert(s[i].0 != s[s.len() - 1].0);
        }
    }
}

/// Overwriting an entry with one that keeps its identifier preserves
/// duplicate-freedom.
pub proof fn lemma_distinct_update(s: Seq<(Seq<char>, u128)>, i: int, v: (Seq<char>, u128))
    requires
        distinct_keys(s),
        0 <= i < s.len(),
        v.0 == s[i].0,
    ensures
        distinct_keys(s.update(i, v)),
{
    let t = s.update(i, v);
    assert forall|a: int, b: int| 0 <= a < b < t.len() implies t[a].0 != t[b].0 by {
        assert(s[a].0 != s[b].0);
    }
}

/// Appending an entry adds its amount to the sum.
pub proof fn lemma_sum_push(s: Seq<(Seq<char>, u128)>, v: (Seq<char>, u128))
    ensures
        sum_amounts(s.push(v)) == sum_amounts(s) + v.1,
{
    assert(s.push(v).drop_last() =~= s);
    assert(s.push(v).last() == v);
}

/// Appending an entry sets its identifier's balance to its amount and leaves
/// every other balance alone.
pub proof fn lemma_lookup_push(s: Seq<(Seq<char>, u128)>, v: (Seq<char>, u128), x: Seq<char>)
    ensures
        lookup(s.push(v), x) == if x == v.0 {
            v.1
        } else {
            lookup(s, x)
        },
{
    assert(s.push(v).drop_last() =~= s);
    assert(s.push(v).last() == v);
}

/// Appending an entry with a fresh identifier preserves duplicate-freedom.
pub proof fn lemma_distinct_push(s: Seq<(Seq<char>, u128)>, v: (Seq<char>, u128))
    requires
        distinct_keys(s),
        forall|j: int| 0 <= j < s.len() ==> s[j].0 != v.0,
    ensures
        distinct_keys(s.push(v)),
{
    let t = s.push(v);
    assert forall|a: int, b: int| 0 <= a < b < t.len() implies t[a].0 != t[b].0 by {
        if b < s.len() {
            assert(s[a].0 != s[b].0);
        } else {
            assert(s[a].0 != v.0);
        }
    }
}

} // verus!
