use vstd::prelude::*;

use crate::error::ContractError;
use crate::msg::{
    accounts_view, total_of_id, BalanceResponse, InitMsg, InitialBalance, MintEvent,
    TokenInfoResponse,
};
use crate::state::{
    distinct_keys, lemma_lookup_le_sum, lemma_sum_take_le, lookup, sum_amounts, Meta, Store,
};

verus! {

/// Whether `sender` is the configured minting authority of `s`.
pub open spec fn authorized(s: Store, sender: Seq<char>) -> bool {
    match s.token_info {
        Some(m) => match m.mint {
            Some(md) => md.minter@ == sender,
            None => false,
        },
        None => false,
    }
}

/// The recorded total supply (zero before initialization).
pub open spec fn total_supply_of(s: Store) -> int {
    match s.token_info {
        Some(m) => m.total_supply as int,
        None => 0,
    }
}

/// The configured cap, if any.
pub open spec fn cap_of(s: Store) -> Option<u128> {
    match s.token_info {
        Some(m) => match m.mint {
            Some(md) => md.cap,
            None => None,
        },
        None => None,
    }
}

/// Whether a total supply of `new_total` would respect the configured cap.
pub open spec fn cap_allows(s: Store, new_total: int) -> bool {
    match cap_of(s) {
        Some(c) => new_total <= c as int,
        None => true,
    }
}

/// The inputs on which initialization succeeds: decimals in range, a total
/// supply that fits the amount type, and a total supply within the cap.
pub open spec fn init_ok(msg: InitMsg) -> bool {
    &&& msg.decimals <= 18
    &&& sum_amounts(accounts_view(msg.initial_balances@)) <= u128::MAX
    &&& match msg.spec_cap() {
        Some(c) => sum_amounts(accounts_view(msg.initial_balances@)) <= c as int,
        None => true,
    }
}

/// The error initialization reports, on the inputs where it fails.
pub open spec fn init_error(msg: InitMsg) -> ContractError {
    if msg.decimals > 18 {
        ContractError::InvalidDecimals
    } else if sum_amounts(accounts_view(msg.initial_balances@)) > u128::MAX {
        ContractError::ArithmeticOverflow
    } else {
        ContractError::CapExceeded
    }
}

/// The state initialization commits: metadata carrying the fields of the
/// message and the computed total supply, and a balance table that grants
/// each identifier the sum of the amounts the distribution gives it.
pub open spec fn inited(msg: InitMsg, s: Store) -> bool {
    let av = accounts_view(msg.initial_balances@);
    match s.token_info {
        Some(m) => {
            &&& m.name == msg.name
            &&& m.symbol == msg.symbol
            &&& m.decimals == msg.decimals
            &&& m.mint == msg.mint
            &&& m.total_supply as int == sum_amounts(av)
            &&& distinct_keys(s.ledger())
            &&& forall|x: Seq<char>| lookup(s.ledger(), x) as int == total_of_id(av, x)
        },
        None => false,
    }
}

/// Exactly the state change of one successful mint of `amount` to
/// `recipient`: metadata unchanged except the total supply, which grows by
/// `amount`; the recipient's balance grows by `amount`; every other balance
/// untouched.
pub open spec fn mint_applied(pre: Store, post: Store, recipient: Seq<char>, amount: u128) -> bool {
    match (pre.token_info, post.token_info) {
        (Some(m0), Some(m1)) => {
            &&& m0.total_supply + amount <= u128::MAX
            &&& m1.name == m0.name
            &&& m1.symbol == m0.symbol
            &&& m1.decimals == m0.decimals
            &&& m1.mint == m0.mint
            &&& m1.total_supply as int == m0.total_supply + amount
            &&& distinct_keys(post.ledger())
            &&& lookup(post.ledger(), recipient) as int == lookup(pre.ledger(), recipient)
                + amount
            &&& forall|x: Seq<char>|
                x != recipient ==> lookup(post.ledger(), x) == lookup(pre.ledger(), x)
            &&& sum_amounts(post.ledger()) == sum_amounts(pre.ledger()) + amount
        },
        _ => false,
    }
}

/// Seeds the balance table from the initial distribution and returns the
/// computed total supply; a repeated identifier accumulates. Fails exactly
/// when the total would not fit the amount type. The metadata record is
/// never touched; on failure the balance table may hold a prefix of the
/// distribution, which initialization discards.
pub fn create_accounts(store: &mut Store, accounts: &Vec<InitialBalance>) -> (r: Result<
    u128,
    ContractError,
>)
    requires
        old(store).balances@.len() == 0,
    ensures
        final(store).token_info == old(store).token_info,
        r is Ok <==> sum_amounts(accounts_view(accounts@)) <= u128::MAX,
        match r {
            Ok(t) => {
                &&& t as int == sum_amounts(accounts_view(accounts@))
                &&& distinct_keys(final(store).ledger())
                &&& sum_amounts(final(store).ledger()) == t as int
                &&& forall|x: Seq<char>|
                    lookup(final(store).ledger(), x) as int == total_of_id(
                        accounts_view(accounts@),
                        x,
                    )
            },
            Err(e) => e == ContractError::ArithmeticOverflow,
        },
{
    let ghost av = accounts_view(accounts@);
    let n = accounts.len();
    let mut total: u128 = 0;
    let mut k: usize = 0;
    while k < n
        invariant
            n == accounts.len(),
            k <= n,
            av == accounts_view(accounts@),
            store.token_info == old(store).token_info,
            distinct_keys(store.ledger()),
            total as int == sum_amounts(av.take(k as int)),
            sum_amounts(store.ledger()) == total as int,
            forall|x: Seq<char>|
                lookup(store.ledger(), x) as int == total_of_id(av.take(k as int), x),
        decreases n - k,
    {
        let ghost kk = k as int;
        let row_amount = accounts[k].amount;
        proof {
            assert(av[kk] == (accounts@[kk].address@, accounts@[kk].amount));
            assert(av.take(kk + 1).drop_last() =~= av.take(kk));
            assert(av.take(kk + 1).last() == av[kk]);
        }
        if row_amount > u128::MAX - total {
            proof {
                lemma_sum_take_le(av, kk + 1);
            }
            return Err(ContractError::ArithmeticOverflow);
        }
        let ghost pre = *store;
        proof {
            lemma_lookup_le_sum(pre.ledger(), accounts@[kk].address@);
        }
        total = total + row_amount;
        let res = store.increase(&accounts[k].address, row_amount);
        proof {
            assert(res is Ok);
        }
        k += 1;
        proof {
            let id = accounts@[kk].address@;
            assert forall|x: Seq<char>| lookup(store.ledger(), x) as int == total_of_id(
                av.take(kk + 1),
                x,
            ) by {
                assert(lookup(pre.ledger(), x) as int == total_of_id(av.take(kk), x));
                if x != id {
                    assert(lookup(store.ledger(), x) == lookup(pre.ledger(), x));
                }
            }
        }
    }
    proof {
        assert(av.take(n as int) =~= av);
    }
    Ok(total)
}

/// Initialization: validates `decimals`, seeds the balances (summing what
/// the distribution grants each identifier), computes the total supply with
/// checked additions, enforces the cap, and persists the metadata — one
/// atomic unit. On any failure the store is exactly as it was.
pub fn instantiate(store: &mut Store, msg: InitMsg) -> (r: Result<(), ContractError>)
    ensures
        r is Ok <==> init_ok(msg),
        match r {
            Ok(_) => final(store).wf() && inited(msg, *final(store)),
            Err(e) => *final(store) == *old(store) && e == init_error(msg),
        },
{
    match msg.validate() {
        Ok(_) => {},
        Err(e) => {
            return Err(e);
        },
    }
    let mut fresh = Store::new();
    let total = match create_accounts(&mut fresh, &msg.initial_balances) {
        Ok(t) => t,
        Err(e) => {
            return Err(e);
        },
    };
    match msg.get_cap() {
        Some(limit) => {
            if total > limit {
                return Err(ContractError::CapExceeded);
            }
        },
        None => {},
    }
    let data = Meta {
        name: msg.name,
        symbol: msg.symbol,
        decimals: msg.decimals,
        total_supply: total,
        mint: msg.mint,
    };
    fresh.token_info = Some(data);
    *store = fresh;
    Ok(())
}

/// Mint: only the configured minter may call; the new total must fit the
/// amount type and respect the cap; then the total supply and the
/// recipient's balance grow by `amount` as one atomic transaction, reported
/// by an audit record. On any failure the store is exactly as it was.
pub fn execute_mint(store: &mut Store, sender: String, recipient: String, amount: u128) -> (r:
    Result<MintEvent, ContractError>)
    requires
        old(store).wf(),
    ensures
        final(store).wf(),
        r is Ok <==> authorized(*old(store), sender@) && total_supply_of(*old(store)) + amount
            <= u128::MAX && cap_allows(*old(store), total_supply_of(*old(store)) + amount),
        match r {
            Ok(ev) => {
                &&& mint_applied(*old(store), *final(store), recipient@, amount)
                &&& ev.action@ == "mint"@
                &&& ev.to@ == recipient@
                &&& ev.amount == amount
            },
            Err(e) => {
                &&& *final(store) == *old(store)
                &&& e == if !authorized(*old(store), sender@) {
                    ContractError::Unauthorized
                } else if total_supply_of(*old(store)) + amount > u128::MAX {
                    ContractError::ArithmeticOverflow
                } else {
                    ContractError::CapExceeded
                }
            },
        },
{
    let total: u128;
    let cap: Option<u128>;
    match &store.token_info {
        None => {
            return Err(ContractError::Unauthorized);
        },
        Some(m) => {
            total = m.total_supply;
            match &m.mint {
                None => {
                    return Err(ContractError::Unauthorized);
                },
                Some(md) => {
                    if md.minter != sender {
                        return Err(ContractError::Unauthorized);
                    }
                    cap = md.cap;
                },
            }
        },
    }
    if amount > u128::MAX - total {
        return Err(ContractError::ArithmeticOverflow);
    }
    let new_total = total + amount;
    match cap {
        Some(limit) => {
            if new_total > limit {
                return Err(ContractError::CapExceeded);
            }
        },
        None => {},
    }
    // the recipient's balance is at most the total supply, so its checked
    // add cannot fail once the supply add succeeded
    proof {
        lemma_lookup_le_sum(store.ledger(), recipient@);
    }
    let res = store.increase(&recipient, amount);
    match res {
        Ok(_) => {},
        Err(_) => {
            proof {
                assert(false);
            }
            return Err(ContractError::ArithmeticOverflow);
        },
    }
    match &mut store.token_info {
        Some(m) => {
            m.total_supply = new_total;
        },
        None => {
            proof {
                assert(false);
            }
        },
    }
    let ev = MintEvent { action: String::from_str("mint"), to: recipient, amount };
    Ok(ev)
}

/// Metadata lookup; fails exactly when initialization never ran.
pub fn query_token_info(store: &Store) -> (r: Result<TokenInfoResponse, ContractError>)
    ensures
        r is Ok <==> store.token_info is Some,
        match r {
            Ok(ti) => match store.token_info {
                Some(m) => {
                    &&& ti.name@ == m.name@
                    &&& ti.symbol@ == m.symbol@
                    &&& ti.decimals == m.decimals
                    &&& ti.total_supply == m.total_supply
                },
                None => false,
            },
            Err(e) => e == ContractError::NotInitialized,
        },
{
    match &store.token_info {
        Some(m) => Ok(
            TokenInfoResponse {
                name: m.name.clone(),
                symbol: m.symbol.clone(),
                decimals: m.decimals,
                total_supply: m.total_supply,
            },
        ),
        None => Err(ContractError::NotInitialized),
    }
}

/// Balance lookup; unknown identifiers report zero. Never fails.
pub fn query_balance(store: &Store, address: String) -> (r: BalanceResponse)
    requires
        distinct_keys(store.ledger()),
    ensures
        r.balance == lookup(store.ledger(), address@),
{
    BalanceResponse { balance: store.get(&address) }
}

/// Minter lookup: the configured authority and its cap, `None` when minting
/// was never configured. Never fails.
pub fn query_minter(store: &Store) -> (r: Option<crate::state::MinterData>)
    ensures
        r is Some <==> (match store.token_info {
            Some(m) => m.mint is Some,
            None => false,
        }),
        match r {
            Some(md) => match store.token_info {
                Some(m) => match m.mint {
                    Some(md0) => md.minter@ == md0.minter@ && md.cap == md0.cap,
                    None => false,
                },
                None => false,
            },
            None => true,
        },
{
    match &store.token_info {
        Some(m) => match &m.mint {
            Some(md) => Some(
                crate::state::MinterData { minter: md.minter.clone(), cap: md.cap },
            ),
            None => None,
        },
        None => None,
    }
}

/// Conservation: in every well-formed state that carries metadata, the sum
/// of all balances equals the recorded total supply.
pub proof fn lemma_conservation(s: Store)
    requires
        s.wf(),
    ensures
        match s.token_info {
            Some(m) => sum_amounts(s.ledger()) == m.total_supply as int,
            None => true,
        },
{
}

/// Cap enforcement: in every well-formed state, a configured cap bounds the
/// recorded total supply.
pub proof fn lemma_cap_respected(s: Store)
    requires
        s.wf(),
    ensures
        match cap_of(s) {
            Some(c) => total_supply_of(s) <= c as int,
            None => true,
        },
{
}

/// Minting is not idempotent: two successful mints of the same amount to the
/// same recipient accumulate additively — the recipient's balance and the
/// total supply each grow by twice the amount, never collapsing to one
/// effect.
pub proof fn lemma_mint_twice_accumulates(
    s0: Store,
    s1: Store,
    s2: Store,
    recipient: Seq<char>,
    amount: u128,
)
    requires
        mint_applied(s0, s1, recipient, amount),
        mint_applied(s1, s2, recipient, amount),
    ensures
        lookup(s2.ledger(), recipient) as int == lookup(s0.ledger(), recipient) + 2 * amount,
        total_supply_of(s2) == total_supply_of(s0) + 2 * amount,
{
}

} // verus!
