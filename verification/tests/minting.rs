use token_ledger::contract::{
    execute_mint, instantiate, query_balance, query_minter, query_token_info,
};
use token_ledger::msg::{InitMsg, InitialBalance};
use token_ledger::state::{MinterData, Store};

fn get_balance(store: &Store, address: &str) -> u128 {
    query_balance(store, address.to_string()).balance
}

fn make_msg(
    name: &str,
    symbol: &str,
    decimals: u8,
    balances: Vec<(&str, u128)>,
    mint: Option<(&str, Option<u128>)>,
) -> InitMsg {
    InitMsg {
        name: name.to_string(),
        symbol: symbol.to_string(),
        decimals,
        initial_balances: balances
            .into_iter()
            .map(|(a, amount)| InitialBalance { address: a.to_string(), amount })
            .collect(),
        mint: mint.map(|(minter, cap)| MinterData { minter: minter.to_string(), cap }),
    }
}

#[test]
fn minting() {
    let mut store = Store::new();
    let amount: u128 = 1000000;
    let minter = String::from("asmodat");
    let limit: u128 = 1000000000;
    let instantiate_msg = make_msg(
        "Metallex Token",
        "META",
        9,
        vec![("addr0000", amount)],
        Some((&minter, Some(limit))),
    );
    let res = instantiate(&mut store, instantiate_msg);
    assert!(res.is_ok());

    let meta = query_token_info(&store).unwrap();
    assert_eq!(meta.name, "Metallex Token");
    assert_eq!(meta.symbol, "META");
    assert_eq!(meta.decimals, 9);
    assert_eq!(meta.total_supply, amount);
    assert_eq!(get_balance(&store, "addr0000"), 1000000u128);
}

#[test]
fn init_scenario_reports_balances_metadata_and_minter() {
    let mut store = Store::new();
    let msg = make_msg(
        "Cash",
        "CASH",
        9,
        vec![("addr1", 11223344)],
        Some(("asmodat", Some(511223344))),
    );
    assert!(instantiate(&mut store, msg).is_ok());

    assert_eq!(get_balance(&store, "addr1"), 11223344);
    assert_eq!(query_token_info(&store).unwrap().total_supply, 11223344);
    let minter = query_minter(&store).unwrap();
    assert_eq!(minter.minter, "asmodat");
    assert_eq!(minter.cap, Some(511223344));
}

#[test]
fn mint_scenario_credits_recipient_and_raises_supply() {
    let mut store = Store::new();
    let msg = make_msg(
        "Cash",
        "CASH",
        9,
        vec![("addr1", 11223344)],
        Some(("asmodat", Some(511223344))),
    );
    assert!(instantiate(&mut store, msg).is_ok());

    let ev = execute_mint(
        &mut store,
        "asmodat".to_string(),
        "addr2".to_string(),
        1000,
    )
    .unwrap();
    assert_eq!(ev.action, "mint");
    assert_eq!(ev.to, "addr2");
    assert_eq!(ev.amount, 1000);

    assert_eq!(get_balance(&store, "addr2"), 1000);
    assert_eq!(query_token_info(&store).unwrap().total_supply, 11224344);
    // the earlier holder is untouched
    assert_eq!(get_balance(&store, "addr1"), 11223344);
}

#[test]
fn mint_by_stranger_is_rejected_without_state_change() {
    let mut store = Store::new();
    let msg = make_msg(
        "Cash",
        "CASH",
        9,
        vec![("addr1", 11223344)],
        Some(("asmodat", Some(511223344))),
    );
    assert!(instantiate(&mut store, msg).is_ok());

    let err = execute_mint(&mut store, "attacker".to_string(), "addr2".to_string(), 1)
        .unwrap_err();
    assert_eq!(err, token_ledger::error::ContractError::Unauthorized);
    assert_eq!(get_balance(&store, "addr1"), 11223344);
    assert_eq!(get_balance(&store, "addr2"), 0);
    assert_eq!(query_token_info(&store).unwrap().total_supply, 11223344);
}

#[test]
fn repeating_a_mint_accumulates_twice() {
    let mut store = Store::new();
    let msg = make_msg("Cash", "CASH", 6, vec![("addr1", 500)], Some(("asmodat", None)));
    assert!(instantiate(&mut store, msg).is_ok());

    assert!(execute_mint(&mut store, "asmodat".to_string(), "addr2".to_string(), 40).is_ok());
    assert!(execute_mint(&mut store, "asmodat".to_string(), "addr2".to_string(), 40).is_ok());

    // additive, never collapsed to a single effect
    assert_eq!(get_balance(&store, "addr2"), 80);
    assert_eq!(query_token_info(&store).unwrap().total_supply, 580);
}
