use cosmwasm_std::StdError;
use token_ledger::contract::{
    execute, execute_add_minter, execute_mint, execute_remove_minter, instantiate,
    minters_without, query, query_balance,
};
use token_ledger::error::ContractError;
use token_ledger::msg::{Attribute, ExecuteMsg, InstantiateMsg, QueryMsg, Response};
use token_ledger::state::{all_distinct, Account, Config, Ledger, Token};

fn id(s: &str) -> String {
    s.to_string()
}

fn ok(s: &str) -> Result<String, StdError> {
    Ok(s.to_string())
}

fn fresh(cap: u128, enabled: bool) -> Ledger {
    instantiate(&id("admin"), InstantiateMsg { mint_enabled: enabled, supply_cap: cap })
}

fn attr(key: &str, value: &str) -> Attribute {
    Attribute { key: key.to_string(), value: value.to_string() }
}

fn balance(ledger: &Ledger, who: &str) -> u128 {
    query_balance(ledger, ok(who)).unwrap()
}

fn sum_of_balances(ledger: &Ledger) -> u128 {
    ledger.accounts.iter().map(|a| a.token.balance).sum()
}

#[test]
fn instantiate_sets_admin_as_only_minter() {
    let ledger = fresh(1000, true);
    assert_eq!(
        ledger.config,
        Config {
            admin: id("admin"),
            mint_enabled: true,
            minters: vec![id("admin")],
            supply_cap: 1000,
        }
    );
    assert_eq!(ledger.total_supply, 0);
    assert!(ledger.accounts.is_empty());
    assert!(ledger.check());
}

#[test]
fn scenario_mint_cap_and_minter_changes() {
    let admin = id("admin");
    let bob = id("bob");
    let mut ledger = fresh(1000, true);

    let r = execute_mint(&mut ledger, &admin, ok("alice"), 400);
    assert!(r.is_ok());
    assert_eq!(ledger.total_supply, 400);

    let r = execute_mint(&mut ledger, &admin, ok("alice"), 700);
    assert!(matches!(r, Err(ContractError::SupplyCapExceeded {})));
    assert_eq!(ledger.total_supply, 400);

    let r = execute_add_minter(&mut ledger, &admin, ok("bob"));
    assert!(r.is_ok());

    let r = execute_mint(&mut ledger, &bob, ok("alice"), 300);
    assert!(r.is_ok());
    assert_eq!(ledger.total_supply, 700);
    assert_eq!(balance(&ledger, "alice"), 700);

    let r = execute_remove_minter(&mut ledger, &admin, ok("bob"));
    assert!(r.is_ok());

    let r = execute_mint(&mut ledger, &bob, ok("alice"), 1);
    assert!(matches!(r, Err(ContractError::Unauthorized {})));
    assert_eq!(ledger.total_supply, 700);
    assert!(ledger.check());
}

#[test]
fn mint_reports_its_attributes() {
    let mut ledger = fresh(1_000_000, true);
    execute_mint(&mut ledger, &id("admin"), ok("alice"), 400).unwrap();
    let r = execute_mint(&mut ledger, &id("admin"), ok("carol"), 12345).unwrap();
    assert_eq!(
        r,
        Response {
            attributes: vec![
                attr("action", "mint"),
                attr("recipient", "carol"),
                attr("amount", "12345"),
                attr("total_supply", "12745"),
            ],
        }
    );
}

#[test]
fn mint_renders_zero_and_the_largest_amount() {
    let mut ledger = fresh(u128::MAX, true);
    let r = execute_mint(&mut ledger, &id("admin"), ok("alice"), 0).unwrap();
    assert_eq!(r.attributes[2], attr("amount", "0"));
    assert_eq!(r.attributes[3], attr("total_supply", "0"));
    let r = execute_mint(&mut ledger, &id("admin"), ok("alice"), u128::MAX).unwrap();
    assert_eq!(r.attributes[2], attr("amount", "340282366920938463463374607431768211455"));
    assert_eq!(balance(&ledger, "alice"), u128::MAX);
}

#[test]
fn total_supply_is_sum_of_successful_mints() {
    let admin = id("admin");
    let mut ledger = fresh(100, true);
    let mut minted: u128 = 0;
    for (who, amount) in [("a", 10u128), ("b", 50), ("a", 60), ("c", 40), ("b", 1), ("c", 0)] {
        if execute_mint(&mut ledger, &admin, ok(who), amount).is_ok() {
            minted += amount;
        }
        assert_eq!(ledger.total_supply, minted);
        assert_eq!(sum_of_balances(&ledger), ledger.total_supply);
        assert!(ledger.total_supply <= ledger.config.supply_cap);
    }
    assert_eq!(minted, 100);
    assert_eq!(balance(&ledger, "a"), 10);
    assert_eq!(balance(&ledger, "b"), 50);
    assert_eq!(balance(&ledger, "c"), 40);
}

#[test]
fn mint_up_to_the_cap_exactly() {
    let mut ledger = fresh(500, true);
    assert!(execute_mint(&mut ledger, &id("admin"), ok("alice"), 500).is_ok());
    assert_eq!(ledger.total_supply, 500);
    let r = execute_mint(&mut ledger, &id("admin"), ok("alice"), 1);
    assert!(matches!(r, Err(ContractError::SupplyCapExceeded {})));
    assert_eq!(ledger.total_supply, 500);
    assert_eq!(balance(&ledger, "alice"), 500);
}

#[test]
fn mint_overflow_counts_as_cap_violation() {
    let mut ledger = fresh(u128::MAX, true);
    execute_mint(&mut ledger, &id("admin"), ok("alice"), 5).unwrap();
    let before = ledger.clone();
    let r = execute_mint(&mut ledger, &id("admin"), ok("alice"), u128::MAX);
    assert!(matches!(r, Err(ContractError::SupplyCapExceeded {})));
    assert_eq!(ledger, before);
}

#[test]
fn mint_disabled_refuses_everyone() {
    let mut ledger = fresh(1000, false);
    let before = ledger.clone();
    for caller in ["admin", "bob", ""] {
        for amount in [0u128, 1, 1000, u128::MAX] {
            let r = execute_mint(&mut ledger, &id(caller), ok("alice"), amount);
            assert!(matches!(r, Err(ContractError::MintingDisabled {})));
        }
    }
    let r = execute_mint(&mut ledger, &id("admin"), Err(StdError::generic_err("bad")), 1);
    assert!(matches!(r, Err(ContractError::MintingDisabled {})));
    assert_eq!(ledger, before);
}

#[test]
fn mint_by_non_minter_is_unauthorized() {
    let mut ledger = fresh(1000, true);
    let r = execute_mint(&mut ledger, &id("mallory"), ok("mallory"), 1);
    assert!(matches!(r, Err(ContractError::Unauthorized {})));
    let r = execute_mint(&mut ledger, &id("mallory"), ok("mallory"), 5000);
    assert!(matches!(r, Err(ContractError::Unauthorized {})));
    assert_eq!(ledger.total_supply, 0);
    assert!(ledger.accounts.is_empty());
}

#[test]
fn admin_removed_from_minters_cannot_mint() {
    let admin = id("admin");
    let mut ledger = fresh(1000, true);
    execute_remove_minter(&mut ledger, &admin, ok("admin")).unwrap();
    assert!(ledger.config.minters.is_empty());
    let r = execute_mint(&mut ledger, &admin, ok("alice"), 1);
    assert!(matches!(r, Err(ContractError::Unauthorized {})));
    execute_add_minter(&mut ledger, &admin, ok("admin")).unwrap();
    assert!(execute_mint(&mut ledger, &admin, ok("alice"), 1).is_ok());
}

#[test]
fn mint_checks_come_in_order() {
    let mut ledger = fresh(10, true);
    let bad = || Err(StdError::generic_err("bad address"));
    let r = execute_mint(&mut ledger, &id("mallory"), bad(), 11);
    assert!(matches!(r, Err(ContractError::Unauthorized {})));
    let r = execute_mint(&mut ledger, &id("admin"), bad(), 11);
    assert!(matches!(r, Err(ContractError::SupplyCapExceeded {})));
    let r = execute_mint(&mut ledger, &id("admin"), bad(), 10);
    match r {
        Err(ContractError::Std(e)) => assert_eq!(e, StdError::generic_err("bad address")),
        other => panic!("unexpected: {:?}", other),
    }
    assert_eq!(ledger, fresh(10, true));
}

#[test]
fn minter_changes_are_for_the_admin_alone() {
    let admin = id("admin");
    let bob = id("bob");
    let mut ledger = fresh(1000, true);
    execute_add_minter(&mut ledger, &admin, ok("bob")).unwrap();
    let before = ledger.clone();

    let r = execute_add_minter(&mut ledger, &bob, ok("carol"));
    assert!(matches!(r, Err(ContractError::Unauthorized {})));
    let r = execute_remove_minter(&mut ledger, &bob, ok("admin"));
    assert!(matches!(r, Err(ContractError::Unauthorized {})));
    let r = execute_remove_minter(&mut ledger, &bob, ok("bob"));
    assert!(matches!(r, Err(ContractError::Unauthorized {})));
    let r = execute_add_minter(&mut ledger, &id("mallory"), Err(StdError::generic_err("x")));
    assert!(matches!(r, Err(ContractError::Unauthorized {})));
    assert_eq!(ledger, before);
}

#[test]
fn add_minter_appends_and_reports() {
    let admin = id("admin");
    let mut ledger = fresh(1000, true);
    let r = execute_add_minter(&mut ledger, &admin, ok("bob")).unwrap();
    assert_eq!(
        r,
        Response { attributes: vec![attr("action", "add_minter"), attr("minter", "bob")] }
    );
    execute_add_minter(&mut ledger, &admin, ok("carol")).unwrap();
    assert_eq!(ledger.config.minters, vec![id("admin"), id("bob"), id("carol")]);
    assert_eq!(ledger.config.admin, admin);
    assert_eq!(ledger.config.supply_cap, 1000);
    assert!(ledger.config.mint_enabled);
}

#[test]
fn add_present_minter_is_a_conflict() {
    let admin = id("admin");
    let mut ledger = fresh(1000, true);
    let r = execute_add_minter(&mut ledger, &admin, ok("admin"));
    assert!(matches!(r, Err(ContractError::MinterAlreadyExists {})));
    execute_add_minter(&mut ledger, &admin, ok("bob")).unwrap();
    let before = ledger.clone();
    let r = execute_add_minter(&mut ledger, &admin, ok("bob"));
    assert!(matches!(r, Err(ContractError::MinterAlreadyExists {})));
    assert_eq!(ledger, before);
    assert_eq!(ledger.config.minters, vec![id("admin"), id("bob")]);
}

#[test]
fn remove_minter_keeps_the_order_of_the_rest() {
    let admin = id("admin");
    let mut ledger = fresh(1000, true);
    execute_add_minter(&mut ledger, &admin, ok("bob")).unwrap();
    execute_add_minter(&mut ledger, &admin, ok("carol")).unwrap();
    let r = execute_remove_minter(&mut ledger, &admin, ok("bob")).unwrap();
    assert_eq!(
        r,
        Response { attributes: vec![attr("action", "remove_minter"), attr("minter", "bob")] }
    );
    assert_eq!(ledger.config.minters, vec![id("admin"), id("carol")]);
}

#[test]
fn remove_absent_minter_is_a_conflict() {
    let admin = id("admin");
    let mut ledger = fresh(1000, true);
    let before = ledger.clone();
    let r = execute_remove_minter(&mut ledger, &admin, ok("bob"));
    assert!(matches!(r, Err(ContractError::MinterNotFound {})));
    assert_eq!(ledger, before);
}

#[test]
fn minter_changes_pass_on_an_invalid_address() {
    let admin = id("admin");
    let mut ledger = fresh(1000, true);
    let r = execute_add_minter(&mut ledger, &admin, Err(StdError::generic_err("nope")));
    match r {
        Err(ContractError::Std(e)) => assert_eq!(e, StdError::generic_err("nope")),
        other => panic!("unexpected: {:?}", other),
    }
    let r = execute_remove_minter(&mut ledger, &admin, Err(StdError::generic_err("nope")));
    assert!(matches!(r, Err(ContractError::Std(_))));
    assert_eq!(ledger, fresh(1000, true));
}

#[test]
fn minters_without_drops_every_occurrence() {
    let minters = vec![id("a"), id("b"), id("a"), id("c"), id("a")];
    assert_eq!(minters_without(&minters, &id("a")), vec![id("b"), id("c")]);
    assert_eq!(minters_without(&minters, &id("z")), minters);
    assert_eq!(minters_without(&Vec::new(), &id("a")), Vec::<String>::new());
}

#[test]
fn balance_of_unminted_address_is_zero() {
    let mut ledger = fresh(1000, true);
    assert_eq!(balance(&ledger, "alice"), 0);
    execute_mint(&mut ledger, &id("admin"), ok("alice"), 7).unwrap();
    assert_eq!(balance(&ledger, "alice"), 7);
    assert_eq!(balance(&ledger, "bob"), 0);
    assert_eq!(balance(&ledger, ""), 0);
}

#[test]
fn query_balance_passes_on_an_invalid_address() {
    let ledger = fresh(1000, true);
    let r = query_balance(&ledger, Err(StdError::generic_err("bad")));
    assert_eq!(r, Err(StdError::generic_err("bad")));
    let r = query(&ledger, QueryMsg::Balance { address: Err(StdError::generic_err("bad")) });
    assert_eq!(r, Err(StdError::generic_err("bad")));
}

#[test]
fn query_encodes_the_balance_as_a_json_string() {
    let mut ledger = fresh(1000, true);
    let r = query(&ledger, QueryMsg::Balance { address: ok("alice") }).unwrap();
    assert_eq!(r, b"\"0\"".to_vec());
    execute_mint(&mut ledger, &id("admin"), ok("alice"), 700).unwrap();
    let r = query(&ledger, QueryMsg::Balance { address: ok("alice") }).unwrap();
    assert_eq!(r, b"\"700\"".to_vec());
}

#[test]
fn execute_routes_each_message() {
    let admin = id("admin");
    let mut ledger = fresh(1000, true);
    let r = execute(&mut ledger, &admin, ExecuteMsg::AddMinter { minter: ok("bob") }).unwrap();
    assert_eq!(r.attributes[0], attr("action", "add_minter"));
    let r = execute(
        &mut ledger,
        &id("bob"),
        ExecuteMsg::Mint { recipient: ok("alice"), amount: 250 },
    )
    .unwrap();
    assert_eq!(r.attributes[0], attr("action", "mint"));
    assert_eq!(ledger.total_supply, 250);
    let r = execute(&mut ledger, &admin, ExecuteMsg::RemoveMinter { minter: ok("bob") }).unwrap();
    assert_eq!(r.attributes[0], attr("action", "remove_minter"));
    assert_eq!(ledger.config.minters, vec![admin.clone()]);
    let r = execute(&mut ledger, &id("bob"), ExecuteMsg::Mint { recipient: ok("bob"), amount: 1 });
    assert!(matches!(r, Err(ContractError::Unauthorized {})));
}

#[test]
fn error_messages() {
    assert_eq!(ContractError::Unauthorized {}.message(), "Unauthorized");
    assert_eq!(ContractError::MintingDisabled {}.message(), "Minting is currently disabled");
    assert_eq!(ContractError::SupplyCapExceeded {}.message(), "Supply cap exceeded");
    assert_eq!(ContractError::MinterAlreadyExists {}.message(), "Minter already exists");
    assert_eq!(ContractError::MinterNotFound {}.message(), "Minter not found");
    let e = StdError::generic_err("bad address");
    assert_eq!(ContractError::Std(e).message(), "Generic error: bad address");
}

#[test]
fn check_tells_well_formed_states() {
    let token = |balance: u128| Token { balance };
    let config = Config {
        admin: id("admin"),
        mint_enabled: true,
        minters: vec![id("admin"), id("bob")],
        supply_cap: 100,
    };
    let good = Ledger {
        config: config.clone(),
        total_supply: 30,
        accounts: vec![
            Account { address: id("a"), token: token(10) },
            Account { address: id("b"), token: token(20) },
        ],
    };
    assert!(good.check());

    let mut over_cap = good.clone();
    over_cap.total_supply = 101;
    assert!(!over_cap.check());

    let mut too_rich = good.clone();
    too_rich.accounts[1].token.balance = 31;
    assert!(!too_rich.check());

    let mut twice = good.clone();
    twice.accounts.push(Account { address: id("a"), token: token(0) });
    assert!(!twice.check());

    let mut minter_twice = good.clone();
    minter_twice.config.minters.push(id("admin"));
    assert!(!minter_twice.check());
}

#[test]
fn all_distinct_finds_repeats() {
    assert!(all_distinct(&Vec::new()));
    assert!(all_distinct(&vec![id("a"), id("b"), id("c")]));
    assert!(!all_distinct(&vec![id("a"), id("b"), id("a")]));
    assert!(!all_distinct(&vec![id("b"), id("b")]));
}

#[test]
fn has_minter_and_find_account() {
    let mut ledger = fresh(1000, true);
    assert!(ledger.config.has_minter(&id("admin")));
    assert!(!ledger.config.has_minter(&id("Admin")));
    assert_eq!(ledger.find_account(&id("alice")), None);
    execute_mint(&mut ledger, &id("admin"), ok("alice"), 1).unwrap();
    execute_mint(&mut ledger, &id("admin"), ok("bob"), 2).unwrap();
    execute_mint(&mut ledger, &id("admin"), ok("alice"), 3).unwrap();
    assert_eq!(ledger.find_account(&id("alice")), Some(0));
    assert_eq!(ledger.find_account(&id("bob")), Some(1));
    assert_eq!(ledger.accounts.len(), 2);
    assert_eq!(ledger.accounts[0].token, Token { balance: 4 });
}
