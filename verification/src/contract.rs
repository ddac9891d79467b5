//! The ledger's operations: creation, the three state transitions and the
//! balance query. Every refusal is decided before anything is written, so a
//! call that fails leaves the ledger exactly as it found it.

use vstd::prelude::*;
use cosmwasm_std::StdError;
use crate::error::ContractError;
use crate::msg::{ExecuteMsg, InstantiateMsg, QueryMsg, Response};
use crate::state::{
    distinct_addresses, ids_of, lemma_balance_at, lemma_credit_existing, lemma_credit_new,
    lemma_sum_push, lemma_sum_update, Account, Config, Ledger, Token,
};
use crate::text::{decimal, json_quoted, uint128_to_json, uint128_to_string};

verus! {

/// Why a mint is refused, if it is: the first failing check in the order
/// minting enabled, caller a minter, cap respected, recipient valid.
pub open spec fn mint_refusal(
    ledger: Ledger,
    sender: Seq<char>,
    recipient: Result<String, StdError>,
    amount: u128,
) -> Option<ContractError> {
    if !ledger.config.mint_enabled {
        Some(ContractError::MintingDisabled {  })
    } else if !ledger.config.is_minter(sender) {
        Some(ContractError::Unauthorized {  })
    } else if ledger.total_supply + amount > ledger.config.supply_cap {
        Some(ContractError::SupplyCapExceeded {  })
    } else {
        match recipient {
            Err(e) => Some(ContractError::Std(e)),
            Ok(_) => None,
        }
    }
}

/// Why a change to the list of minters is refused, if it is: the caller is
/// not the admin, the address is invalid, or the identity's membership is
/// not `expect_member`.
pub open spec fn minter_change_refusal(
    config: Config,
    sender: Seq<char>,
    minter: Result<String, StdError>,
    expect_member: bool,
) -> Option<ContractError> {
    if sender != config.admin@ {
        Some(ContractError::Unauthorized {  })
    } else {
        match minter {
            Err(e) => Some(ContractError::Std(e)),
            Ok(who) => if config.is_minter(who@) == expect_member {
                None
            } else if expect_member {
                Some(ContractError::MinterNotFound {  })
            } else {
                Some(ContractError::MinterAlreadyExists {  })
            },
        }
    }
}

/// The attributes a successful mint reports.
pub open spec fn mint_attributes(recipient: Seq<char>, amount: u128, total_supply: u128) -> Seq<
    (Seq<char>, Seq<char>),
> {
    seq![
        ("action"@, "mint"@),
        ("recipient"@, recipient),
        ("amount"@, decimal(amount as nat)),
        ("total_supply"@, decimal(total_supply as nat)),
    ]
}

/// The attributes a successful change to the list of minters reports.
pub open spec fn minter_attributes(action: Seq<char>, minter: Seq<char>) -> Seq<
    (Seq<char>, Seq<char>),
> {
    seq![("action"@, action), ("minter"@, minter)]
}

/// The predicate that keeps every identity but `who`.
pub open spec fn other_than(who: Seq<char>) -> spec_fn(Seq<char>) -> bool {
    |m: Seq<char>| m != who
}

/// What a mint does to the ledger and answers, in full.
pub open spec fn mint_outcome(
    before: Ledger,
    after: Ledger,
    sender: Seq<char>,
    recipient: Result<String, StdError>,
    amount: u128,
    result: Result<Response, ContractError>,
) -> bool {
    match mint_refusal(before, sender, recipient, amount) {
        Some(e) => result == Err::<Response, ContractError>(e) && after == before,
        None => {
            let who = recipient->Ok_0@;
            &&& result is Ok
            &&& result->Ok_0@ == mint_attributes(who, amount, after.total_supply)
            &&& after.config == before.config
            &&& after.total_supply == before.total_supply + amount
            &&& forall|a: Seq<char>| after.holds(a) == (before.holds(a) || a == who)
            &&& forall|a: Seq<char>| #[trigger]
                after.balance_of(a) == before.balance_of(a) + if a == who {
                    amount as nat
                } else {
                    0
                }
            &&& before.wf() ==> after.wf()
            &&& before.wf() && before.consistent() ==> after.consistent()
        },
    }
}

/// What adding a minter does to the ledger and answers, in full.
pub open spec fn add_minter_outcome(
    before: Ledger,
    after: Ledger,
    sender: Seq<char>,
    minter: Result<String, StdError>,
    result: Result<Response, ContractError>,
) -> bool {
    match minter_change_refusal(before.config, sender, minter, false) {
        Some(e) => result == Err::<Response, ContractError>(e) && after == before,
        None => {
            let who = minter->Ok_0@;
            &&& result is Ok
            &&& result->Ok_0@ == minter_attributes("add_minter"@, who)
            &&& after.config.minter_ids() == before.config.minter_ids().push(who)
            &&& after.config.admin == before.config.admin
            &&& after.config.mint_enabled == before.config.mint_enabled
            &&& after.config.supply_cap == before.config.supply_cap
            &&& after.total_supply == before.total_supply
            &&& after.accounts == before.accounts
        },
    }
}

/// What removing a minter does to the ledger and answers, in full.
pub open spec fn remove_minter_outcome(
    before: Ledger,
    after: Ledger,
    sender: Seq<char>,
    minter: Result<String, StdError>,
    result: Result<Response, ContractError>,
) -> bool {
    match minter_change_refusal(before.config, sender, minter, true) {
        Some(e) => result == Err::<Response, ContractError>(e) && after == before,
        None => {
            let who = minter->Ok_0@;
            &&& result is Ok
            &&& result->Ok_0@ == minter_attributes("remove_minter"@, who)
            &&& after.config.minter_ids() == before.config.minter_ids().filter(other_than(who))
            &&& !after.config.is_minter(who)
            &&& after.config.admin == before.config.admin
            &&& after.config.mint_enabled == before.config.mint_enabled
            &&& after.config.supply_cap == before.config.supply_cap
            &&& after.total_supply == before.total_supply
            &&& after.accounts == before.accounts
        },
    }
}

/// Whether `bytes` is the encoded answer for `balance`.
pub open spec fn balance_encoding(balance: nat, bytes: Seq<u8>) -> bool {
    bytes == json_quoted(decimal(balance))
}

/// Creates the ledger: the deployer is admin and the only minter, the flag
/// and the cap are as asked, nothing has been minted.
pub fn instantiate(sender: &String, msg: InstantiateMsg) -> (ledger: Ledger)
    ensures
        ledger.config.admin@ == sender@,
        ledger.config.minter_ids() == seq![sender@],
        ledger.config.mint_enabled == msg.mint_enabled,
        ledger.config.supply_cap == msg.supply_cap,
        ledger.total_supply == 0,
        ledger.accounts@.len() == 0,
        forall|who: Seq<char>| ledger.balance_of(who) == 0,
        ledger.wf(),
        ledger.consistent(),
{
    let mut minters: Vec<String> = Vec::new();
    minters.push(sender.clone());
    let config = Config {
        admin: sender.clone(),
        mint_enabled: msg.mint_enabled,
        minters,
        supply_cap: msg.supply_cap,
    };
    assert(config.minter_ids() =~= seq![sender@]);
    Ledger { config, total_supply: 0, accounts: Vec::new() }
}

/// Routes a transition to the operation it names.
pub fn execute(ledger: &mut Ledger, sender: &String, msg: ExecuteMsg) -> (result: Result<
    Response,
    ContractError,
>)
    requires
        msg is Mint ==> old(ledger).wf(),
    ensures
        old(ledger).wf() ==> final(ledger).wf(),
        old(ledger).consistent() ==> final(ledger).consistent(),
        match msg {
            ExecuteMsg::Mint { recipient, amount } => mint_outcome(
                *old(ledger),
                *final(ledger),
                sender@,
                recipient,
                amount,
                result,
            ),
            ExecuteMsg::AddMinter { minter } => add_minter_outcome(
                *old(ledger),
                *final(ledger),
                sender@,
                minter,
                result,
            ),
            ExecuteMsg::RemoveMinter { minter } => remove_minter_outcome(
                *old(ledger),
                *final(ledger),
                sender@,
                minter,
                result,
            ),
        },
{
    match msg {
        ExecuteMsg::Mint { recipient, amount } => execute_mint(ledger, sender, recipient, amount),
        ExecuteMsg::AddMinter { minter } => execute_add_minter(ledger, sender, minter),
        ExecuteMsg::RemoveMinter { minter } => execute_remove_minter(ledger, sender, minter),
    }
}

/// Credits `amount` to the recipient and to the total supply, provided that
/// minting is enabled, the caller is a minter, the cap is respected and the
/// recipient's address is valid; refuses otherwise and changes nothing.
pub fn execute_mint(
    ledger: &mut Ledger,
    sender: &String,
    recipient: Result<String, StdError>,
    amount: u128,
) -> (result: Result<Response, ContractError>)
    requires
        old(ledger).wf(),
    ensures
        mint_outcome(*old(ledger), *final(ledger), sender@, recipient, amount, result),
        final(ledger).wf(),
        old(ledger).consistent() ==> final(ledger).consistent(),
{
    if !ledger.config.mint_enabled {
        return Err(ContractError::MintingDisabled {  });
    }
    if !ledger.config.has_minter(sender) {
        return Err(ContractError::Unauthorized {  });
    }
    let total_supply: u128 = match ledger.total_supply.checked_add(amount) {
        Some(sum) => sum,
        None => {
            return Err(ContractError::SupplyCapExceeded {  });
        },
    };
    if total_supply > ledger.config.supply_cap {
        return Err(ContractError::SupplyCapExceeded {  });
    }
    let recipient_addr: String = match recipient {
        Ok(addr) => addr,
        Err(e) => {
            return Err(ContractError::Std(e));
        },
    };
    let ghost before = ledger.accounts@;
    match ledger.find_account(&recipient_addr) {
        Some(i) => {
            let balance: u128 = ledger.accounts[i].token.balance + amount;
            let entry = Account { address: recipient_addr.clone(), token: Token { balance } };
            ledger.accounts.set(i, entry);
            proof {
                lemma_credit_existing(before, ledger.accounts@, i as int, amount as nat);
                lemma_sum_update(before, i as int, entry);
            }
        },
        None => {
            let entry = Account { address: recipient_addr.clone(), token: Token { balance: amount } };
            ledger.accounts.push(entry);
            proof {
                lemma_credit_new(before, entry);
                lemma_sum_push(before, entry);
            }
        },
    }
    ledger.total_supply = total_supply;
    let response = Response::new().add_attribute("action", "mint".to_owned()).add_attribute(
        "recipient",
        recipient_addr,
    ).add_attribute("amount", uint128_to_string(amount)).add_attribute(
        "total_supply",
        uint128_to_string(total_supply),
    );
    assert(response@ =~= mint_attributes(recipient_addr@, amount, total_supply));
    Ok(response)
}

/// Appends an identity to the list of minters, provided that the caller is
/// the admin, the address is valid and the identity is not yet a minter;
/// refuses otherwise and changes nothing.
pub fn execute_add_minter(
    ledger: &mut Ledger,
    sender: &String,
    minter: Result<String, StdError>,
) -> (result: Result<Response, ContractError>)
    ensures
        add_minter_outcome(*old(ledger), *final(ledger), sender@, minter, result),
        old(ledger).wf() ==> final(ledger).wf(),
        old(ledger).consistent() ==> final(ledger).consistent(),
{
    if !(*sender == ledger.config.admin) {
        return Err(ContractError::Unauthorized {  });
    }
    let minter_addr: String = match minter {
        Ok(addr) => addr,
        Err(e) => {
            return Err(ContractError::Std(e));
        },
    };
    if ledger.config.has_minter(&minter_addr) {
        return Err(ContractError::MinterAlreadyExists {  });
    }
    ledger.config.minters.push(minter_addr.clone());
    assert(ledger.config.minter_ids() =~= old(ledger).config.minter_ids().push(minter_addr@));
    let response = Response::new().add_attribute("action", "add_minter".to_owned()).add_attribute(
        "minter",
        minter_addr,
    );
    assert(response@ =~= minter_attributes("add_minter"@, minter_addr@));
    Ok(response)
}

/// The list `minters` without any occurrence of `who`, order kept.
pub fn minters_without(minters: &Vec<String>, who: &String) -> (kept: Vec<String>)
    ensures
        ids_of(kept@) == ids_of(minters@).filter(other_than(who@)),
        !ids_of(kept@).contains(who@),
        ids_of(minters@).no_duplicates() ==> ids_of(kept@).no_duplicates(),
{
    let ghost ids = ids_of(minters@);
    let ghost keep = other_than(who@);
    let mut kept: Vec<String> = Vec::new();
    let mut i: usize = 0;
    proof {
        reveal(Seq::filter);
        assert(ids.take(0) =~= Seq::<Seq<char>>::empty());
        assert(ids_of(kept@) =~= ids.take(0).filter(keep));
    }
    while i < minters.len()
        invariant
            i <= minters@.len(),
            ids == ids_of(minters@),
            keep == other_than(who@),
            ids_of(kept@) == ids.take(i as int).filter(keep),
            forall|k: int| 0 <= k < kept@.len() ==> #[trigger] ids_of(kept@)[k] != who@,
            forall|k: int|
                0 <= k < kept@.len() ==> exists|j: int|
                    0 <= j < i && ids[j] == #[trigger] ids_of(kept@)[k],
            ids.no_duplicates() ==> ids_of(kept@).no_duplicates(),
        decreases minters@.len() - i,
    {
        let ghost kept_before = ids_of(kept@);
        proof {
            reveal(Seq::filter);
            assert(ids.take(i + 1).drop_last() =~= ids.take(i as int));
            assert(ids.take(i + 1).last() == ids[i as int]);
        }
        if !(minters[i] == *who) {
            kept.push(minters[i].clone());
            proof {
                assert(ids_of(kept@) =~= kept_before.push(ids[i as int]));
                assert forall|k: int| 0 <= k < kept@.len() implies exists|j: int|
                    0 <= j < i + 1 && ids[j] == #[trigger] ids_of(kept@)[k] by {
                    if k < kept_before.len() {
                        assert(ids_of(kept@)[k] == kept_before[k]);
                        let j = choose|j: int| 0 <= j < i && ids[j] == kept_before[k];
                        assert(0 <= j < i + 1 && ids[j] == ids_of(kept@)[k]);
                    } else {
                        assert(ids[i as int] == ids_of(kept@)[k]);
                    }
                }
                if ids.no_duplicates() {
                    assert forall|a: int, b: int|
                        0 <= a < kept@.len() && 0 <= b < kept@.len() && a != b implies ids_of(
                        kept@,
                    )[a] != ids_of(kept@)[b] by {
                        if a < kept_before.len() && b < kept_before.len() {
                            assert(kept_before[a] != kept_before[b]);
                        } else if a < kept_before.len() {
                            let j = choose|j: int| 0 <= j < i && ids[j] == kept_before[a];
                            assert(ids[j] != ids[i as int]);
                        } else {
                            let j = choose|j: int| 0 <= j < i && ids[j] == kept_before[b];
                            assert(ids[j] != ids[i as int]);
                        }
                    }
                }
            }
        }
        i += 1;
    }
    proof {
        assert(ids.take(i as int) =~= ids);
    }
    kept
}

/// Removes an identity from the list of minters, provided that the caller is
/// the admin, the address is valid and the identity is a minter; refuses
/// otherwise and changes nothing.
pub fn execute_remove_minter(
    ledger: &mut Ledger,
    sender: &String,
    minter: Result<String, StdError>,
) -> (result: Result<Response, ContractError>)
    ensures
        remove_minter_outcome(*old(ledger), *final(ledger), sender@, minter, result),
        old(ledger).wf() ==> final(ledger).wf(),
        old(ledger).consistent() ==> final(ledger).consistent(),
{
    if !(*sender == ledger.config.admin) {
        return Err(ContractError::Unauthorized {  });
    }
    let minter_addr: String = match minter {
        Ok(addr) => addr,
        Err(e) => {
            return Err(ContractError::Std(e));
        },
    };
    if !ledger.config.has_minter(&minter_addr) {
        return Err(ContractError::MinterNotFound {  });
    }
    let kept = minters_without(&ledger.config.minters, &minter_addr);
    ledger.config.minters = kept;
    let response = Response::new().add_attribute(
        "action",
        "remove_minter".to_owned(),
    ).add_attribute("minter", minter_addr);
    assert(response@ =~= minter_attributes("remove_minter"@, minter_addr@));
    Ok(response)
}

/// Answers a query: the balance, encoded as a JSON string of its base-ten
/// notation. An invalid address is refused with the validator's failure.
pub fn query(ledger: &Ledger, msg: QueryMsg) -> (result: Result<Vec<u8>, StdError>)
    requires
        distinct_addresses(ledger.accounts@),
    ensures
        match msg {
            QueryMsg::Balance { address } => match address {
                Err(e) => result == Err::<Vec<u8>, StdError>(e),
                Ok(who) => result matches Ok(bytes) && balance_encoding(
                    ledger.balance_of(who@),
                    bytes@,
                ),
            },
        },
{
    match msg {
        QueryMsg::Balance { address } => match query_balance(ledger, address) {
            Ok(balance) => uint128_to_json(balance),
            Err(e) => Err(e),
        },
    }
}

/// What `address` is owed: the balance of its entry, zero if it has none.
/// An invalid address is refused with the validator's failure.
pub fn query_balance(ledger: &Ledger, address: Result<String, StdError>) -> (result: Result<
    u128,
    StdError,
>)
    requires
        distinct_addresses(ledger.accounts@),
    ensures
        match address {
            Err(e) => result == Err::<u128, StdError>(e),
            Ok(who) => result == Ok::<u128, StdError>(ledger.balance_of(who@) as u128)
                && ledger.balance_of(who@) <= u128::MAX,
        },
{
    let addr: String = match address {
        Ok(addr) => addr,
        Err(e) => {
            return Err(e);
        },
    };
    match ledger.find_account(&addr) {
        Some(i) => {
            proof {
                lemma_balance_at(ledger.accounts@, i as int);
            }
            Ok(ledger.accounts[i].token.balance)
        },
        None => Ok(0),
    }
}

} // verus!
