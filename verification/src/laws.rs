//! What holds of the operations taken together, proved from their contracts.

use vstd::prelude::*;
use cosmwasm_std::StdError;
use crate::contract::{add_minter_outcome, mint_outcome, remove_minter_outcome};
use crate::error::ContractError;
use crate::msg::Response;
use crate::state::{lemma_entry_within_sum, Ledger};

verus! {

/// One mint as it was asked for: the caller, the validator's verdict on the
/// recipient, and the amount.
pub struct MintCall {
    pub sender: Seq<char>,
    pub recipient: Result<String, StdError>,
    pub amount: u128,
}

/// `states` is a run of the ledger through `calls`: each state follows from
/// the one before by the mint of the same index, which answered with the
/// result of that index.
pub open spec fn mint_run(
    states: Seq<Ledger>,
    calls: Seq<MintCall>,
    results: Seq<Result<Response, ContractError>>,
) -> bool {
    &&& states.len() == calls.len() + 1
    &&& results.len() == calls.len()
    &&& forall|i: int|
        0 <= i < calls.len() ==> mint_outcome(
            #[trigger] states[i],
            states[i + 1],
            calls[i].sender,
            calls[i].recipient,
            calls[i].amount,
            results[i],
        )
}

/// The sum of the amounts of the calls that succeeded.
pub open spec fn minted(calls: Seq<MintCall>, results: Seq<Result<Response, ContractError>>) -> nat
    decreases calls.len(),
{
    if calls.len() == 0 || results.len() != calls.len() {
        0
    } else {
        minted(calls.drop_last(), results.drop_last()) + if results.last() is Ok {
            calls.last().amount as nat
        } else {
            0
        }
    }
}

/// After the first `k` mints of a run that starts well formed, the total
/// supply has grown by exactly the sum of the amounts minted successfully so
/// far, the configuration is what it was, the state is well formed, and the
/// total is still the sum of all balances if it was at the start.
pub proof fn lemma_mint_run_prefix(
    states: Seq<Ledger>,
    calls: Seq<MintCall>,
    results: Seq<Result<Response, ContractError>>,
    k: int,
)
    requires
        mint_run(states, calls, results),
        states[0].wf(),
        0 <= k <= calls.len(),
    ensures
        states[k].total_supply == states[0].total_supply + minted(calls.take(k), results.take(k)),
        states[k].config == states[0].config,
        states[k].wf(),
        states[0].consistent() ==> states[k].consistent(),
    decreases k,
{
    if k > 0 {
        lemma_mint_run_prefix(states, calls, results, k - 1);
        assert(calls.take(k).drop_last() =~= calls.take(k - 1));
        assert(results.take(k).drop_last() =~= results.take(k - 1));
        assert(mint_outcome(
            states[k - 1],
            states[k - 1 + 1],
            calls[k - 1].sender,
            calls[k - 1].recipient,
            calls[k - 1].amount,
            results[k - 1],
        ));
    }
}

/// Over any run of mints from a well-formed state, the total supply grows by
/// exactly the sum of the amounts that were minted successfully; at every
/// point of the run it is within the cap, and it is the sum of all balances
/// if it was so at the start.
pub proof fn lemma_total_supply_is_sum_of_mints(
    states: Seq<Ledger>,
    calls: Seq<MintCall>,
    results: Seq<Result<Response, ContractError>>,
)
    requires
        mint_run(states, calls, results),
        states[0].wf(),
    ensures
        states.last().total_supply == states[0].total_supply + minted(calls, results),
        forall|k: int|
            0 <= k < states.len() ==> (#[trigger] states[k]).total_supply
                <= states[0].config.supply_cap,
        states[0].consistent() ==> forall|k: int|
            0 <= k < states.len() ==> (#[trigger] states[k]).consistent(),
{
    lemma_mint_run_prefix(states, calls, results, calls.len() as int);
    assert(calls.take(calls.len() as int) =~= calls);
    assert(results.take(calls.len() as int) =~= results);
    assert forall|k: int| 0 <= k < states.len() implies (#[trigger] states[k]).total_supply
        <= states[0].config.supply_cap && (states[0].consistent() ==> states[k].consistent()) by {
        lemma_mint_run_prefix(states, calls, results, k);
    }
}

/// In a ledger whose total supply is the sum of its balances, no identity is
/// owed more than the total supply.
pub proof fn lemma_balance_within_supply(ledger: Ledger, i: int)
    requires
        ledger.consistent(),
        0 <= i < ledger.accounts@.len(),
    ensures
        ledger.accounts@[i].token.balance <= ledger.total_supply,
{
    lemma_entry_within_sum(ledger.accounts@, i);
}

/// While minting is disabled a mint is refused as such, whoever asks and for
/// whatever amount, and the ledger stays as it was.
pub proof fn lemma_disabled_mint_is_refused(
    before: Ledger,
    after: Ledger,
    sender: Seq<char>,
    recipient: Result<String, StdError>,
    amount: u128,
    result: Result<Response, ContractError>,
)
    requires
        mint_outcome(before, after, sender, recipient, amount, result),
        !before.config.mint_enabled,
    ensures
        result == Err::<Response, ContractError>(ContractError::MintingDisabled {  }),
        after == before,
{
}

/// With minting enabled, a caller that is not on the list of minters is
/// refused as unauthorized, the admin included, and the ledger stays as it
/// was.
pub proof fn lemma_non_minter_is_refused(
    before: Ledger,
    after: Ledger,
    sender: Seq<char>,
    recipient: Result<String, StdError>,
    amount: u128,
    result: Result<Response, ContractError>,
)
    requires
        mint_outcome(before, after, sender, recipient, amount, result),
        before.config.mint_enabled,
        !before.config.is_minter(sender),
    ensures
        result == Err::<Response, ContractError>(ContractError::Unauthorized {  }),
        after == before,
{
}

/// The list of minters is changed for the admin alone: any other caller, a
/// minter included, is refused as unauthorized and the ledger stays as it
/// was; and a change that succeeded was asked for by the admin.
pub proof fn lemma_only_admin_changes_minters(
    before: Ledger,
    after: Ledger,
    sender: Seq<char>,
    minter: Result<String, StdError>,
    result: Result<Response, ContractError>,
)
    requires
        add_minter_outcome(before, after, sender, minter, result) || remove_minter_outcome(
            before,
            after,
            sender,
            minter,
            result,
        ),
    ensures
        result is Ok ==> sender == before.config.admin@,
        sender != before.config.admin@ ==> after == before && result == Err::<
            Response,
            ContractError,
        >(ContractError::Unauthorized {  }),
{
}

/// Adding an identity that is already a minter is refused as a conflict and
/// leaves the ledger as it was.
pub proof fn lemma_add_present_minter_is_refused(
    before: Ledger,
    after: Ledger,
    minter: String,
    result: Result<Response, ContractError>,
)
    requires
        add_minter_outcome(before, after, before.config.admin@, Ok(minter), result),
        before.config.is_minter(minter@),
    ensures
        result == Err::<Response, ContractError>(ContractError::MinterAlreadyExists {  }),
        after == before,
{
}

/// Adding the same identity twice succeeds at most once: after a successful
/// add, the second is refused as a conflict and changes nothing.
pub proof fn lemma_add_minter_twice(
    start: Ledger,
    middle: Ledger,
    end: Ledger,
    minter: String,
    first: Result<Response, ContractError>,
    second: Result<Response, ContractError>,
)
    requires
        add_minter_outcome(start, middle, start.config.admin@, Ok(minter), first),
        add_minter_outcome(middle, end, start.config.admin@, Ok(minter), second),
        first is Ok,
    ensures
        second == Err::<Response, ContractError>(ContractError::MinterAlreadyExists {  }),
        end == middle,
{
    let ids = start.config.minter_ids();
    assert(ids.push(minter@)[ids.len() as int] == minter@);
}

/// Removing an identity that is not a minter is refused as a conflict and
/// leaves the ledger as it was.
pub proof fn lemma_remove_absent_minter_is_refused(
    before: Ledger,
    after: Ledger,
    minter: String,
    result: Result<Response, ContractError>,
)
    requires
        remove_minter_outcome(before, after, before.config.admin@, Ok(minter), result),
        !before.config.is_minter(minter@),
    ensures
        result == Err::<Response, ContractError>(ContractError::MinterNotFound {  }),
        after == before,
{
}

/// An identity without an entry is owed nothing, and a mint gives an entry to
/// its recipient alone: whoever was owed nothing and did not receive the mint
/// is still owed nothing.
pub proof fn lemma_unminted_balance_is_zero(
    before: Ledger,
    after: Ledger,
    sender: Seq<char>,
    recipient: Result<String, StdError>,
    amount: u128,
    result: Result<Response, ContractError>,
    who: Seq<char>,
)
    requires
        mint_outcome(before, after, sender, recipient, amount, result),
        !before.holds(who),
        recipient matches Ok(r) ==> r@ != who,
    ensures
        before.balance_of(who) == 0,
        !after.holds(who),
        after.balance_of(who) == 0,
{
}

} // verus!
