use vstd::prelude::*;
use crate::address::AddressView;
use crate::shared_account::{AccountView, SharedAccountStorage, after_deposit, after_withdrawal, share_in};
use crate::sums::{lemma_sum_push, lemma_sum_change_one};
use crate::token::{TokenStorage, after_transfer, fits, funds};

verus! {

/// Whether the tokens of `token` that the shared-account contract, known to
/// the token contract as `contract`, holds in `ledger` equal the sum of the
/// balances of its accounts in `token`.
pub open spec fn custody_balanced(
    accounts: &SharedAccountStorage,
    ledger: &TokenStorage,
    contract: Seq<char>,
    token: AddressView,
) -> bool {
    funds(ledger@, contract) == accounts.held_in(token)
}

proof fn lemma_held_after_write(
    before: &SharedAccountStorage,
    after: &SharedAccountStorage,
    id: Seq<char>,
    a: AccountView,
    token: AddressView,
)
    requires
        before.wf(),
        after@ == before@.insert(id, a),
        after.ids() == (if before@.contains_key(id) {
            before.ids()
        } else {
            before.ids().push(id)
        }),
    ensures
        after.held_in(token) == before.held_in(token) + share_in(a, token) - (if before@.contains_key(
            id,
        ) {
            share_in(before@[id], token)
        } else {
            0
        }),
{
    before.lemma_ids();
    let w1 = |k: Seq<char>| share_in(before@[k], token);
    let w2 = |k: Seq<char>| share_in(after@[k], token);
    assert forall|x: Seq<char>| x != id implies #[trigger] w1(x) == w2(x) by {}
    lemma_sum_change_one(before.ids(), w1, w2, id);
    if !before@.contains_key(id) {
        lemma_sum_push(before.ids(), w2, id);
    }
}

/// Opening an account under a fresh id, followed by the transfer that it asks
/// for (`n` tokens from the signer to the contract), keeps the contract's
/// holdings in the token equal to the sum of its accounts' balances in it.
pub proof fn law_open_keeps_custody(
    before: &SharedAccountStorage,
    after: &SharedAccountStorage,
    ledger: &TokenStorage,
    ledger_after: &TokenStorage,
    signer: Seq<char>,
    contract: Seq<char>,
    id: Seq<char>,
    account: AccountView,
)
    requires
        before.wf(),
        custody_balanced(before, ledger, contract, account.token),
        !before@.contains_key(id),
        after@ == before@.insert(id, account),
        after.ids() == before.ids().push(id),
        fits(funds(ledger@, contract) + account.balance),
        ledger_after@ == after_transfer(ledger@, signer, contract, account.balance as int),
    ensures
        custody_balanced(after, ledger_after, contract, account.token),
{
    lemma_held_after_write(before, after, id, account, account.token);
}

/// A deposit that the contract accepts, followed by the transfer that it
/// asks for (`n` tokens from the signer to the contract), keeps the
/// contract's holdings in the account's token equal to the sum of its
/// accounts' balances in it.
pub proof fn law_deposit_keeps_custody(
    before: &SharedAccountStorage,
    after: &SharedAccountStorage,
    ledger: &TokenStorage,
    ledger_after: &TokenStorage,
    signer: Seq<char>,
    contract: Seq<char>,
    id: Seq<char>,
    n: int,
)
    requires
        before.wf(),
        before@.contains_key(id),
        custody_balanced(before, ledger, contract, before@[id].token),
        fits(before@[id].balance + n),
        fits(funds(ledger@, contract) + n),
        after@ == after_deposit(before@, id, n),
        after.ids() == before.ids(),
        ledger_after@ == after_transfer(ledger@, signer, contract, n),
    ensures
        custody_balanced(after, ledger_after, contract, before@[id].token),
{
    let a = before@[id].with_balance(before@[id].balance + n);
    lemma_held_after_write(before, after, id, a, before@[id].token);
}

/// A withdrawal that the contract accepts, followed by the transfer that it
/// asks for (`n` tokens from the contract to a signer other than the
/// contract), keeps the contract's holdings in the account's token equal to
/// the sum of its accounts' balances in it.
pub proof fn law_withdraw_keeps_custody(
    before: &SharedAccountStorage,
    after: &SharedAccountStorage,
    ledger: &TokenStorage,
    ledger_after: &TokenStorage,
    signer: Seq<char>,
    contract: Seq<char>,
    id: Seq<char>,
    n: int,
)
    requires
        before.wf(),
        before@.contains_key(id),
        signer != contract,
        custody_balanced(before, ledger, contract, before@[id].token),
        fits(before@[id].balance - n),
        fits(funds(ledger@, contract) - n),
        after@ == after_withdrawal(before@, id, n),
        after.ids() == before.ids(),
        ledger_after@ == after_transfer(ledger@, contract, signer, n),
    ensures
        custody_balanced(after, ledger_after, contract, before@[id].token),
{
    let a = before@[id].with_balance(before@[id].balance - n);
    lemma_held_after_write(before, after, id, a, before@[id].token);
}

/// Writing an account that neither held nor holds `token` leaves the sum of
/// the balances in `token` unchanged: opening, depositing and withdrawing in
/// another token do not touch the custody of `token`.
pub proof fn law_other_token_keeps_held(
    before: &SharedAccountStorage,
    after: &SharedAccountStorage,
    id: Seq<char>,
    account: AccountView,
    token: AddressView,
)
    requires
        before.wf(),
        account.token != token,
        before@.contains_key(id) ==> before@[id].token != token,
        after@ == before@.insert(id, account),
        after.ids() == (if before@.contains_key(id) {
            before.ids()
        } else {
            before.ids().push(id)
        }),
    ensures
        after.held_in(token) == before.held_in(token),
{
    lemma_held_after_write(before, after, id, account, token);
}

/// Whether every account's balance is non-negative and the balances in
/// `token` sum to at most what the contract, known to the token contract as
/// `contract`, holds in `ledger`: the contract can pay every account in full.
pub open spec fn solvent(
    accounts: &SharedAccountStorage,
    ledger: &TokenStorage,
    contract: Seq<char>,
    token: AddressView,
) -> bool {
    &&& forall|id: Seq<char>| #[trigger] accounts@.contains_key(id) ==> accounts@[id].balance >= 0
    &&& accounts.held_in(token) <= funds(ledger@, contract)
}

/// Opening an account with a non-negative amount, followed by the transfer
/// that it asks for, keeps the contract solvent in the account's token.
pub proof fn law_open_keeps_solvency(
    before: &SharedAccountStorage,
    after: &SharedAccountStorage,
    ledger: &TokenStorage,
    ledger_after: &TokenStorage,
    signer: Seq<char>,
    contract: Seq<char>,
    id: Seq<char>,
    account: AccountView,
)
    requires
        before.wf(),
        solvent(before, ledger, contract, account.token),
        account.balance >= 0,
        after@ == before@.insert(id, account),
        after.ids() == (if before@.contains_key(id) {
            before.ids()
        } else {
            before.ids().push(id)
        }),
        fits(funds(ledger@, contract) + account.balance),
        ledger_after@ == after_transfer(ledger@, signer, contract, account.balance as int),
    ensures
        solvent(after, ledger_after, contract, account.token),
{
    lemma_held_after_write(before, after, id, account, account.token);
}

/// A deposit of a non-negative amount that the contract accepts, followed by
/// the transfer that it asks for, keeps the contract solvent in the
/// account's token.
pub proof fn law_deposit_keeps_solvency(
    before: &SharedAccountStorage,
    after: &SharedAccountStorage,
    ledger: &TokenStorage,
    ledger_after: &TokenStorage,
    signer: Seq<char>,
    contract: Seq<char>,
    id: Seq<char>,
    n: int,
)
    requires
        before.wf(),
        before@.contains_key(id),
        solvent(before, ledger, contract, before@[id].token),
        n >= 0,
        fits(before@[id].balance + n),
        fits(funds(ledger@, contract) + n),
        after@ == after_deposit(before@, id, n),
        after.ids() == before.ids(),
        ledger_after@ == after_transfer(ledger@, signer, contract, n),
    ensures
        solvent(after, ledger_after, contract, before@[id].token),
{
    let a = before@[id].with_balance(before@[id].balance + n);
    lemma_held_after_write(before, after, id, a, before@[id].token);
}

/// A withdrawal of a non-negative amount that the contract accepts (the
/// account holds at least that much), followed by the transfer that it asks
/// for, keeps the contract solvent in the account's token.
pub proof fn law_withdraw_keeps_solvency(
    before: &SharedAccountStorage,
    after: &SharedAccountStorage,
    ledger: &TokenStorage,
    ledger_after: &TokenStorage,
    signer: Seq<char>,
    contract: Seq<char>,
    id: Seq<char>,
    n: int,
)
    requires
        before.wf(),
        before@.contains_key(id),
        solvent(before, ledger, contract, before@[id].token),
        n >= 0,
        before@[id].balance >= n,
        fits(funds(ledger@, contract) - n),
        fits(funds(ledger@, contract) + n),
        after@ == after_withdrawal(before@, id, n),
        after.ids() == before.ids(),
        ledger_after@ == after_transfer(ledger@, contract, signer, n),
    ensures
        solvent(after, ledger_after, contract, before@[id].token),
{
    let a = before@[id].with_balance(before@[id].balance - n);
    lemma_held_after_write(before, after, id, a, before@[id].token);
}

} // verus!
