use vstd::prelude::*;
use crate::address::{AddressView, ContractAddress};
use crate::error::Error;
use crate::str_map::StrMap;
use crate::sums::sum_over;
use crate::token::{Integer, fits};

verus! {

/// An account that several tenants share: its owner and the other tenants
/// may move its tokens in and out.
pub struct Account {
    /// The tenants other than the owner, each marked as allowed or not.
    pub other_tenants: StrMap<bool>,
    /// The token that the account holds.
    pub token: ContractAddress,
    /// How much of the token the account holds.
    pub balance: Integer,
    /// The signer that opened the account.
    pub owner: String,
}

/// The mathematical value of an account.
pub struct AccountView {
    pub other_tenants: Map<Seq<char>, bool>,
    /// The other tenants, in the order in which they were first given.
    pub tenant_order: Seq<Seq<char>>,
    pub token: AddressView,
    pub balance: i128,
    pub owner: Seq<char>,
}

impl AccountView {
    /// The same account with another balance.
    pub open spec fn with_balance(self, balance: int) -> AccountView {
        AccountView { balance: balance as i128, ..self }
    }
}

impl View for Account {
    type V = AccountView;

    open spec fn view(&self) -> AccountView {
        AccountView {
            other_tenants: self.other_tenants@,
            tenant_order: self.other_tenants.keys(),
            token: self.token@,
            balance: self.balance,
            owner: self.owner@,
        }
    }
}

/// The balance of `account` where it holds `token`, and zero otherwise.
pub open spec fn share_in(account: AccountView, token: AddressView) -> int {
    if account.token == token {
        account.balance as int
    } else {
        0
    }
}

/// Which way a transfer of tokens goes between the signer of a request and
/// the shared-account contract itself.
#[derive(Clone, Copy, Debug, PartialEq, Eq)]
pub enum Direction {
    SignerToContract,
    ContractToSigner,
}

/// A transfer of tokens that a procedure asks the token contract to make
/// once it has updated its own storage.
#[derive(Debug, PartialEq, Eq)]
pub struct TokenTransfer {
    pub token: ContractAddress,
    pub direction: Direction,
    pub amount: Integer,
}

/// The mathematical value of a transfer request.
pub struct TransferView {
    pub token: AddressView,
    pub direction: Direction,
    pub amount: int,
}

impl View for TokenTransfer {
    type V = TransferView;

    open spec fn view(&self) -> TransferView {
        TransferView { token: self.token@, direction: self.direction, amount: self.amount as int }
    }
}

/// Whether `signer` may move the tokens of `account` in `token`: it is the
/// owner or a tenant marked as allowed, and `token` is the token of the account.
pub open spec fn may_use(signer: Seq<char>, token: AddressView, account: AccountView) -> bool {
    &&& (account.owner == signer || (account.other_tenants.contains_key(signer)
        && account.other_tenants[signer]))
    &&& token == account.token
}

/// Whether `tenant_order` lists each key of `other_tenants` exactly once,
/// and nothing else.
pub open spec fn tenants_listed_once(account: AccountView) -> bool {
    &&& account.tenant_order.no_duplicates()
    &&& forall|k: Seq<char>|
        account.other_tenants.contains_key(k) <==> #[trigger] account.tenant_order.contains(k)
}

/// The tenants given, each marked as allowed.
pub open spec fn allowed_tenants(tenants: Seq<Seq<char>>) -> Map<Seq<char>, bool> {
    Map::new(|k: Seq<char>| tenants.contains(k), |k: Seq<char>| true)
}

/// The tenants given, each at its first occurrence.
pub open spec fn first_occurrences(tenants: Seq<Seq<char>>) -> Seq<Seq<char>>
    decreases tenants.len(),
{
    if tenants.len() == 0 {
        Seq::empty()
    } else {
        let p = first_occurrences(tenants.drop_last());
        if p.contains(tenants.last()) {
            p
        } else {
            p.push(tenants.last())
        }
    }
}

/// The message of the refusal of a deposit, or `None` where it is accepted.
/// `available` is what the token contract reports that the signer holds.
pub open spec fn deposit_refusal(
    accounts: Map<Seq<char>, AccountView>,
    signer: Seq<char>,
    token: AddressView,
    account_id: Seq<char>,
    n: int,
    available: Option<i128>,
) -> Option<Seq<char>> {
    if !check_funds_accepts(available, n) {
        Some("insufficient balance"@)
    } else if !accounts.contains_key(account_id) {
        Some("unknown account"@)
    } else if !may_use(signer, token, accounts[account_id]) {
        Some("unauthorized"@)
    } else {
        None
    }
}

/// The message of the refusal of a withdrawal, or `None` where it is accepted.
pub open spec fn withdraw_refusal(
    accounts: Map<Seq<char>, AccountView>,
    signer: Seq<char>,
    token: AddressView,
    account_id: Seq<char>,
    n: int,
) -> Option<Seq<char>> {
    if !accounts.contains_key(account_id) {
        Some("unknown account"@)
    } else if !may_use(signer, token, accounts[account_id]) {
        Some("unauthorized"@)
    } else if accounts[account_id].balance < n {
        Some("insufficient balance"@)
    } else {
        None
    }
}

/// The accounts after `n` is added to the balance of account `account_id`.
pub open spec fn after_deposit(
    accounts: Map<Seq<char>, AccountView>,
    account_id: Seq<char>,
    n: int,
) -> Map<Seq<char>, AccountView> {
    accounts.insert(account_id, accounts[account_id].with_balance(accounts[account_id].balance + n))
}

/// The accounts after `n` is taken from the balance of account `account_id`.
pub open spec fn after_withdrawal(
    accounts: Map<Seq<char>, AccountView>,
    account_id: Seq<char>,
    n: int,
) -> Map<Seq<char>, AccountView> {
    accounts.insert(account_id, accounts[account_id].with_balance(accounts[account_id].balance - n))
}

/// A deposit of `n` into an existing account raises its balance by exactly
/// `n` and changes nothing else: no other account, and neither the owner,
/// the tenants nor the token of this one.
pub proof fn law_deposit_changes_only_the_balance(
    accounts: Map<Seq<char>, AccountView>,
    account_id: Seq<char>,
    n: int,
)
    requires
        accounts.contains_key(account_id),
        fits(accounts[account_id].balance + n),
    ensures
        ({
            let after = after_deposit(accounts, account_id, n);
            &&& after.dom() == accounts.dom()
            &&& after[account_id].balance == accounts[account_id].balance + n
            &&& after[account_id].owner == accounts[account_id].owner
            &&& after[account_id].token == accounts[account_id].token
            &&& after[account_id].other_tenants == accounts[account_id].other_tenants
            &&& after[account_id].tenant_order == accounts[account_id].tenant_order
            &&& forall|k: Seq<char>| k != account_id ==> #[trigger] after[k] == accounts[k]
        }),
{
    assert(after_deposit(accounts, account_id, n).dom() =~= accounts.dom());
}

/// A withdrawal of `n` from an existing account lowers its balance by
/// exactly `n` and changes nothing else: no other account, and neither the
/// owner, the tenants nor the token of this one.
pub proof fn law_withdrawal_changes_only_the_balance(
    accounts: Map<Seq<char>, AccountView>,
    account_id: Seq<char>,
    n: int,
)
    requires
        accounts.contains_key(account_id),
        fits(accounts[account_id].balance - n),
    ensures
        ({
            let after = after_withdrawal(accounts, account_id, n);
            &&& after.dom() == accounts.dom()
            &&& after[account_id].balance == accounts[account_id].balance - n
            &&& after[account_id].owner == accounts[account_id].owner
            &&& after[account_id].token == accounts[account_id].token
            &&& after[account_id].other_tenants == accounts[account_id].other_tenants
            &&& after[account_id].tenant_order == accounts[account_id].tenant_order
            &&& forall|k: Seq<char>| k != account_id ==> #[trigger] after[k] == accounts[k]
        }),
{
    assert(after_withdrawal(accounts, account_id, n).dom() =~= accounts.dom());
}

/// Use of an account is granted exactly to its owner and to the tenants
/// marked as allowed, and only in the token that the account holds: a tenant
/// or owner naming another token is refused.
pub proof fn law_use_is_owner_or_allowed_tenant_in_its_token(
    signer: Seq<char>,
    token: AddressView,
    account: AccountView,
)
    ensures
        may_use(signer, token, account) ==> token == account.token,
        may_use(signer, token, account) <==> (token == account.token && (account.owner == signer
            || (account.other_tenants.contains_key(signer) && account.other_tenants[signer]
            == true))),
{
}

/// An accepted withdrawal names the token that the account holds, comes from
/// its owner or from a tenant marked as allowed, and takes no more than the
/// account holds.
pub proof fn law_accepted_withdrawal(
    accounts: Map<Seq<char>, AccountView>,
    signer: Seq<char>,
    token: AddressView,
    account_id: Seq<char>,
    n: int,
)
    requires
        withdraw_refusal(accounts, signer, token, account_id, n) is None,
    ensures
        accounts.contains_key(account_id),
        token == accounts[account_id].token,
        accounts[account_id].owner == signer || (accounts[account_id].other_tenants.contains_key(
            signer,
        ) && accounts[account_id].other_tenants[signer] == true),
        accounts[account_id].balance >= n,
{
}

/// An accepted deposit names the token that the account holds, comes from its
/// owner or from a tenant marked as allowed, and is covered by what the
/// signer holds.
pub proof fn law_accepted_deposit(
    accounts: Map<Seq<char>, AccountView>,
    signer: Seq<char>,
    token: AddressView,
    account_id: Seq<char>,
    n: int,
    available: Option<i128>,
)
    requires
        deposit_refusal(accounts, signer, token, account_id, n, available) is None,
    ensures
        accounts.contains_key(account_id),
        token == accounts[account_id].token,
        accounts[account_id].owner == signer || (accounts[account_id].other_tenants.contains_key(
            signer,
        ) && accounts[account_id].other_tenants[signer] == true),
        available is Some && available->0 >= n,
{
}

/// A deposit into an existing account, in its token, by its owner or by a
/// tenant marked as allowed, is accepted whenever the signer holds at least
/// the amount, whatever the account itself holds.
pub proof fn law_deposit_accepted_whatever_the_balance(
    accounts: Map<Seq<char>, AccountView>,
    signer: Seq<char>,
    account_id: Seq<char>,
    n: int,
    held: i128,
)
    requires
        accounts.contains_key(account_id),
        accounts[account_id].owner == signer || (accounts[account_id].other_tenants.contains_key(
            signer,
        ) && accounts[account_id].other_tenants[signer] == true),
        held >= n,
    ensures
        deposit_refusal(accounts, signer, accounts[account_id].token, account_id, n, Some(held)) is None,
        forall|balance: int|
            #![trigger accounts.insert(account_id, accounts[account_id].with_balance(balance))]
            deposit_refusal(
                accounts.insert(account_id, accounts[account_id].with_balance(balance)),
                signer,
                accounts[account_id].token,
                account_id,
                n,
                Some(held),
            ) is None,
{
    assert forall|balance: int|
        #![trigger accounts.insert(account_id, accounts[account_id].with_balance(balance))]
        deposit_refusal(
            accounts.insert(account_id, accounts[account_id].with_balance(balance)),
            signer,
            accounts[account_id].token,
            account_id,
            n,
            Some(held),
        ) is None by {
        let m = accounts.insert(account_id, accounts[account_id].with_balance(balance));
        assert(m.contains_key(account_id));
        assert(m[account_id].owner == accounts[account_id].owner);
        assert(m[account_id].other_tenants == accounts[account_id].other_tenants);
        assert(m[account_id].token == accounts[account_id].token);
    }
}

/// A withdrawal from an existing account, in its token, by its owner or by a
/// tenant marked as allowed, of no more than the account holds, is accepted.
pub proof fn law_withdrawal_accepted_when_covered(
    accounts: Map<Seq<char>, AccountView>,
    signer: Seq<char>,
    account_id: Seq<char>,
    n: int,
)
    requires
        accounts.contains_key(account_id),
        accounts[account_id].owner == signer || (accounts[account_id].other_tenants.contains_key(
            signer,
        ) && accounts[account_id].other_tenants[signer] == true),
        accounts[account_id].balance >= n,
    ensures
        withdraw_refusal(accounts, signer, accounts[account_id].token, account_id, n) is None,
{
}

/// Opening marks every listed tenant as allowed, and lists no one else.
pub proof fn law_open_allows_every_listed_tenant(tenants: Seq<Seq<char>>)
    ensures
        forall|i: int|
            0 <= i < tenants.len() ==> #[trigger] allowed_tenants(tenants).contains_key(tenants[i])
                && allowed_tenants(tenants)[tenants[i]] == true,
        forall|k: Seq<char>| #[trigger]
            allowed_tenants(tenants).contains_key(k) ==> tenants.contains(k),
{
    assert forall|i: int| 0 <= i < tenants.len() implies #[trigger] allowed_tenants(
        tenants,
    ).contains_key(tenants[i]) && allowed_tenants(tenants)[tenants[i]] == true by {
        assert(tenants.contains(tenants[i]));
    }
}

/// After an account is opened, each tenant listed at opening may withdraw
/// from it, in its token, up to what it holds.
pub proof fn law_listed_tenant_may_withdraw_after_open(
    accounts: Map<Seq<char>, AccountView>,
    account_id: Seq<char>,
    owner: Seq<char>,
    token: AddressView,
    balance: i128,
    tenants: Seq<Seq<char>>,
    i: int,
    n: int,
)
    requires
        0 <= i < tenants.len(),
        n <= balance,
    ensures
        withdraw_refusal(
            accounts.insert(
                account_id,
                AccountView {
                    other_tenants: allowed_tenants(tenants),
                    tenant_order: first_occurrences(tenants),
                    token,
                    balance,
                    owner,
                },
            ),
            tenants[i],
            token,
            account_id,
            n,
        ) is None,
{
    law_open_allows_every_listed_tenant(tenants);
    assert(allowed_tenants(tenants).contains_key(tenants[i]));
}

/// A withdrawal of what was just deposited, by the same signer in the same
/// token, is accepted wherever the balance before the deposit was not
/// negative, and gives the accounts back as they were.
pub proof fn law_withdraw_undoes_deposit(
    accounts: Map<Seq<char>, AccountView>,
    signer: Seq<char>,
    token: AddressView,
    account_id: Seq<char>,
    n: int,
    available: Option<i128>,
)
    requires
        deposit_refusal(accounts, signer, token, account_id, n, available) is None,
        accounts[account_id].balance >= 0,
        fits(accounts[account_id].balance + n),
    ensures
        withdraw_refusal(after_deposit(accounts, account_id, n), signer, token, account_id, n) is None,
        after_withdrawal(after_deposit(accounts, account_id, n), account_id, n) == accounts,
{
    let a = accounts[account_id];
    let deposited = after_deposit(accounts, account_id, n);
    let restored = after_withdrawal(deposited, account_id, n);
    assert(restored[account_id] == a);
    assert(restored =~= accounts);
}

/// The error answered where the signer has too few tokens.
pub fn insufficient_balance_error() -> (e: Error)
    ensures
        e@ == "insufficient balance"@,
{
    Error::new("insufficient balance")
}

/// The error answered where the signer may not use the account.
pub fn unauthorized_error() -> (e: Error)
    ensures
        e@ == "unauthorized"@,
{
    Error::new("unauthorized")
}

/// The error answered where no account has the given id.
pub fn unknown_error() -> (e: Error)
    ensures
        e@ == "unknown account"@,
{
    Error::new("unknown account")
}

/// Whether `signer` may move the tokens of `account` in `token`.
pub fn authorized(signer: &String, token: &ContractAddress, account: &Account) -> (r: bool)
    requires
        account.other_tenants.wf(),
    ensures
        r == may_use(signer@, token@, account@),
{
    let tenant = match account.other_tenants.get(signer) {
        Some(b) => *b,
        None => false,
    };
    (account.owner == *signer || tenant) && token.same_as(&account.token)
}

/// Whether the signer, of whom the token contract reports `available`, holds
/// at least `n` tokens.
pub open spec fn check_funds_accepts(available: Option<i128>, n: int) -> bool {
    available is Some && available->0 >= n
}

/// Checks that the signer holds at least `n` tokens, where `available` is
/// what the token contract reports that it holds.
pub fn check_funds(available: Option<Integer>, n: Integer) -> (r: Result<(), Error>)
    ensures
        r is Ok <==> check_funds_accepts(available, n as int),
        r matches Err(e) ==> e@ == "insufficient balance"@,
{
    match available {
        Some(balance) => {
            if balance < n {
                Err(insufficient_balance_error())
            } else {
                Ok(())
            }
        },
        None => Err(insufficient_balance_error()),
    }
}

/// The storage of the shared-account contract: the accounts by id.
pub struct SharedAccountStorage {
    accounts: StrMap<Account>,
}

impl View for SharedAccountStorage {
    type V = Map<Seq<char>, AccountView>;

    closed spec fn view(&self) -> Map<Seq<char>, AccountView> {
        self.accounts@
    }
}

impl SharedAccountStorage {
    /// Well-formedness: no id and no tenant of an account is stored twice.
    pub closed spec fn wf(&self) -> bool {
        &&& self.accounts.wf()
        &&& forall|id: Seq<char>| #[trigger]
            self.accounts@.contains_key(id) ==> tenants_listed_once(self.accounts@[id])
    }

    /// Each stored account lists each of its other tenants exactly once.
    pub proof fn lemma_tenants(&self)
        requires
            self.wf(),
        ensures
            forall|id: Seq<char>| #[trigger]
                self@.contains_key(id) ==> tenants_listed_once(self@[id]),
    {
    }

    /// The ids of the accounts, in the order in which they were opened.
    pub closed spec fn ids(&self) -> Seq<Seq<char>> {
        self.accounts.keys()
    }

    /// The sum of the balances of the accounts that hold `token`.
    pub open spec fn held_in(&self, token: AddressView) -> int {
        sum_over(self.ids(), |id: Seq<char>| share_in(self@[id], token))
    }

    /// Each account occurs once in `ids`, and nothing else does.
    pub proof fn lemma_ids(&self)
        requires
            self.wf(),
        ensures
            self.ids().no_duplicates(),
            forall|k: Seq<char>| self@.contains_key(k) <==> self.ids().contains(k),
    {
        self.accounts.lemma_keys_domain();
    }

    /// The storage of a new shared-account contract: no account.
    pub fn new() -> (r: SharedAccountStorage)
        ensures
            r.wf(),
            r@ == Map::<Seq<char>, AccountView>::empty(),
            r.ids() == Seq::<Seq<char>>::empty(),
    {
        SharedAccountStorage { accounts: StrMap::new() }
    }
}


/// The view of a list of names.
pub open spec fn names(v: Seq<String>) -> Seq<Seq<char>> {
    v.map_values(|s: String| s@)
}

proof fn lemma_first_occurrences_contains(ts: Seq<Seq<char>>, k: Seq<char>)
    ensures
        first_occurrences(ts).contains(k) <==> ts.contains(k),
    decreases ts.len(),
{
    if ts.len() > 0 {
        let p = ts.drop_last();
        lemma_first_occurrences_contains(p, k);
        let f = first_occurrences(p);
        if ts.contains(k) && k != ts.last() {
            let i = ts.index_of(k);
            assert(p[i] == k);
        }
        if p.contains(k) {
            let i = p.index_of(k);
            assert(ts[i] == k);
        }
        if k == ts.last() {
            assert(ts[ts.len() - 1] == k);
            if !f.contains(k) {
                assert(f.push(k)[f.len() as int] == k);
            }
        }
        if !f.contains(ts.last()) && f.push(ts.last()).contains(k) && k != ts.last() {
            let i = f.push(ts.last()).index_of(k);
            assert(f[i] == k);
        }
        if f.contains(k) && !f.contains(ts.last()) {
            let i = f.index_of(k);
            assert(f.push(ts.last())[i] == k);
        }
    }
}

/// The tenants listed at opening keep each name once, in the order of its
/// first occurrence: nothing is lost, nothing repeated, and a list without
/// repeats is kept as given.
pub proof fn law_first_occurrences(tenants: Seq<Seq<char>>)
    ensures
        first_occurrences(tenants).no_duplicates(),
        forall|k: Seq<char>| #[trigger] first_occurrences(tenants).contains(k) <==> tenants.contains(k),
        tenants.no_duplicates() ==> first_occurrences(tenants) == tenants,
    decreases tenants.len(),
{
    assert forall|k: Seq<char>| #[trigger] first_occurrences(tenants).contains(k) <==> tenants.contains(k) by {
        lemma_first_occurrences_contains(tenants, k);
    }
    if tenants.len() > 0 {
        let p = tenants.drop_last();
        law_first_occurrences(p);
        let f = first_occurrences(p);
        if !f.contains(tenants.last()) {
            assert forall|i: int, j: int|
                0 <= i < f.push(tenants.last()).len() && 0 <= j < f.push(tenants.last()).len() && i != j
                implies f.push(tenants.last())[i] != f.push(tenants.last())[j] by {
                if i == f.len() as int {
                    assert(f.contains(f[j]));
                } else if j == f.len() as int {
                    assert(f.contains(f[i]));
                }
            }
        }
        if tenants.no_duplicates() {
            assert(p.no_duplicates());
            assert(!p.contains(tenants.last())) by {
                if p.contains(tenants.last()) {
                    let i = p.index_of(tenants.last());
                    assert(tenants[i] == tenants[tenants.len() - 1]);
                }
            }
            lemma_first_occurrences_contains(p, tenants.last());
            assert(p.push(tenants.last()) =~= tenants);
        }
    } else {
        assert(tenants =~= Seq::<Seq<char>>::empty());
    }
}

/// The funds check accepts exactly where the token contract reports a
/// balance of at least `n`: a signer unknown to it is refused any amount.
pub proof fn law_check_funds(available: Option<i128>, n: int)
    ensures
        check_funds_accepts(available, n) <==> exists|x: i128| available == Some(x) && x >= n,
        available is None ==> !check_funds_accepts(available, n),
{
    if check_funds_accepts(available, n) {
        let x = available->0;
        assert(available == Some(x) && x >= n);
    }
}

/// The other tenants of a new account, each marked as allowed.
fn tenant_map(other_tenants: &Vec<String>) -> (r: StrMap<bool>)
    ensures
        r.wf(),
        r@ == allowed_tenants(names(other_tenants@)),
        r.keys() == first_occurrences(names(other_tenants@)),
{
    let ghost ts = names(other_tenants@);
    let mut m: StrMap<bool> = StrMap::new();
    let mut i: usize = 0;
    assert(allowed_tenants(ts.take(0)) =~= Map::<Seq<char>, bool>::empty());
    assert(first_occurrences(ts.take(0)) =~= Seq::<Seq<char>>::empty());
    while i < other_tenants.len()
        invariant
            i <= other_tenants@.len(),
            ts == names(other_tenants@),
            m.wf(),
            m@ == allowed_tenants(ts.take(i as int)),
            m.keys() == first_occurrences(ts.take(i as int)),
        decreases other_tenants@.len() - i,
    {
        let ghost before = ts.take(i as int);
        let ghost after = ts.take(i + 1);
        let ghost k = ts[i as int];
        proof {
            assert(after.drop_last() =~= before);
            assert(after.last() == k);
            m.lemma_keys_domain();
            lemma_first_occurrences_contains(before, k);
            assert forall|x: Seq<char>| after.contains(x) <==> before.contains(x) || x == k by {
                if after.contains(x) && x != k {
                    let j = after.index_of(x);
                    assert(before[j] == x);
                }
                if before.contains(x) {
                    let j = before.index_of(x);
                    assert(after[j] == x);
                }
                if x == k {
                    assert(after[i as int] == x);
                }
            }
            assert(allowed_tenants(after) =~= allowed_tenants(before).insert(k, true));
        }
        m.insert(other_tenants[i].clone(), true);
        i = i + 1;
    }
    assert(ts.take(i as int) =~= ts);
    m
}

impl SharedAccountStorage {
    fn set_balance(&mut self, account_id: &String, balance: Integer)
        requires
            old(self).wf(),
            old(self)@.contains_key(account_id@),
        ensures
            final(self).wf(),
            final(self)@ == old(self)@.insert(
                account_id@,
                old(self)@[account_id@].with_balance(balance as int),
            ),
            final(self).ids() == old(self).ids(),
    {
        let placeholder = Account {
            other_tenants: StrMap::new(),
            token: ContractAddress { name: String::new(), height: 0, tx_index: 0 },
            balance: 0,
            owner: String::new(),
        };
        let mut account = self.accounts.replace(account_id, placeholder);
        account.balance = balance;
        self.accounts.replace(account_id, account);
        assert(self@ =~= old(self)@.insert(
            account_id@,
            old(self)@[account_id@].with_balance(balance as int),
        ));
    }

    /// Opens an account under `account_id` (a fresh id from the host) for
    /// `signer`, holding `n` of `token`, shared with `other_tenants`, and asks
    /// for the transfer of the `n` tokens from the signer to the contract.
    /// `available` is what the token contract reports that the signer holds:
    /// opening follows an accepted `check_funds(available, n)`, which refuses
    /// the request before any id is drawn.
    pub fn open(
        &mut self,
        available: Option<Integer>,
        account_id: String,
        signer: String,
        token: ContractAddress,
        n: Integer,
        other_tenants: Vec<String>,
    ) -> (t: TokenTransfer)
        requires
            old(self).wf(),
            check_funds_accepts(available, n as int),
        ensures
            final(self).wf(),
            final(self)@ == old(self)@.insert(
                account_id@,
                AccountView {
                    other_tenants: allowed_tenants(names(other_tenants@)),
                    tenant_order: first_occurrences(names(other_tenants@)),
                    token: token@,
                    balance: n,
                    owner: signer@,
                },
            ),
            final(self).ids() == (if old(self)@.contains_key(account_id@) {
                old(self).ids()
            } else {
                old(self).ids().push(account_id@)
            }),
            t@ == (TransferView { token: token@, direction: Direction::SignerToContract, amount: n as int }),
    {
        let tenants = tenant_map(&other_tenants);
        proof {
            tenants.lemma_keys_domain();
        }
        let account = Account {
            other_tenants: tenants,
            token: token.clone(),
            balance: n,
            owner: signer,
        };
        self.accounts.insert(account_id, account);
        TokenTransfer { token, direction: Direction::SignerToContract, amount: n }
    }

    /// Adds `n` to the balance of account `account_id` on behalf of
    /// `signer`, and asks for the transfer of the `n` tokens from the signer
    /// to the contract. `available` is what the token contract reports that
    /// the signer holds. Refused, with nothing written, where the signer holds
    /// too little, where no account has the id, or where the signer may not
    /// use the account in `token`, checked in that order.
    pub fn deposit(
        &mut self,
        signer: &String,
        token: ContractAddress,
        account_id: String,
        n: Integer,
        available: Option<Integer>,
    ) -> (r: Result<TokenTransfer, Error>)
        requires
            old(self).wf(),
            deposit_refusal(old(self)@, signer@, token@, account_id@, n as int, available) is None
                ==> fits(old(self)@[account_id@].balance + n),
        ensures
            final(self).wf(),
            r matches Err(e) ==> deposit_refusal(old(self)@, signer@, token@, account_id@, n as int, available)
                == Some(e@) && *final(self) == *old(self),
            r matches Ok(t) ==> {
                &&& deposit_refusal(old(self)@, signer@, token@, account_id@, n as int, available) is None
                &&& final(self)@ == after_deposit(old(self)@, account_id@, n as int)
                &&& final(self).ids() == old(self).ids()
                &&& t@ == (TransferView { token: token@, direction: Direction::SignerToContract, amount: n as int })
            },
    {
        match check_funds(available, n) {
            Ok(()) => {},
            Err(e) => return Err(e),
        }
        let new_balance = match self.accounts.get(&account_id) {
            None => return Err(unknown_error()),
            Some(account) => {
                if !authorized(signer, &token, account) {
                    return Err(unauthorized_error());
                }
                account.balance + n
            },
        };
        self.set_balance(&account_id, new_balance);
        Ok(TokenTransfer { token, direction: Direction::SignerToContract, amount: n })
    }

    /// Takes `n` from the balance of account `account_id` on behalf of
    /// `signer`, and asks for the transfer of the `n` tokens from the contract
    /// to the signer. Refused, with nothing written, where no account has the
    /// id, where the signer may not use the account in `token`, or where the
    /// account holds less than `n`, checked in that order.
    pub fn withdraw(
        &mut self,
        signer: &String,
        token: ContractAddress,
        account_id: String,
        n: Integer,
    ) -> (r: Result<TokenTransfer, Error>)
        requires
            old(self).wf(),
            withdraw_refusal(old(self)@, signer@, token@, account_id@, n as int) is None ==> fits(
                old(self)@[account_id@].balance - n,
            ),
        ensures
            final(self).wf(),
            r matches Err(e) ==> withdraw_refusal(old(self)@, signer@, token@, account_id@, n as int)
                == Some(e@) && *final(self) == *old(self),
            r matches Ok(t) ==> {
                &&& withdraw_refusal(old(self)@, signer@, token@, account_id@, n as int) is None
                &&& final(self)@ == after_withdrawal(old(self)@, account_id@, n as int)
                &&& final(self)@[account_id@].balance >= 0
                &&& final(self).ids() == old(self).ids()
                &&& t@ == (TransferView { token: token@, direction: Direction::ContractToSigner, amount: n as int })
            },
    {
        let new_balance = match self.accounts.get(&account_id) {
            None => return Err(unknown_error()),
            Some(account) => {
                if !authorized(signer, &token, account) {
                    return Err(unauthorized_error());
                }
                if account.balance < n {
                    return Err(insufficient_balance_error());
                }
                account.balance - n
            },
        };
        self.set_balance(&account_id, new_balance);
        Ok(TokenTransfer { token, direction: Direction::ContractToSigner, amount: n })
    }

    /// Whether account `account_id` exists and `signer` may use it in `token`.
    pub fn is_authorized(&self, signer: &String, token: &ContractAddress, account_id: &String) -> (r: bool)
        requires
            self.wf(),
        ensures
            r == (self@.contains_key(account_id@) && may_use(signer@, token@, self@[account_id@])),
    {
        match self.accounts.get(account_id) {
            Some(account) => authorized(signer, token, account),
            None => false,
        }
    }

    /// The balance of account `account_id`, or `None` where there is none.
    pub fn balance(&self, account_id: String) -> (r: Option<Integer>)
        requires
            self.wf(),
        ensures
            r == (if self@.contains_key(account_id@) {
                Some(self@[account_id@].balance)
            } else {
                None::<i128>
            }),
    {
        match self.accounts.get(&account_id) {
            Some(account) => Some(account.balance),
            None => None,
        }
    }

    /// The tenants of account `account_id`: its owner, then the other
    /// tenants in the order in which they were first given; `None` where
    /// there is no such account.
    pub fn tenants(&self, account_id: String) -> (r: Option<Vec<String>>)
        requires
            self.wf(),
        ensures
            r is Some <==> self@.contains_key(account_id@),
            r matches Some(v) ==> names(v@) == seq![self@[account_id@].owner]
                + self@[account_id@].tenant_order,
            r is Some ==> tenants_listed_once(self@[account_id@]),
    {
        match self.accounts.get(&account_id) {
            Some(account) => {
                let mut v: Vec<String> = Vec::new();
                v.push(account.owner.clone());
                let mut rest = account.other_tenants.key_list();
                let ghost first = v@;
                let ghost others = rest@;
                v.append(&mut rest);
                assert(names(v@) =~= names(first) + names(others));
                assert(names(first) =~= seq![account.owner@]);
                Some(v)
            },
            None => None,
        }
    }
}

} // verus!
