use vstd::prelude::*;
use crate::error::Error;
use crate::str_map::StrMap;
use crate::sums::{sum_over, lemma_sum_push, lemma_sum_change_one};

verus! {

/// An amount of a token; it may be negative.
pub type Integer = i128;

/// Whether an amount can be held in an `Integer`.
pub open spec fn fits(x: int) -> bool {
    i128::MIN <= x <= i128::MAX
}

/// The balance of `account` in `balances`, zero where it has none.
pub open spec fn funds(balances: Map<Seq<char>, i128>, account: Seq<char>) -> int {
    if balances.contains_key(account) {
        balances[account] as int
    } else {
        0
    }
}

/// The balances after `amount` moves from `from` to `to`. Both balances are
/// read before either is written, so where `from` and `to` are the same
/// account the second write wins and that account gains `amount`.
pub open spec fn after_transfer(
    balances: Map<Seq<char>, i128>,
    from: Seq<char>,
    to: Seq<char>,
    amount: int,
) -> Map<Seq<char>, i128> {
    balances.insert(from, (funds(balances, from) - amount) as i128).insert(
        to,
        (funds(balances, to) + amount) as i128,
    )
}

/// The balances after `amount` is created for `account`.
pub open spec fn after_mint(balances: Map<Seq<char>, i128>, account: Seq<char>, amount: int) -> Map<
    Seq<char>,
    i128,
> {
    balances.insert(account, (funds(balances, account) + amount) as i128)
}

/// Minting raises the funds of the minting account by exactly the amount,
/// gives it a balance, and leaves every other account as it was.
pub proof fn law_mint_credits_only_the_signer(
    balances: Map<Seq<char>, i128>,
    account: Seq<char>,
    amount: int,
)
    requires
        fits(funds(balances, account) + amount),
    ensures
        ({
            let after = after_mint(balances, account, amount);
            &&& after.contains_key(account)
            &&& funds(after, account) == funds(balances, account) + amount
            &&& forall|k: Seq<char>| k != account ==> #[trigger] after.contains_key(k)
                == balances.contains_key(k) && funds(after, k) == funds(balances, k)
        }),
{
}

/// A transfer between distinct accounts takes exactly the amount from the
/// sender, gives exactly the amount to the recipient, gives both a balance,
/// and leaves every other account as it was. A transfer to oneself, whose
/// second write wins, adds the amount to that account.
pub proof fn law_transfer_moves_the_amount(
    balances: Map<Seq<char>, i128>,
    from: Seq<char>,
    to: Seq<char>,
    amount: int,
)
    requires
        fits(funds(balances, from) - amount),
        fits(funds(balances, to) + amount),
    ensures
        ({
            let after = after_transfer(balances, from, to, amount);
            &&& after.contains_key(from) && after.contains_key(to)
            &&& from != to ==> funds(after, from) == funds(balances, from) - amount
            &&& funds(after, to) == funds(balances, to) + amount
            &&& forall|k: Seq<char>| k != from && k != to ==> #[trigger] after.contains_key(k)
                == balances.contains_key(k) && funds(after, k) == funds(balances, k)
        }),
{
}

/// Sending `n` tokens back after receiving them, between two distinct
/// accounts, gives every account its funds back (an account that had no
/// balance before ends with a balance of zero).
pub proof fn law_transfer_back_restores_funds(
    balances: Map<Seq<char>, i128>,
    from: Seq<char>,
    to: Seq<char>,
    n: int,
)
    requires
        from != to,
        funds(balances, from) >= n,
        fits(funds(balances, from) - n),
        fits(funds(balances, to) + n),
    ensures
        ({
            let there = after_transfer(balances, from, to, n);
            let back = after_transfer(there, to, from, n);
            forall|k: Seq<char>| #[trigger] funds(back, k) == funds(balances, k)
        }),
{
}

/// The storage of the token contract: the balance of each account that has
/// ever received or sent tokens.
pub struct TokenStorage {
    balances: StrMap<Integer>,
}

impl View for TokenStorage {
    type V = Map<Seq<char>, i128>;

    /// Each account that has a balance, with that balance.
    closed spec fn view(&self) -> Map<Seq<char>, i128> {
        self.balances@
    }
}

impl TokenStorage {
    /// Well-formedness of the storage.
    pub closed spec fn wf(&self) -> bool {
        self.balances.wf()
    }

    /// The accounts that have a balance, in the order in which they got one.
    pub closed spec fn accounts(&self) -> Seq<Seq<char>> {
        self.balances.keys()
    }

    /// The sum of all balances.
    pub open spec fn total_supply(&self) -> int {
        sum_over(self.accounts(), |k: Seq<char>| funds(self@, k))
    }

    /// Each account with a balance occurs once in `accounts`, and nothing else does.
    pub proof fn lemma_accounts(&self)
        requires
            self.wf(),
        ensures
            self.accounts().no_duplicates(),
            forall|k: Seq<char>| self@.contains_key(k) <==> self.accounts().contains(k),
    {
        self.balances.lemma_keys_domain();
    }

    proof fn lemma_supply_after_write(before: &TokenStorage, after: &TokenStorage, k: Seq<char>, v: i128)
        requires
            before.wf(),
            after@ == before@.insert(k, v),
            after.accounts() == (if before@.contains_key(k) {
                before.accounts()
            } else {
                before.accounts().push(k)
            }),
        ensures
            after.total_supply() == before.total_supply() + v - funds(before@, k),
    {
        before.lemma_accounts();
        let w1 = |x: Seq<char>| funds(before@, x);
        let w2 = |x: Seq<char>| funds(after@, x);
        assert forall|x: Seq<char>| x != k implies #[trigger] w1(x) == w2(x) by {}
        lemma_sum_change_one(before.accounts(), w1, w2, k);
        if !before@.contains_key(k) {
            lemma_sum_push(before.accounts(), w2, k);
        }
    }

    /// The storage of a new token contract: no account has a balance.
    pub fn new() -> (r: TokenStorage)
        ensures
            r.wf(),
            r@ == Map::<Seq<char>, i128>::empty(),
            r.accounts() == Seq::<Seq<char>>::empty(),
            r.total_supply() == 0,
    {
        TokenStorage { balances: StrMap::new() }
    }

    fn funds_of(&self, account: &String) -> (r: Integer)
        requires
            self.wf(),
        ensures
            r == funds(self@, account@),
    {
        match self.balances.get(account) {
            Some(b) => *b,
            None => 0,
        }
    }

    fn write(&mut self, account: String, amount: Integer)
        requires
            old(self).wf(),
        ensures
            final(self).wf(),
            final(self)@ == old(self)@.insert(account@, amount),
            final(self).total_supply() == old(self).total_supply() + amount - funds(
                old(self)@,
                account@,
            ),
    {
        self.balances.insert(account, amount);
        proof {
            TokenStorage::lemma_supply_after_write(old(self), self, account@, amount);
        }
    }

    /// Creates `n` tokens for `signer`: its balance, zero where it has none,
    /// grows by `n`.
    pub fn mint(&mut self, signer: String, n: Integer)
        requires
            old(self).wf(),
            fits(funds(old(self)@, signer@) + n),
        ensures
            final(self).wf(),
            final(self)@ == after_mint(old(self)@, signer@, n as int),
            final(self).total_supply() == old(self).total_supply() + n,
    {
        let balance = self.funds_of(&signer);
        self.write(signer, balance + n);
    }

    /// Moves `n` tokens from `signer` to `to`. Refused with "insufficient
    /// funds", and nothing written, where the balance of `signer` (zero where
    /// it has none) is below `n`.
    pub fn transfer(&mut self, signer: String, to: String, n: Integer) -> (r: Result<(), Error>)
        requires
            old(self).wf(),
            funds(old(self)@, signer@) >= n ==> fits(funds(old(self)@, signer@) - n) && fits(
                funds(old(self)@, to@) + n,
            ),
        ensures
            final(self).wf(),
            funds(old(self)@, signer@) < n ==> (r matches Err(e) && e@ == "insufficient funds"@
                && *final(self) == *old(self)),
            funds(old(self)@, signer@) >= n ==> r is Ok && final(self)@ == after_transfer(
                old(self)@,
                signer@,
                to@,
                n as int,
            ),
            r is Ok && signer@ != to@ ==> final(self).total_supply() == old(self).total_supply(),
    {
        let from_balance = self.funds_of(&signer);
        let to_balance = self.funds_of(&to);
        if from_balance < n {
            return Err(Error::new("insufficient funds"));
        }
        self.write(signer, from_balance - n);
        self.write(to, to_balance + n);
        Ok(())
    }

    /// The balance of `acc`, or `None` where it has never had one.
    pub fn balance(&self, acc: String) -> (r: Option<Integer>)
        requires
            self.wf(),
        ensures
            r == (if self@.contains_key(acc@) {
                Some(self@[acc@])
            } else {
                None::<i128>
            }),
    {
        match self.balances.get(&acc) {
            Some(b) => Some(*b),
            None => None,
        }
    }
}

} // verus!
