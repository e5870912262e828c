use contracts::address::ContractAddress;
use contracts::error::Error;
use contracts::shared_account::{
    authorized, check_funds, insufficient_balance_error, unauthorized_error, unknown_error,
    Account, Direction, SharedAccountStorage, TokenTransfer,
};
use contracts::str_map::StrMap;
use contracts::token::TokenStorage;

const CONTRACT: &str = "shared-account-dynamic";

fn address(name: &str) -> ContractAddress {
    ContractAddress { name: name.to_string(), height: 0, tx_index: 0 }
}

/// The shared-account contract beside the token contracts it uses, with
/// each procedure run as the host runs it: outside calls, then the
/// contract's decision, then the transfer that it asks for.
struct World {
    tokens: Vec<(ContractAddress, TokenStorage)>,
    accounts: SharedAccountStorage,
    next_id: u64,
}

impl World {
    fn new(tokens: &[&str]) -> World {
        World {
            tokens: tokens.iter().map(|t| (address(t), TokenStorage::new())).collect(),
            accounts: SharedAccountStorage::new(),
            next_id: 0,
        }
    }

    fn ledger(&mut self, token: &ContractAddress) -> &mut TokenStorage {
        &mut self.tokens.iter_mut().find(|(a, _)| a == token).unwrap().1
    }

    fn perform(&mut self, signer: &str, t: TokenTransfer) -> Result<(), Error> {
        let ledger = self.ledger(&t.token);
        match t.direction {
            Direction::SignerToContract => {
                ledger.transfer(signer.to_string(), CONTRACT.to_string(), t.amount)
            },
            Direction::ContractToSigner => {
                ledger.transfer(CONTRACT.to_string(), signer.to_string(), t.amount)
            },
        }
    }

    fn open(
        &mut self,
        signer: &str,
        token: ContractAddress,
        n: i128,
        other_tenants: Vec<&str>,
    ) -> Result<String, Error> {
        let available = self.ledger(&token).balance(signer.to_string());
        check_funds(available, n)?;
        self.next_id += 1;
        let id = format!("account-{}", self.next_id);
        let tenants = other_tenants.iter().map(|t| t.to_string()).collect();
        let t = self.accounts.open(available, id.clone(), signer.to_string(), token, n, tenants);
        self.perform(signer, t)?;
        Ok(id)
    }

    fn deposit(&mut self, signer: &str, token: ContractAddress, id: &str, n: i128) -> Result<(), Error> {
        let available = self.ledger(&token).balance(signer.to_string());
        let t = self.accounts.deposit(&signer.to_string(), token, id.to_string(), n, available)?;
        self.perform(signer, t)
    }

    fn withdraw(&mut self, signer: &str, token: ContractAddress, id: &str, n: i128) -> Result<(), Error> {
        let t = self.accounts.withdraw(&signer.to_string(), token, id.to_string(), n)?;
        self.perform(signer, t)
    }

    fn balance(&self, id: &str) -> Option<i128> {
        self.accounts.balance(id.to_string())
    }
}

#[test]
fn shared_account_dynamic_scenario() {
    let mut w = World::new(&["token", "other-token"]);
    let alice = "alice";
    let bob = "bob";
    let claire = "claire";
    let dara = "dara";
    let token = address("token");

    w.ledger(&token).mint(alice.to_string(), 100);

    let account_id = w.open(alice, token.clone(), 50, vec![bob, dara]).unwrap();
    assert_eq!(w.balance(&account_id), Some(50));

    let result = w.withdraw(alice, address("other-token"), &account_id, 50);
    assert_eq!(result, Err(Error::new("unauthorized")));

    w.deposit(alice, token.clone(), &account_id, 25).unwrap();
    assert_eq!(w.balance(&account_id), Some(75));

    w.withdraw(bob, token.clone(), &account_id, 25).unwrap();
    assert_eq!(w.balance(&account_id), Some(50));

    w.withdraw(alice, token.clone(), &account_id, 50).unwrap();
    assert_eq!(w.balance(&account_id), Some(0));

    let result = w.withdraw(bob, token.clone(), &account_id, 1);
    assert_eq!(result, Err(Error::new("insufficient balance")));

    let result = w.withdraw(claire, token.clone(), &account_id, 1);
    assert_eq!(result, Err(Error::new("unauthorized")));

    let result = w.accounts.tenants(account_id.clone());
    assert_eq!(result, Some(vec![alice.to_string(), bob.to_string(), dara.to_string()]));

    // The tokens went back to their holders.
    assert_eq!(w.ledger(&token).balance(alice.to_string()), Some(75));
    assert_eq!(w.ledger(&token).balance(bob.to_string()), Some(25));
    assert_eq!(w.ledger(&token).balance(CONTRACT.to_string()), Some(0));
}

#[test]
fn open_without_funds_is_refused() {
    let mut w = World::new(&["token"]);
    let r = w.open("alice", address("token"), 10, vec![]);
    assert_eq!(r, Err(Error::new("insufficient balance")));
    w.ledger(&address("token")).mint("alice".to_string(), 5);
    let r = w.open("alice", address("token"), 10, vec![]);
    assert_eq!(r, Err(Error::new("insufficient balance")));
    assert_eq!(w.next_id, 0);
}

#[test]
fn check_funds_cases() {
    assert_eq!(check_funds(None, 0), Err(Error::new("insufficient balance")));
    assert_eq!(check_funds(Some(4), 5), Err(Error::new("insufficient balance")));
    assert_eq!(check_funds(Some(5), 5), Ok(()));
    assert_eq!(check_funds(Some(-1), -2), Ok(()));
}

#[test]
fn error_messages() {
    assert_eq!(insufficient_balance_error(), Error::new("insufficient balance"));
    assert_eq!(unauthorized_error(), Error::new("unauthorized"));
    assert_eq!(unknown_error(), Error::new("unknown account"));
    assert_eq!(unknown_error().message(), "unknown account");
}

#[test]
fn deposit_to_unknown_account_is_refused() {
    let mut w = World::new(&["token"]);
    w.ledger(&address("token")).mint("alice".to_string(), 10);
    let r = w.deposit("alice", address("token"), "missing", 5);
    assert_eq!(r, Err(Error::new("unknown account")));
    assert_eq!(w.ledger(&address("token")).balance("alice".to_string()), Some(10));
}

#[test]
fn deposit_checks_funds_before_the_account() {
    let mut w = World::new(&["token"]);
    let r = w.deposit("alice", address("token"), "missing", 5);
    assert_eq!(r, Err(Error::new("insufficient balance")));
}

#[test]
fn deposit_by_stranger_is_refused() {
    let mut w = World::new(&["token"]);
    let t = address("token");
    w.ledger(&t).mint("alice".to_string(), 10);
    w.ledger(&t).mint("eve".to_string(), 10);
    let id = w.open("alice", t.clone(), 10, vec!["bob"]).unwrap();
    let r = w.deposit("eve", t.clone(), &id, 5);
    assert_eq!(r, Err(Error::new("unauthorized")));
    assert_eq!(w.balance(&id), Some(10));
}

#[test]
fn withdraw_from_unknown_account_is_refused() {
    let mut w = World::new(&["token"]);
    let r = w.withdraw("alice", address("token"), "missing", 1);
    assert_eq!(r, Err(Error::new("unknown account")));
}

#[test]
fn unknown_account_has_no_balance_nor_tenants() {
    let accounts = SharedAccountStorage::new();
    assert_eq!(accounts.balance("x".to_string()), None);
    assert_eq!(accounts.tenants("x".to_string()), None);
}

#[test]
fn tenants_keep_first_occurrences_in_order() {
    let mut accounts = SharedAccountStorage::new();
    let tenants = vec!["dara".to_string(), "bob".to_string(), "dara".to_string(), "alice".to_string()];
    let t = accounts.open(Some(3), "id".to_string(), "alice".to_string(), address("token"), 3, tenants);
    assert_eq!(t, TokenTransfer { token: address("token"), direction: Direction::SignerToContract, amount: 3 });
    assert_eq!(
        accounts.tenants("id".to_string()),
        Some(vec!["alice".to_string(), "dara".to_string(), "bob".to_string(), "alice".to_string()])
    );
}

#[test]
fn is_authorized_needs_account_and_tenant() {
    let mut accounts = SharedAccountStorage::new();
    accounts.open(Some(5), "id".to_string(), "alice".to_string(), address("token"), 5, vec!["bob".to_string()]);
    assert!(accounts.is_authorized(&"bob".to_string(), &address("token"), &"id".to_string()));
    assert!(!accounts.is_authorized(&"eve".to_string(), &address("token"), &"id".to_string()));
    assert!(!accounts.is_authorized(&"bob".to_string(), &address("token"), &"other".to_string()));
}

#[test]
fn contract_stays_solvent() {
    let mut w = World::new(&["token"]);
    let t = address("token");
    w.ledger(&t).mint("alice".to_string(), 100);
    let a = w.open("alice", t.clone(), 60, vec!["bob"]).unwrap();
    w.withdraw("bob", t.clone(), &a, 60).unwrap();
    assert_eq!(w.withdraw("bob", t.clone(), &a, 1), Err(Error::new("insufficient balance")));
    assert_eq!(w.balance(&a), Some(0));
    assert_eq!(w.ledger(&t).balance(CONTRACT.to_string()), Some(0));
}

#[test]
fn withdraw_asks_for_transfer_to_signer() {
    let mut accounts = SharedAccountStorage::new();
    accounts.open(Some(30), "id".to_string(), "alice".to_string(), address("token"), 30, vec![]);
    let t = accounts.withdraw(&"alice".to_string(), address("token"), "id".to_string(), 12).unwrap();
    assert_eq!(t, TokenTransfer { token: address("token"), direction: Direction::ContractToSigner, amount: 12 });
    assert_eq!(accounts.balance("id".to_string()), Some(18));
}

#[test]
fn withdraw_undoes_deposit() {
    let mut accounts = SharedAccountStorage::new();
    accounts.open(Some(30), "id".to_string(), "alice".to_string(), address("token"), 30, vec!["bob".to_string()]);
    accounts.deposit(&"bob".to_string(), address("token"), "id".to_string(), 7, Some(7)).unwrap();
    assert_eq!(accounts.balance("id".to_string()), Some(37));
    accounts.withdraw(&"bob".to_string(), address("token"), "id".to_string(), 7).unwrap();
    assert_eq!(accounts.balance("id".to_string()), Some(30));
}

#[test]
fn tenant_marked_not_allowed_is_not_authorized() {
    let mut tenants: StrMap<bool> = StrMap::new();
    tenants.insert("bob".to_string(), false);
    tenants.insert("dara".to_string(), true);
    let account = Account { other_tenants: tenants, token: address("token"), balance: 0, owner: "alice".to_string() };
    assert!(authorized(&"alice".to_string(), &address("token"), &account));
    assert!(!authorized(&"bob".to_string(), &address("token"), &account));
    assert!(authorized(&"dara".to_string(), &address("token"), &account));
    assert!(!authorized(&"claire".to_string(), &address("token"), &account));
    assert!(!authorized(&"alice".to_string(), &address("other-token"), &account));
}

#[test]
fn custody_matches_sum_of_balances() {
    let mut w = World::new(&["token", "other-token"]);
    let t = address("token");
    let o = address("other-token");
    w.ledger(&t).mint("alice".to_string(), 100);
    w.ledger(&o).mint("bob".to_string(), 100);
    let a = w.open("alice", t.clone(), 40, vec!["bob"]).unwrap();
    let b = w.open("bob", o.clone(), 15, vec![]).unwrap();
    let c = w.open("alice", t.clone(), 20, vec![]).unwrap();
    w.deposit("alice", t.clone(), &a, 5).unwrap();
    w.withdraw("bob", t.clone(), &a, 30).unwrap();
    w.withdraw("bob", o.clone(), &b, 10).unwrap();
    let held_t = w.balance(&a).unwrap() + w.balance(&c).unwrap();
    assert_eq!(w.ledger(&t).balance(CONTRACT.to_string()), Some(held_t));
    assert_eq!(w.ledger(&o).balance(CONTRACT.to_string()), Some(w.balance(&b).unwrap()));
    assert_eq!(held_t, 35);
}
