use contracts::address::ContractAddress;
use contracts::proxy::{ForwardedCall, ProxyStorage};

fn address(name: &str) -> ContractAddress {
    ContractAddress { name: name.to_string(), height: 0, tx_index: 0 }
}

#[test]
fn proxy_address_reads_back() {
    let mut proxy = ProxyStorage::new();
    assert_eq!(proxy.get_contract_address(), None);
    let a = address("shared-account-dynamic");
    proxy.set_contract_address(a.clone());
    assert_eq!(proxy.get_contract_address(), Some(a));
}

#[test]
fn proxy_address_can_be_replaced() {
    let mut proxy = ProxyStorage::new();
    proxy.set_contract_address(address("first"));
    proxy.set_contract_address(address("second"));
    assert_eq!(proxy.get_contract_address(), Some(address("second")));
}

#[test]
fn proxy_forwards_to_the_address_set() {
    let mut proxy = ProxyStorage::new();
    proxy.set_contract_address(address("shared-account-dynamic"));
    let call = proxy.fallback("balance(\"x\")".to_string());
    assert_eq!(
        call,
        ForwardedCall { target: address("shared-account-dynamic"), expr: "balance(\"x\")".to_string() }
    );
}
