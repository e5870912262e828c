use vstd::prelude::*;
use crate::address::{AddressView, ContractAddress};

verus! {

/// The mathematical value of an optional contract address.
pub open spec fn address_view(a: Option<ContractAddress>) -> Option<AddressView> {
    match a {
        Some(x) => Some(x@),
        None => None,
    }
}

/// A call that the proxy forwards: the expression, to the contract at `target`.
#[derive(Debug, PartialEq, Eq)]
pub struct ForwardedCall {
    pub target: ContractAddress,
    pub expr: String,
}

/// The storage of the proxy contract: the address of the contract that it
/// forwards calls to, once one is set.
pub struct ProxyStorage {
    contract_address: Option<ContractAddress>,
}

impl View for ProxyStorage {
    type V = Option<AddressView>;

    closed spec fn view(&self) -> Option<AddressView> {
        address_view(self.contract_address)
    }
}

impl ProxyStorage {
    /// The storage of a new proxy: no address is set.
    pub fn new() -> (r: ProxyStorage)
        ensures
            r@ == None::<AddressView>,
    {
        ProxyStorage { contract_address: None }
    }

    /// The address that calls are forwarded to, if one is set.
    pub fn get_contract_address(&self) -> (r: Option<ContractAddress>)
        ensures
            address_view(r) == self@,
    {
        match &self.contract_address {
            Some(a) => Some(a.clone()),
            None => None,
        }
    }

    /// Sets the address that calls are forwarded to.
    pub fn set_contract_address(&mut self, contract_address: ContractAddress)
        ensures
            final(self)@ == Some(contract_address@),
    {
        self.contract_address = Some(contract_address);
    }

    /// The call that a request the proxy does not know itself becomes: the
    /// same expression, sent to the address that is set. The proxy cannot
    /// forward before an address is set.
    pub fn fallback(&self, expr: String) -> (r: ForwardedCall)
        requires
            self@ is Some,
        ensures
            r.target@ == self@->0,
            r.expr@ == expr@,
    {
        let target = self.contract_address.as_ref().unwrap().clone();
        ForwardedCall { target, expr }
    }
}

} // verus!
