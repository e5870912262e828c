use vstd::prelude::*;

verus! {

/// Where a contract lives: its name and the block height and transaction
/// index at which it was published.
#[derive(Debug, PartialEq, Eq)]
pub struct ContractAddress {
    pub name: String,
    pub height: i64,
    pub tx_index: i64,
}

/// The mathematical value of a contract address.
pub struct AddressView {
    pub name: Seq<char>,
    pub height: int,
    pub tx_index: int,
}

impl View for ContractAddress {
    type V = AddressView;

    open spec fn view(&self) -> AddressView {
        AddressView { name: self.name@, height: self.height as int, tx_index: self.tx_index as int }
    }
}

impl ContractAddress {
    /// Whether two addresses name the same contract.
    pub fn same_as(&self, other: &ContractAddress) -> (r: bool)
        ensures
            r == (self@ == other@),
    {
        self.height == other.height && self.tx_index == other.tx_index && self.name == other.name
    }
}

impl Clone for ContractAddress {
    fn clone(&self) -> (r: ContractAddress)
        ensures
            r@ == self@,
    {
        ContractAddress { name: self.name.clone(), height: self.height, tx_index: self.tx_index }
    }
}

} // verus!
