//! What is remembered between runs: the address of the deployed contract.

use vstd::prelude::*;

verus! {

/// The address of the contract that was deployed last, as bech32 text.
#[derive(Debug)]
pub struct State {
    contract_address: Option<String>,
}

impl Default for State {
    /// The state before anything was deployed.
    fn default() -> (s: State)
        ensures
            s.address() is None,
    {
        State { contract_address: None }
    }
}

impl State {
    /// The address held, as text.
    pub closed spec fn address(&self) -> Option<Seq<char>> {
        match self.contract_address {
            Some(text) => Some(text@),
            None => None,
        }
    }

    /// Sets the contract address.
    pub fn set_address(&mut self, address: String)
        ensures
            final(self).address() == Some(address@),
    {
        self.contract_address = Some(address);
    }

    /// Whether an address is held.
    pub fn has_address(&self) -> (r: bool)
        ensures
            r == self.address() is Some,
    {
        self.contract_address.is_some()
    }

    /// Returns the contract address. There must be one: deploy first.
    pub fn current_address(&self) -> (r: &String)
        requires
            self.address() is Some,
        ensures
            Some(r@) == self.address(),
    {
        self.contract_address.as_ref().unwrap()
    }
}

} // verus!
