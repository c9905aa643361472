//! Token identifiers and the payments attached to operations.

use vstd::prelude::*;
use vstd::std_specs::cmp::PartialEqSpecImpl;

verus! {

/// The identifier of a token, such as `VLD-76ecd8`. The empty identifier
/// stands for "no token".
#[derive(Debug, Eq)]
pub struct TokenId {
    name: String,
}

impl View for TokenId {
    type V = Seq<char>;

    closed spec fn view(&self) -> Seq<char> {
        self.name@
    }
}

impl PartialEq for TokenId {
    fn eq(&self, other: &TokenId) -> (r: bool) {
        self.name == other.name
    }
}

impl PartialEqSpecImpl for TokenId {
    open spec fn obeys_eq_spec() -> bool {
        true
    }

    open spec fn eq_spec(&self, other: &TokenId) -> bool {
        self@ == other@
    }
}

impl Clone for TokenId {
    fn clone(&self) -> (r: TokenId)
        ensures
            r@ == self@,
    {
        TokenId { name: self.name.clone() }
    }
}

impl TokenId {
    /// The token with the given identifier.
    pub fn new(name: &str) -> (r: TokenId)
        ensures
            r@ == name@,
    {
        TokenId { name: name.to_owned() }
    }

    /// The identifier as text.
    pub fn as_str(&self) -> (r: &str)
        ensures
            r@ == self@,
    {
        self.name.as_str()
    }

    /// Whether this is the empty identifier.
    pub fn is_empty(&self) -> (r: bool)
        ensures
            r == (self@.len() == 0),
    {
        self.name.as_str().is_empty()
    }
}

/// A payment attached to an operation.
#[derive(Debug, PartialEq, Eq)]
pub struct Payment {
    pub token: TokenId,
    pub nonce: u64,
    pub amount: u128,
}

/// A payment as plain values.
pub ghost struct PaymentView {
    pub token: Seq<char>,
    pub nonce: u64,
    pub amount: u128,
}

impl View for Payment {
    type V = PaymentView;

    open spec fn view(&self) -> PaymentView {
        PaymentView { token: self.token@, nonce: self.nonce, amount: self.amount }
    }
}

impl Payment {
    /// A payment of `amount` of the token `token`, with the given nonce.
    pub fn new(token: TokenId, nonce: u64, amount: u128) -> (r: Payment)
        ensures
            r@ == (PaymentView { token: token@, nonce, amount }),
    {
        Payment { token, nonce, amount }
    }
}

} // verus!
