//! Requests to the ledger and the descriptor a transition answers with.

use vstd::prelude::*;
use cosmwasm_std::StdError;

verus! {

/// What is fixed when a ledger is created.
#[derive(Debug)]
pub struct InstantiateMsg {
    pub mint_enabled: bool,
    pub supply_cap: u128,
}

/// A state transition. Each address comes with the address validator's
/// verdict on it: the canonical identity, or the validator's failure.
#[derive(Debug)]
pub enum ExecuteMsg {
    Mint { recipient: Result<String, StdError>, amount: u128 },
    AddMinter { minter: Result<String, StdError> },
    RemoveMinter { minter: Result<String, StdError> },
}

/// A read-only question, its address validated like those of `ExecuteMsg`.
#[derive(Debug)]
pub enum QueryMsg {
    Balance { address: Result<String, StdError> },
}

/// One observable fact about a transition.
#[derive(Clone, Debug, PartialEq)]
pub struct Attribute {
    pub key: String,
    pub value: String,
}

/// What a successful transition reports: its attributes, in order.
#[derive(Clone, Debug, PartialEq)]
pub struct Response {
    pub attributes: Vec<Attribute>,
}

impl View for Response {
    type V = Seq<(Seq<char>, Seq<char>)>;

    /// The attributes as pairs of key and value.
    open spec fn view(&self) -> Seq<(Seq<char>, Seq<char>)> {
        Seq::new(
            self.attributes@.len(),
            |i: int| (self.attributes@[i].key@, self.attributes@[i].value@),
        )
    }
}

impl Response {
    /// A response without attributes.
    pub fn new() -> (r: Response)
        ensures
            r@ == Seq::<(Seq<char>, Seq<char>)>::empty(),
    {
        let r = Response { attributes: Vec::new() };
        assert(r@ =~= Seq::<(Seq<char>, Seq<char>)>::empty());
        r
    }

    /// Appends one attribute and hands the response back.
    pub fn add_attribute(self, key: &str, value: String) -> (r: Response)
        ensures
            r@ == self@.push((key@, value@)),
    {
        let mut attributes = self.attributes;
        attributes.push(Attribute { key: key.to_owned(), value });
        let r = Response { attributes };
        assert(r@ =~= self@.push((key@, value@)));
        r
    }
}

} // verus!
