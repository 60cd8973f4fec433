//! What is known of one token.

use vstd::prelude::*;
use crate::address::TokenAddress;

verus! {

/// The description of one token on one chain. A pooled token names the one or
/// two tokens it is made of; a plain asset names none.
#[derive(Debug)]
pub struct TokenMetadata {
    pub chain: u64,
    pub address: TokenAddress,
    pub name: String,
    pub symbol: String,
    pub decimals: u8,
    pub component0: Option<TokenAddress>,
    pub component1: Option<TokenAddress>,
}

impl Clone for TokenMetadata {
    fn clone(&self) -> (res: Self)
        ensures
            res == *self,
    {
        TokenMetadata {
            chain: self.chain,
            address: self.address,
            name: self.name.clone(),
            symbol: self.symbol.clone(),
            decimals: self.decimals,
            component0: self.component0,
            component1: self.component1,
        }
    }
}

impl TokenMetadata {
    /// Whether this token is made of `a`.
    pub open spec fn names_component(&self, a: TokenAddress) -> bool {
        self.component0 == Some(a) || self.component1 == Some(a)
    }

    /// Whether two descriptions agree in every attribute.
    pub fn same_as(&self, other: &TokenMetadata) -> (b: bool)
        ensures
            b == (self.chain == other.chain && self.address == other.address && self.name@
                == other.name@ && self.symbol@ == other.symbol@ && self.decimals
                == other.decimals && self.component0 == other.component0 && self.component1
                == other.component1),
    {
        self.chain == other.chain && self.address == other.address && self.name == other.name
            && self.symbol == other.symbol && self.decimals == other.decimals
            && self.component0 == other.component0 && self.component1 == other.component1
    }
}

} // verus!
