use vstd::prelude::*;

verus! {

/// The descriptive fields of the token. They are recorded when the ledger is
/// set up and never change; nothing in the ledger depends on their values.
#[derive(Debug)]
pub struct FungibleTokenMetadata {
    pub version: String,
    pub name: String,
    pub symbol: String,
    pub icon: String,
    pub reference: Option<String>,
    pub reference_hash: Option<Vec<u8>>,
    pub decimals: u8,
}

} // verus!
