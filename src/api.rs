use vstd::prelude::*;

verus! {

/// The body of an `add-chain` request: DER certificates, the leaf first.
#[derive(Clone, Debug)]
pub struct AddChainInput {
    pub chain: Vec<Vec<u8>>,
}

/// The reply to `add-chain`: a signed certificate timestamp.
#[derive(Clone, Debug)]
pub struct AddChainOutput {
    pub sct_version: u64,
    pub id: Vec<u8>,
    pub timestamp: u64,
    pub extensions: Vec<u8>,
    pub signature: Vec<u8>,
}

/// The body of an `add-pre-chain` request: the precertificate first, then
/// its issuers.
#[derive(Clone, Debug)]
pub struct AddPreChainInput {
    pub chain: Vec<Vec<u8>>,
}

/// The reply to `add-pre-chain`: a signed certificate timestamp.
#[derive(Clone, Debug)]
pub struct AddPreChainOutput {
    pub sct_version: u64,
    pub id: Vec<u8>,
    pub timestamp: u64,
    pub extensions: Vec<u8>,
    pub signature: Vec<u8>,
}

} // verus!
