use vstd::prelude::*;

verus! {

/// One side of a pool's cross-reference: the token mint it trades.
///
/// Only `address` takes part in the pipeline's logic (it is the join key
/// into the label mapping); the other fields are carried through unchanged.
pub struct MintInfo {
    pub address: String,
    pub chain_id: u64,
    pub program_id: String,
    pub logo_uri: String,
    pub symbol: String,
    pub name: String,
    pub decimals: u8,
    pub tags: Vec<String>,
    /// Free-form extension data, kept as its JSON text.
    pub extensions: String,
}

/// One listed pool.
///
/// `price` and `tvl` are 64-bit floats upstream; they are held here as their
/// IEEE-754 bit patterns so that they pass through the pipeline bit for bit,
/// NaN payloads included.
pub struct Record {
    pub id: String,
    pub program_id: String,
    pub price_bits: u64,
    pub tvl_bits: u64,
    pub mint_a: MintInfo,
    pub mint_b: MintInfo,
}

/// Every way in which a run of the pipeline can fail.
pub enum PipelineError {
    /// A request failed at the network level or returned a non-success status.
    Transport(String),
    /// A response body did not have the expected shape.
    Decode(String),
    /// A well-formed listing page reported `success = false`.
    Upstream,
    /// Creating, writing or flushing the output file failed.
    Io(String),
}

} // verus!
