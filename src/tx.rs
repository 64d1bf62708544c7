//! The part of a block that the scanner reads.
use vstd::prelude::*;

verus! {

/// A transaction input.
#[derive(Debug, Clone, PartialEq, Eq)]
pub struct TxIn {
    /// Whether the previous-output reference is the null sentinel of a coinbase input.
    pub is_coinbase: bool,
    /// The raw signature script.
    pub script_sig: Vec<u8>,
}

/// A transaction output.
#[derive(Debug, Clone, PartialEq, Eq)]
pub struct TxOut {
    /// The amount, in satoshi; the scanner does not read it.
    pub value: u64,
    /// The raw public-key script.
    pub script_pubkey: Vec<u8>,
}

/// A transaction: its identifier in lower-case hexadecimal, its inputs and its outputs.
#[derive(Debug, Clone, PartialEq, Eq)]
pub struct Transaction {
    pub txid: String,
    pub input: Vec<TxIn>,
    pub output: Vec<TxOut>,
}

/// A block: its transactions, in order.
#[derive(Debug, Clone, PartialEq, Eq)]
pub struct Block {
    pub txdata: Vec<Transaction>,
}

} // verus!
