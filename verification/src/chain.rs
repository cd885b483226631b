//! What the sniper reads from a chain.

use vstd::prelude::*;

use crate::uint::U256;

verus! {

/// A failed read. Whatever went wrong is told as a text; only a rate limit is told apart, because
/// it is worth another try.
#[derive(Debug)]
pub enum ChainError {
    /// The endpoint asked for fewer requests.
    RateLimited(String),
    /// Anything else.
    Failed(String),
}

impl ChainError {
    /// The text that tells what went wrong.
    pub open spec fn spec_message(self) -> Seq<char> {
        match self {
            ChainError::RateLimited(text) => text@,
            ChainError::Failed(text) => text@,
        }
    }

    /// Tells what went wrong.
    pub fn message(&self) -> (text: String)
        ensures
            text@ == self.spec_message(),
    {
        match self {
            ChainError::RateLimited(text) => text.clone(),
            ChainError::Failed(text) => text.clone(),
        }
    }
}

/// What an account holds, and the nonce of its next transaction.
#[derive(Clone, Copy, Debug)]
pub struct AccountState {
    /// The balance in wei.
    pub balance: U256,
    /// The next nonce, counting what is still pending.
    pub pending_nonce: u64,
}

/// The fees that a chain suggests.
#[derive(Clone, Copy, Debug)]
pub struct FeeEstimate {
    /// The most to pay for a unit of gas.
    pub max_fee_per_gas: U256,
    /// The part of it that goes to the block's producer.
    pub max_priority_fee_per_gas: U256,
}

/// The receipt of a mined transaction.
#[derive(Clone, Copy, Debug)]
pub struct TransactionReceipt {
    /// Did the call succeed?
    pub is_success: bool,
    /// The number of the block.
    pub block_number: u64,
}

} // verus!
