use vstd::prelude::*;

verus! {

/// One entry of an account's signature history.
pub struct TxStatus {
    /// The transaction signature.
    pub signature: String,
    /// Block time in seconds since the Unix epoch, when the chain reports one.
    pub block_time: Option<i64>,
    /// Whether the transaction failed.
    pub failed: bool,
}

/// Balance and reward details of one confirmed transaction.
pub struct TxMeta {
    /// Balance of each touched account before the transaction.
    pub pre_balances: Vec<u64>,
    /// Balance of each touched account after the transaction.
    pub post_balances: Vec<u64>,
    /// Lamports credited or debited by each reward of the transaction.
    pub rewards: Vec<i64>,
}

/// A confirmed transaction with the details that the indicators read.
pub struct ConfirmedTx {
    /// Status details; absent when the chain returned none.
    pub meta: Option<TxMeta>,
    /// Addresses of the accounts that the transaction names.
    pub account_keys: Vec<String>,
}

/// Behavioural snapshot of one account, fetched once per job.
///
/// `transaction_history` lists the most recent transaction first, as the chain returns it.
pub struct Wallet {
    /// Address of the account.
    pub wallet_addr: String,
    /// Balance in the smallest unit (lamports).
    pub account_balance: u64,
    /// Signature history, most recent first.
    pub transaction_history: Vec<TxStatus>,
    /// Recent prioritization fee samples.
    pub prioritization_fees: Vec<u64>,
}

} // verus!
