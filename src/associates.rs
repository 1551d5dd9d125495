use vstd::prelude::*;

use crate::store::{known_among, texts, ReportStore};
use crate::wallet::ConfirmedTx;

verus! {

/// The account keys of every transaction, in order.
pub open spec fn all_account_keys(txs: Seq<ConfirmedTx>) -> Seq<Seq<char>>
    decreases txs.len(),
{
    if txs.len() == 0 {
        Seq::empty()
    } else {
        all_account_keys(txs.drop_last()) + texts(txs.last().account_keys@)
    }
}

/// Collects the account keys of every transaction, in order.
pub fn account_keys(transactions: &Vec<ConfirmedTx>) -> (r: Vec<String>)
    ensures
        texts(r@) == all_account_keys(transactions@),
{
    let mut keys: Vec<String> = Vec::new();
    let mut i: usize = 0;
    while i < transactions.len()
        invariant
            i <= transactions@.len(),
            texts(keys@) == all_account_keys(transactions@.take(i as int)),
        decreases transactions@.len() - i,
    {
        assert(transactions@.take(i as int + 1).drop_last() == transactions@.take(i as int));
        let tx_keys = &transactions[i].account_keys;
        let ghost start = texts(keys@);
        let mut j: usize = 0;
        while j < tx_keys.len()
            invariant
                j <= tx_keys@.len(),
                texts(keys@) == start + texts(tx_keys@).take(j as int),
            decreases tx_keys@.len() - j,
        {
            let ghost before = texts(keys@);
            let k = tx_keys[j].clone();
            keys.push(k);
            assert(texts(tx_keys@).take(j as int + 1) == texts(tx_keys@).take(j as int).push(k@));
            assert(texts(keys@) =~= before.push(k@));
            j = j + 1;
        }
        assert(texts(tx_keys@).take(j as int) == texts(tx_keys@));
        i = i + 1;
    }
    assert(transactions@.take(i as int) == transactions@);
    keys
}

/// Known discredited wallets that the transactions name.
pub struct KnownDiscreditedAssociates {
    pub wallets: Vec<String>,
}

/// Known credited wallets that the transactions name.
pub struct KnownCreditedAssociates {
    pub wallets: Vec<String>,
}

/// Known wallets, discredited first and then credited, that the transactions name.
pub struct KnownAssociates {
    pub wallets: Vec<String>,
}

impl KnownDiscreditedAssociates {
    /// Looks up the transactions' account keys among the known discredited wallets.
    pub fn new(database: &ReportStore, transactions: &Vec<ConfirmedTx>) -> (r: Self)
        ensures
            texts(r.wallets@) == known_among(database.discredited(), all_account_keys(transactions@)),
    {
        let keys = account_keys(transactions);
        KnownDiscreditedAssociates { wallets: database.find_discredited_associates(&keys) }
    }
}

impl KnownCreditedAssociates {
    /// Looks up the transactions' account keys among the known credited wallets.
    pub fn new(database: &ReportStore, transactions: &Vec<ConfirmedTx>) -> (r: Self)
        ensures
            texts(r.wallets@) == known_among(database.credited(), all_account_keys(transactions@)),
    {
        let keys = account_keys(transactions);
        KnownCreditedAssociates { wallets: database.find_credited_associates(&keys) }
    }
}

impl KnownAssociates {
    /// Joins the discredited and the credited associates.
    pub fn new(discredited: KnownDiscreditedAssociates, credited: KnownCreditedAssociates) -> (r: Self)
        ensures
            texts(r.wallets@) == texts(discredited.wallets@) + texts(credited.wallets@),
    {
        let mut wallets = discredited.wallets;
        let mut more = credited.wallets;
        let ghost a = wallets@;
        let ghost b = more@;
        wallets.append(&mut more);
        assert(texts(wallets@) =~= texts(a) + texts(b));
        KnownAssociates { wallets }
    }
}

} // verus!
