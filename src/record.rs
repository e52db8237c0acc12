use vstd::prelude::*;

use crate::amount::{Amount, Amounts};

verus! {

/// Identifier of a client account.
pub type ClientId = u16;

/// Identifier of a deposit or withdrawal transaction.
pub type TxId = u32;

/// The type of a record.
#[derive(Clone, Copy, Debug, PartialEq, Eq, Structural)]
pub enum RecordType {
    /// Money deposit. Increases the available amount.
    Deposit,
    /// Money withdrawal. Decreases the available amount.
    Withdrawal,
    /// Transaction dispute. Moves funds from available to held.
    Dispute,
    /// Dispute resolution. Moves funds from held to available.
    Resolve,
    /// Chargeback. Freezes the account and decreases held funds.
    Chargeback,
}

/// A single transaction record.
#[derive(Clone, Copy, Debug, PartialEq, Eq, Structural)]
pub struct Record {
    /// Type of the record.
    pub kind: RecordType,
    /// The client account the record applies to.
    pub client: ClientId,
    /// The transaction identifier. Deposits and withdrawals introduce it;
    /// disputes, resolves and chargebacks refer to an earlier one.
    pub tx: TxId,
    /// The amount of a deposit or withdrawal. Other records take the amount
    /// of the transaction they refer to.
    pub amount: Option<Amount>,
}

/// A client account: its funds and whether it is frozen.
#[derive(Clone, Copy, Debug, PartialEq, Eq, Structural)]
pub struct Account {
    /// Identifier of this account.
    pub client: ClientId,
    /// Funds associated with this account.
    pub amounts: Amounts,
    /// Frozen status. Set by a successful chargeback and never cleared.
    pub locked: bool,
}

impl Account {
    /// A fresh account of `client`: no funds, not locked.
    pub open spec fn fresh(client: ClientId) -> Account {
        Account {
            client,
            amounts: Amounts { available: Amount { units: 0 }, held: Amount { units: 0 } },
            locked: false,
        }
    }

    /// An empty, unlocked account of `client`.
    pub fn new(client: ClientId) -> (r: Account)
        ensures
            r == Account::fresh(client),
    {
        Account { client, amounts: Amounts::default(), locked: false }
    }
}

/// A fatal error of the ledger: processing stops at the offending record.
#[derive(Clone, Copy, Debug, PartialEq, Eq, Structural)]
pub enum Error {
    /// A deposit carries no amount.
    DepositNoAmount(TxId),
    /// A withdrawal carries no amount.
    WithdrawNoAmount(TxId),
    /// Applying the record would take a balance out of the representable
    /// range of amounts.
    Overflow(TxId),
}

/// What applying one record did, for diagnostics. Only `Applied` changes
/// balances; every other outcome leaves them as they were.
#[derive(Clone, Copy, Debug, PartialEq, Eq, Structural)]
pub enum Outcome {
    /// The record took effect.
    Applied,
    /// A withdrawal exceeded the available funds and was skipped.
    InsufficientFunds,
    /// A dispute, resolve or chargeback referred to an unknown transaction.
    UnknownTx,
    /// A resolve or chargeback referred to a transaction not under dispute.
    NotDisputed,
}

} // verus!
