use vstd::prelude::*;

use std::collections::{HashMap, HashSet};

use crate::amount::{fits, Amount, Amounts};
use crate::record::{Account, ClientId, Error, Outcome, Record, RecordType, TxId};

verus! {

broadcast use vstd::std_specs::hash::group_hash_axioms;

/// The abstract state of a ledger.
pub struct LedgerView {
    /// Every account seen so far, by client.
    pub accounts: Map<ClientId, Account>,
    /// The amount of every recorded deposit and successful withdrawal.
    pub history: Map<TxId, Amount>,
    /// Transactions under an open dispute.
    pub disputed: Set<TxId>,
}

impl LedgerView {
    /// The state before any record: no accounts, no history, no disputes.
    pub open spec fn empty() -> LedgerView {
        LedgerView { accounts: Map::empty(), history: Map::empty(), disputed: Set::empty() }
    }

    /// Every account is filed under its own client, and its total is
    /// representable.
    pub open spec fn wf(self) -> bool {
        forall|c: ClientId| #[trigger]
            self.accounts.contains_key(c) ==> self.accounts[c].client == c && fits(
                self.accounts[c].amounts.total_units(),
            )
    }

    /// The account of client `c`: the stored one, or a fresh one where the
    /// client has not been seen.
    pub open spec fn account(self, c: ClientId) -> Account {
        if self.accounts.contains_key(c) {
            self.accounts[c]
        } else {
            Account::fresh(c)
        }
    }

    /// This state with account `a` stored under its client.
    pub open spec fn put(self, a: Account) -> LedgerView {
        LedgerView {
            accounts: self.accounts.insert(a.client, a),
            history: self.history,
            disputed: self.disputed,
        }
    }

    /// The history with `amount` recorded for `tx`, unless `tx` already has
    /// an entry, which is never overwritten.
    pub open spec fn remember(self, tx: TxId, amount: Amount) -> Map<TxId, Amount> {
        if self.history.contains_key(tx) {
            self.history
        } else {
            self.history.insert(tx, amount)
        }
    }
}

/// Account `a` with its buckets set to `available` and `held` units.
pub open spec fn with_funds(a: Account, available: int, held: int) -> Account {
    Account {
        amounts: Amounts {
            available: Amount { units: available as i64 },
            held: Amount { units: held as i64 },
        },
        ..a
    }
}

/// The effect of one record on a ledger state: the next state and what was
/// done, or the fatal error that stops processing.
///
/// The account of the record's client is created first, whatever the record.
/// Deposits and withdrawals need an amount; a withdrawal beyond the available
/// funds is skipped. Disputes, resolves and chargebacks take the amount from
/// the history and are skipped for an unknown transaction; resolves and
/// chargebacks are skipped as well for a transaction not under dispute.
pub open spec fn step(s: LedgerView, r: Record) -> Result<(LedgerView, Outcome), Error> {
    let a = s.account(r.client);
    let av = a.amounts.available.units as int;
    let hd = a.amounts.held.units as int;
    let touched = s.put(a);
    match r.kind {
        RecordType::Deposit => match r.amount {
            None => Err(Error::DepositNoAmount(r.tx)),
            Some(x) => if fits(av + x.units) && fits(av + x.units + hd) {
                Ok((
                    LedgerView {
                        accounts: s.accounts.insert(r.client, with_funds(a, av + x.units, hd)),
                        history: s.remember(r.tx, x),
                        disputed: s.disputed,
                    },
                    Outcome::Applied,
                ))
            } else {
                Err(Error::Overflow(r.tx))
            },
        },
        RecordType::Withdrawal => match r.amount {
            None => Err(Error::WithdrawNoAmount(r.tx)),
            Some(x) => if av < x.units {
                Ok((touched, Outcome::InsufficientFunds))
            } else if fits(av - x.units) && fits(av - x.units + hd) {
                Ok((
                    LedgerView {
                        accounts: s.accounts.insert(r.client, with_funds(a, av - x.units, hd)),
                        history: s.remember(r.tx, x),
                        disputed: s.disputed,
                    },
                    Outcome::Applied,
                ))
            } else {
                Err(Error::Overflow(r.tx))
            },
        },
        RecordType::Dispute => if !s.history.contains_key(r.tx) {
            Ok((touched, Outcome::UnknownTx))
        } else {
            let x = s.history[r.tx].units as int;
            if fits(av - x) && fits(hd + x) {
                Ok((
                    LedgerView {
                        accounts: s.accounts.insert(r.client, with_funds(a, av - x, hd + x)),
                        history: s.history,
                        disputed: s.disputed.insert(r.tx),
                    },
                    Outcome::Applied,
                ))
            } else {
                Err(Error::Overflow(r.tx))
            }
        },
        RecordType::Resolve => if !s.history.contains_key(r.tx) {
            Ok((touched, Outcome::UnknownTx))
        } else if !s.disputed.contains(r.tx) {
            Ok((touched, Outcome::NotDisputed))
        } else {
            let x = s.history[r.tx].units as int;
            if fits(av + x) && fits(hd - x) {
                Ok((
                    LedgerView {
                        accounts: s.accounts.insert(r.client, with_funds(a, av + x, hd - x)),
                        history: s.history,
                        disputed: s.disputed.remove(r.tx),
                    },
                    Outcome::Applied,
                ))
            } else {
                Err(Error::Overflow(r.tx))
            }
        },
        RecordType::Chargeback => if !s.history.contains_key(r.tx) {
            Ok((touched, Outcome::UnknownTx))
        } else if !s.disputed.contains(r.tx) {
            Ok((touched, Outcome::NotDisputed))
        } else {
            let x = s.history[r.tx].units as int;
            if fits(hd - x) && fits(av + hd - x) {
                let charged = Account { locked: true, ..with_funds(a, av, hd - x) };
                Ok((
                    LedgerView {
                        accounts: s.accounts.insert(r.client, charged),
                        history: s.history,
                        disputed: s.disputed.remove(r.tx),
                    },
                    Outcome::Applied,
                ))
            } else {
                Err(Error::Overflow(r.tx))
            }
        },
    }
}

/// The ledger state after folding `rs` in order from the empty state, or the
/// error of the first record that fails.
pub open spec fn run(rs: Seq<Record>) -> Result<LedgerView, Error>
    decreases rs.len(),
{
    if rs.len() == 0 {
        Ok(LedgerView::empty())
    } else {
        match run(rs.drop_last()) {
            Ok(s) => match step(s, rs.last()) {
                Ok((next, _)) => Ok(next),
                Err(e) => Err(e),
            },
            Err(e) => Err(e),
        }
    }
}

/// Whether an exact amount in smallest units is representable.
fn in_range(v: i128) -> (r: bool)
    ensures
        r == fits(v as int),
{
    i64::MIN as i128 <= v && v <= i64::MAX as i128
}

/// The state of the ledger reducer: accounts by client, the amount of each
/// recorded transaction, and the transactions under open dispute.
pub struct Ledger {
    accounts: HashMap<ClientId, Account>,
    history: HashMap<TxId, Amount>,
    disputed: HashSet<TxId>,
}

impl View for Ledger {
    type V = LedgerView;

    closed spec fn view(&self) -> LedgerView {
        LedgerView {
            accounts: self.accounts@,
            history: self.history@,
            disputed: self.disputed@,
        }
    }
}

impl Ledger {
    /// An empty ledger.
    pub fn new() -> (r: Ledger)
        ensures
            r@ == LedgerView::empty(),
    {
        let r = Ledger { accounts: HashMap::new(), history: HashMap::new(), disputed: HashSet::new() };
        assert(r@.accounts =~= Map::empty());
        assert(r@.history =~= Map::empty());
        assert(r@.disputed =~= Set::empty());
        r
    }

    /// The accounts seen so far, by client.
    pub fn accounts(&self) -> (r: &HashMap<ClientId, Account>)
        ensures
            r@ == self@.accounts,
    {
        &self.accounts
    }

    /// Takes the accounts out of the ledger.
    pub fn into_accounts(self) -> (r: HashMap<ClientId, Account>)
        ensures
            r@ == self@.accounts,
    {
        self.accounts
    }

    /// Applies one record. On success the ledger moves to the state that
    /// `step` gives and the outcome says what was done; on a fatal error the
    /// ledger is left as it was.
    pub fn apply(&mut self, record: &Record) -> (r: Result<Outcome, Error>)
        requires
            old(self)@.wf(),
        ensures
            final(self)@.wf(),
            match step(old(self)@, *record) {
                Ok((next, o)) => r == Ok::<Outcome, Error>(o) && final(self)@ == next,
                Err(e) => r == Err::<Outcome, Error>(e) && final(self)@ == old(self)@,
            },
    {
        let ghost s = self@;
        let mut account = match self.accounts.get(&record.client) {
            Some(a) => *a,
            None => Account::new(record.client),
        };
        assert(account == s.account(record.client));
        let av = account.amounts.available.units as i128;
        let hd = account.amounts.held.units as i128;
        let outcome = match record.kind {
            RecordType::Deposit => {
                let amount = match record.amount {
                    Some(a) => a,
                    None => return Err(Error::DepositNoAmount(record.tx)),
                };
                let x = amount.units as i128;
                if !(in_range(av + x) && in_range(av + x + hd)) {
                    return Err(Error::Overflow(record.tx));
                }
                account.amounts.deposit(amount);
                if !self.history.contains_key(&record.tx) {
                    self.history.insert(record.tx, amount);
                }
                Outcome::Applied
            },
            RecordType::Withdrawal => {
                let amount = match record.amount {
                    Some(a) => a,
                    None => return Err(Error::WithdrawNoAmount(record.tx)),
                };
                let x = amount.units as i128;
                if av >= x && !(in_range(av - x) && in_range(av - x + hd)) {
                    return Err(Error::Overflow(record.tx));
                }
                if account.amounts.withdraw(amount) {
                    if !self.history.contains_key(&record.tx) {
                        self.history.insert(record.tx, amount);
                    }
                    Outcome::Applied
                } else {
                    Outcome::InsufficientFunds
                }
            },
            RecordType::Dispute => {
                match self.history.get(&record.tx) {
                    None => Outcome::UnknownTx,
                    Some(amount) => {
                        let amount = *amount;
                        let x = amount.units as i128;
                        if !(in_range(av - x) && in_range(hd + x)) {
                            return Err(Error::Overflow(record.tx));
                        }
                        account.amounts.hold(amount);
                        self.disputed.insert(record.tx);
                        Outcome::Applied
                    },
                }
            },
            RecordType::Resolve => {
                match self.history.get(&record.tx) {
                    None => Outcome::UnknownTx,
                    Some(amount) => {
                        let amount = *amount;
                        let x = amount.units as i128;
                        if !self.disputed.contains(&record.tx) {
                            Outcome::NotDisputed
                        } else {
                            if !(in_range(av + x) && in_range(hd - x)) {
                                return Err(Error::Overflow(record.tx));
                            }
                            account.amounts.release(amount);
                            self.disputed.remove(&record.tx);
                            Outcome::Applied
                        }
                    },
                }
            },
            RecordType::Chargeback => {
                match self.history.get(&record.tx) {
                    None => Outcome::UnknownTx,
                    Some(amount) => {
                        let amount = *amount;
                        let x = amount.units as i128;
                        if !self.disputed.contains(&record.tx) {
                            Outcome::NotDisputed
                        } else {
                            if !(in_range(hd - x) && in_range(av + hd - x)) {
                                return Err(Error::Overflow(record.tx));
                            }
                            account.amounts.chargeback(amount);
                            account.locked = true;
                            self.disputed.remove(&record.tx);
                            Outcome::Applied
                        }
                    },
                }
            },
        };
        self.accounts.insert(record.client, account);
        proof {
            let expected = step(s, *record);
            assert(expected is Ok);
            let next = expected->Ok_0.0;
            assert(self@.accounts =~= next.accounts);
            assert(self@.history =~= next.history);
            assert(self@.disputed =~= next.disputed);
        }
        Ok(outcome)
    }
}

/// Folds `records` in order over an empty ledger and returns the final
/// accounts, or the error of the first record that fails: no record after
/// it is applied.
pub fn process(records: &Vec<Record>) -> (r: Result<HashMap<ClientId, Account>, Error>)
    ensures
        match run(records@) {
            Ok(s) => r is Ok && r->Ok_0@ == s.accounts,
            Err(e) => r == Err::<HashMap<ClientId, Account>, Error>(e),
        },
{
    let mut ledger = Ledger::new();
    let mut i: usize = 0;
    while i < records.len()
        invariant
            i <= records.len(),
            run(records@.take(i as int)) == Ok::<LedgerView, Error>(ledger@),
            ledger@.wf(),
        decreases records.len() - i,
    {
        proof {
            assert(records@.take(i + 1).drop_last() =~= records@.take(i as int));
        }
        match ledger.apply(&records[i]) {
            Ok(_) => {},
            Err(e) => {
                proof { lemma_run_stops(records@, i as int + 1); }
                return Err(e);
            },
        }
        i = i + 1;
    }
    assert(records@.take(i as int) =~= records@);
    Ok(ledger.into_accounts())
}

/// Once the fold fails at some prefix, it fails with the same error on every
/// longer one.
proof fn lemma_run_stops(rs: Seq<Record>, i: int)
    requires
        0 <= i <= rs.len(),
        run(rs.take(i)) is Err,
    ensures
        run(rs) == run(rs.take(i)),
    decreases rs.len() - i,
{
    if i < rs.len() {
        assert(rs.take(i + 1).drop_last() =~= rs.take(i));
        lemma_run_stops(rs, i + 1);
    } else {
        assert(rs.take(i) =~= rs);
    }
}

} // verus!
