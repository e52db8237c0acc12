use vstd::prelude::*;

use crate::amount::Amount;
use crate::ledger::{run, step, LedgerView};
use crate::record::{ClientId, Outcome, Record, RecordType, TxId};

verus! {

/// The sum of the recorded amounts of the transactions in `ts`.
pub open spec fn amount_sum(ts: Set<TxId>, h: Map<TxId, Amount>) -> int
    decreases ts.len(),
{
    if ts.finite() && ts.len() > 0 {
        let t = ts.choose();
        h[t].units + amount_sum(ts.remove(t), h)
    } else {
        0
    }
}

/// Any element may be taken out of a sum first.
pub proof fn lemma_sum_remove(ts: Set<TxId>, h: Map<TxId, Amount>, y: TxId)
    requires
        ts.finite(),
        ts.contains(y),
    ensures
        amount_sum(ts, h) == h[y].units + amount_sum(ts.remove(y), h),
    decreases ts.len(),
{
    let t = ts.choose();
    if t != y {
        lemma_sum_remove(ts.remove(t), h, y);
        lemma_sum_remove(ts.remove(y), h, t);
        assert(ts.remove(t).remove(y) =~= ts.remove(y).remove(t));
    }
}

/// Adding an element to a sum adds its amount.
pub proof fn lemma_sum_insert(ts: Set<TxId>, h: Map<TxId, Amount>, y: TxId)
    requires
        ts.finite(),
        !ts.contains(y),
    ensures
        amount_sum(ts.insert(y), h) == amount_sum(ts, h) + h[y].units,
{
    lemma_sum_remove(ts.insert(y), h, y);
    assert(ts.insert(y).remove(y) =~= ts);
}

/// A sum reads only the amounts of its own transactions.
pub proof fn lemma_sum_congruent(ts: Set<TxId>, h1: Map<TxId, Amount>, h2: Map<TxId, Amount>)
    requires
        forall|t| ts.contains(t) ==> h1[t] == h2[t],
    ensures
        amount_sum(ts, h1) == amount_sum(ts, h2),
    decreases ts.len(),
{
    if ts.finite() && ts.len() > 0 {
        lemma_sum_congruent(ts.remove(ts.choose()), h1, h2);
    }
}

/// A sum of non-negative amounts is non-negative, and at most the sum over
/// any finite superset.
pub proof fn lemma_sum_subset(a: Set<TxId>, b: Set<TxId>, h: Map<TxId, Amount>)
    requires
        b.finite(),
        a.subset_of(b),
        forall|t| b.contains(t) ==> h[t].units >= 0,
    ensures
        0 <= amount_sum(a, h) <= amount_sum(b, h),
    decreases b.len(),
{
    vstd::set_lib::lemma_set_subset_finite(b, a);
    if b.len() > 0 {
        let t = b.choose();
        lemma_sum_remove(b, h, t);
        if a.contains(t) {
            lemma_sum_remove(a, h, t);
            lemma_sum_subset(a.remove(t), b.remove(t), h);
        } else {
            assert(a.subset_of(b.remove(t)));
            lemma_sum_subset(a, b.remove(t), h);
        }
    } else {
        assert(a =~= Set::empty());
    }
}

/// The transactions of client `c` under open dispute, given the client
/// `owner` assigns to each transaction.
pub open spec fn open_of(s: LedgerView, owner: Map<TxId, ClientId>, c: ClientId) -> Set<TxId> {
    s.disputed.filter(|t: TxId| owner[t] == c)
}

/// The held funds of client `c` in state `s`; zero for an unseen client.
pub open spec fn held_of(s: LedgerView, c: ClientId) -> int {
    s.account(c).amounts.held.units as int
}

/// Every account holds exactly the recorded amounts of its own transactions
/// under open dispute, each of them non-negative.
pub open spec fn holds_open_disputes(s: LedgerView, owner: Map<TxId, ClientId>) -> bool {
    &&& s.disputed.finite()
    &&& forall|t| #[trigger] s.disputed.contains(t) ==> s.history.contains_key(t)
    &&& forall|t| #[trigger]
        s.history.contains_key(t) ==> owner.contains_key(t) && s.history[t].units >= 0
    &&& forall|c| #[trigger] held_of(s, c) == amount_sum(open_of(s, owner, c), s.history)
}

/// Record `r`, met in state `s`, keeps to the ownership `owner`: a newly
/// recorded deposit or withdrawal belongs to its client and is not negative;
/// a dispute, resolve or chargeback of a recorded transaction comes from its
/// owner; and no transaction is disputed while its dispute is open.
pub open spec fn fair(s: LedgerView, r: Record, owner: Map<TxId, ClientId>) -> bool {
    match r.kind {
        RecordType::Deposit | RecordType::Withdrawal => !s.history.contains_key(r.tx) ==> {
            &&& owner.contains_key(r.tx)
            &&& owner[r.tx] == r.client
            &&& (r.amount matches Some(x) ==> x.units >= 0)
        },
        RecordType::Dispute => s.history.contains_key(r.tx) ==> {
            &&& owner[r.tx] == r.client
            &&& !s.disputed.contains(r.tx)
        },
        RecordType::Resolve | RecordType::Chargeback => s.history.contains_key(r.tx) ==> owner[r.tx]
            == r.client,
    }
}

/// Every record of `rs` is fair in the state in which the fold meets it.
pub open spec fn fair_run(rs: Seq<Record>, owner: Map<TxId, ClientId>) -> bool
    decreases rs.len(),
{
    rs.len() == 0 || {
        &&& fair_run(rs.drop_last(), owner)
        &&& (run(rs.drop_last()) is Ok ==> fair(run(rs.drop_last())->Ok_0, rs.last(), owner))
    }
}

/// A fair record keeps held funds equal to the open disputes they stand for.
pub proof fn lemma_step_holds_open_disputes(s: LedgerView, r: Record, owner: Map<TxId, ClientId>)
    requires
        s.wf(),
        holds_open_disputes(s, owner),
        fair(s, r, owner),
        step(s, r) is Ok,
    ensures
        holds_open_disputes(step(s, r)->Ok_0.0, owner),
{
    let next = step(s, r)->Ok_0.0;
    let c = r.client;
    assert forall|t| #[trigger] next.disputed.contains(t) implies next.history.contains_key(t) by {
        if next.disputed.contains(t) && !s.disputed.contains(t) {
            assert(t == r.tx);
        }
    }
    let applied = step(s, r)->Ok_0.1 == Outcome::Applied;
    let opening = applied && r.kind == RecordType::Dispute;
    let closing = applied && (r.kind == RecordType::Resolve || r.kind == RecordType::Chargeback);
    assert forall|d| #[trigger] held_of(next, d) == amount_sum(open_of(next, owner, d), next.history) by {
        assert(held_of(s, d) == amount_sum(open_of(s, owner, d), s.history));
        lemma_sum_congruent(open_of(s, owner, d), s.history, next.history);
        if opening && d == c {
            assert(!s.disputed.contains(r.tx));
            assert(open_of(next, owner, d) =~= open_of(s, owner, d).insert(r.tx));
            lemma_sum_insert(open_of(s, owner, d), next.history, r.tx);
        } else if closing && d == c {
            assert(open_of(next, owner, d) =~= open_of(s, owner, d).remove(r.tx));
            lemma_sum_remove(open_of(s, owner, d), next.history, r.tx);
        } else {
            assert(open_of(next, owner, d) =~= open_of(s, owner, d));
        }
    }
}

/// Under a fair fold, the held funds of every client are exactly the
/// recorded amounts of that client's transactions under open dispute: so
/// they are never negative, and never exceed the sum of all amounts under
/// open dispute.
pub proof fn lemma_held_is_open_disputes(rs: Seq<Record>, owner: Map<TxId, ClientId>)
    requires
        run(rs) is Ok,
        fair_run(rs, owner),
    ensures
        holds_open_disputes(run(rs)->Ok_0, owner),
        forall|c| #![trigger held_of(run(rs)->Ok_0, c)]
            0 <= held_of(run(rs)->Ok_0, c) <= amount_sum(run(rs)->Ok_0.disputed, run(rs)->Ok_0.history),
    decreases rs.len(),
{
    let s = run(rs)->Ok_0;
    if rs.len() == 0 {
        assert forall|c| #[trigger] held_of(s, c) == amount_sum(open_of(s, owner, c), s.history) by {
            assert(open_of(s, owner, c) =~= Set::empty());
        }
    } else {
        lemma_held_is_open_disputes(rs.drop_last(), owner);
        crate::laws::lemma_run_wf(rs.drop_last());
        lemma_step_holds_open_disputes(run(rs.drop_last())->Ok_0, rs.last(), owner);
    }
    assert forall|c| #![trigger held_of(s, c)] 0 <= held_of(s, c) <= amount_sum(s.disputed, s.history) by {
        lemma_sum_subset(open_of(s, owner, c), s.disputed, s.history);
    }
}

} // verus!
