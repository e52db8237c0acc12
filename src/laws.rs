use vstd::prelude::*;

use crate::amount::fits;
use crate::ledger::{run, step, LedgerView};
use crate::record::{Error, Outcome, Record, RecordType};

verus! {

/// One step keeps every account filed under its client with a
/// representable total.
pub proof fn lemma_step_wf(s: LedgerView, r: Record)
    requires
        s.wf(),
        step(s, r) is Ok,
    ensures
        step(s, r)->Ok_0.0.wf(),
{
}

/// The fold only ever passes through well-formed states.
pub proof fn lemma_run_wf(rs: Seq<Record>)
    requires
        run(rs) is Ok,
    ensures
        run(rs)->Ok_0.wf(),
    decreases rs.len(),
{
    if rs.len() > 0 {
        lemma_run_wf(rs.drop_last());
        lemma_step_wf(run(rs.drop_last())->Ok_0, rs.last());
    }
}

/// A fold that succeeds has succeeded on every prefix of its input.
pub proof fn lemma_run_prefix(rs: Seq<Record>, i: int)
    requires
        0 <= i <= rs.len(),
        run(rs) is Ok,
    ensures
        run(rs.take(i)) is Ok,
    decreases rs.len() - i,
{
    if i < rs.len() {
        lemma_run_prefix(rs, i + 1);
        assert(rs.take(i + 1).drop_last() =~= rs.take(i));
    } else {
        assert(rs.take(i) =~= rs);
    }
}

/// At every point of a successful fold, every account's total, the sum of
/// its available and held funds, is representable: `Amounts::total`, which
/// computes it from the two buckets, is defined for every account at every
/// point.
pub proof fn lemma_total_always_defined(rs: Seq<Record>, i: int)
    requires
        0 <= i <= rs.len(),
        run(rs) is Ok,
    ensures
        run(rs.take(i)) is Ok,
        forall|c| #[trigger]
            run(rs.take(i))->Ok_0.accounts.contains_key(c) ==> fits(
                run(rs.take(i))->Ok_0.accounts[c].amounts.total_units(),
            ),
{
    lemma_run_prefix(rs, i);
    lemma_run_wf(rs.take(i));
}

/// A resolve or chargeback that took effect closed its dispute: applying the
/// same record again changes nothing.
pub proof fn lemma_settle_idempotent(s: LedgerView, r: Record)
    requires
        s.wf(),
        r.kind == RecordType::Resolve || r.kind == RecordType::Chargeback,
        step(s, r) is Ok,
        step(s, r)->Ok_0.1 == Outcome::Applied,
    ensures
        step(step(s, r)->Ok_0.0, r) == Ok::<(LedgerView, Outcome), Error>(
            (step(s, r)->Ok_0.0, Outcome::NotDisputed),
        ),
{
    let next = step(s, r)->Ok_0.0;
    assert(next.accounts.insert(r.client, next.accounts[r.client]) =~= next.accounts);
    assert(next.put(next.account(r.client)) == next);
    assert(!next.disputed.contains(r.tx));
}

/// The fold depends on its input alone: equal record sequences give equal
/// results.
pub proof fn lemma_run_deterministic(a: Seq<Record>, b: Seq<Record>)
    requires
        a == b,
    ensures
        run(a) == run(b),
{
}

} // verus!
