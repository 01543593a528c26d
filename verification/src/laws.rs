use vstd::prelude::*;

use crate::client::{apply_state, state_accepts, state_inv, AccountState, HISTORY_CAPACITY};
use crate::history::pushed;
use crate::transaction::Transaction;

verus! {

/// Whether every transaction in `ts` is well formed.
pub open spec fn all_wf(ts: Seq<Transaction>) -> bool {
    forall|i: int| 0 <= i < ts.len() ==> (#[trigger] ts[i]).wf()
}

/// The state after offering a whole sequence of transactions, in order, to
/// an account starting in state `s`; rejected transactions change nothing.
pub open spec fn apply_all(s: AccountState, ts: Seq<Transaction>) -> AccountState
    decreases ts.len(),
{
    if ts.len() == 0 {
        s
    } else {
        apply_all(apply_state(s, ts[0]), ts.drop_first())
    }
}

/// One application preserves the account invariant: whatever transaction is
/// offered, afterwards the balance still sits at or above the negative
/// limit and the history is still bounded.
pub proof fn lemma_apply_preserves_inv(s: AccountState, t: Transaction)
    requires
        state_inv(s),
        t.wf(),
    ensures
        state_inv(apply_state(s, t)),
{
}

/// Invariant preservation over every sequence of applications: after any
/// number of `apply` calls on one account, `balance >= -limit` and the
/// history bound still hold.
pub proof fn lemma_apply_all_preserves_inv(s: AccountState, ts: Seq<Transaction>)
    requires
        state_inv(s),
        all_wf(ts),
    ensures
        state_inv(apply_all(s, ts)),
    decreases ts.len(),
{
    if ts.len() > 0 {
        lemma_apply_preserves_inv(s, ts[0]);
        assert(all_wf(ts.drop_first()));
        lemma_apply_all_preserves_inv(apply_state(s, ts[0]), ts.drop_first());
    }
}

/// Credit monotonicity: a credit is always accepted and increases the
/// balance by exactly its value.
pub proof fn lemma_credit_monotonicity(s: AccountState, t: Transaction)
    requires
        t.wf(),
        t.kind is CREDIT,
    ensures
        state_accepts(s, t),
        apply_state(s, t).balance == s.balance + t.value,
        apply_state(s, t).limit == s.limit,
{
}

/// Debit boundary: a debit of value `v` against balance `b` and limit `l`
/// is accepted exactly when `b - v >= -l`; on acceptance the balance
/// becomes `b - v`, on rejection balance and history are left unchanged.
pub proof fn lemma_debit_boundary(s: AccountState, t: Transaction)
    requires
        t.wf(),
        t.kind is DEBIT,
    ensures
        state_accepts(s, t) <==> s.balance - t.value >= -s.limit,
        state_accepts(s, t) ==> apply_state(s, t).balance == s.balance - t.value,
        !state_accepts(s, t) ==> apply_state(s, t) == s,
{
}

/// The subsequence of `ts` that is accepted when the whole sequence is
/// offered, in order, to an account starting in state `s`.
pub open spec fn successful_subset(s: AccountState, ts: Seq<Transaction>) -> Seq<Transaction>
    decreases ts.len(),
{
    if ts.len() == 0 {
        Seq::empty()
    } else if state_accepts(s, ts[0]) {
        seq![ts[0]] + successful_subset(apply_state(s, ts[0]), ts.drop_first())
    } else {
        successful_subset(s, ts.drop_first())
    }
}

/// Whether every transaction of `ts`, offered in order from state `s`, is
/// accepted.
pub open spec fn all_accepted(s: AccountState, ts: Seq<Transaction>) -> bool
    decreases ts.len(),
{
    ts.len() == 0 || (state_accepts(s, ts[0]) && all_accepted(
        apply_state(s, ts[0]),
        ts.drop_first(),
    ))
}

/// Offering a non-empty sequence is offering the head and then the rest.
proof fn lemma_apply_all_unfold(s: AccountState, t: Transaction, ts: Seq<Transaction>)
    ensures
        apply_all(s, seq![t] + ts) == apply_all(apply_state(s, t), ts),
{
    let whole = seq![t] + ts;
    assert(whole[0] == t);
    assert(whole.drop_first() =~= ts);
}

/// The sequential core of linearizability: once concurrent `apply` calls
/// are serialized into some order, the rejected calls change nothing, so
/// the final state is exactly that of applying the successful subset, in
/// that order, and each member of that subset is accepted in turn.
pub proof fn lemma_final_state_is_successful_subset(s: AccountState, ts: Seq<Transaction>)
    ensures
        apply_all(s, ts) == apply_all(s, successful_subset(s, ts)),
        all_accepted(s, successful_subset(s, ts)),
    decreases ts.len(),
{
    if ts.len() == 0 {
    } else {
        let rest = ts.drop_first();
        if state_accepts(s, ts[0]) {
            let s1 = apply_state(s, ts[0]);
            lemma_final_state_is_successful_subset(s1, rest);
            lemma_apply_all_unfold(s, ts[0], successful_subset(s1, rest));
            assert(successful_subset(s, ts) == seq![ts[0]] + successful_subset(s1, rest));
            assert((seq![ts[0]] + successful_subset(s1, rest))[0] == ts[0]);
            assert((seq![ts[0]] + successful_subset(s1, rest)).drop_first() =~= successful_subset(
                s1,
                rest,
            ));
        } else {
            assert(apply_state(s, ts[0]) == s);
            lemma_final_state_is_successful_subset(s, rest);
        }
    }
}

/// History bound and order: an accepted transaction becomes the newest
/// history entry (`history[0]`), the history never exceeds its capacity,
/// and an insertion into a full history evicts exactly the previously
/// oldest entry, keeping every other entry in order.
pub proof fn lemma_history_bound_and_order(s: AccountState, t: Transaction)
    requires
        state_inv(s),
        t.wf(),
        state_accepts(s, t),
    ensures
        apply_state(s, t).history.len() <= HISTORY_CAPACITY,
        apply_state(s, t).history[0] == t,
        s.history.len() < HISTORY_CAPACITY ==> apply_state(s, t).history =~= seq![t] + s.history,
        s.history.len() == HISTORY_CAPACITY ==> apply_state(s, t).history =~= seq![t]
            + s.history.drop_last(),
{
    let h = apply_state(s, t).history;
    assert(h == pushed(s.history, HISTORY_CAPACITY as int, t));
    assert(h[0] == t);
}

} // verus!
