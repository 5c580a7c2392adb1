//! Properties of the escrow lifecycle that hold for every escrow and every action.

use vstd::prelude::*;

use crate::lifecycle::{
    after_confirm, after_deposit, after_dispute, after_refund, after_release, after_resolution,
    after_risk, deposit_total, is_party, Resolution,
};
use crate::store::{acted, has_escrow, lemma_ids_unique, slot_of, store_valid};
use crate::types::{DepositView, EscrowError, EscrowStatus, EscrowView};

verus! {

/// The lifecycle's edges: the status changes that an action may make.
pub open spec fn edge(a: EscrowStatus, b: EscrowStatus) -> bool {
    ||| (a == EscrowStatus::Created && b == EscrowStatus::Funded)
    ||| (a == EscrowStatus::Funded && b == EscrowStatus::Delivered)
    ||| (a == EscrowStatus::Delivered && b == EscrowStatus::Released)
    ||| (a == EscrowStatus::Funded && b == EscrowStatus::Released)
    ||| ((a == EscrowStatus::Created || a == EscrowStatus::Funded) && b == EscrowStatus::Refunded)
    ||| ((a == EscrowStatus::Funded || a == EscrowStatus::Delivered) && b == EscrowStatus::Disputed)
    ||| (a == EscrowStatus::Disputed && (b == EscrowStatus::Released || b == EscrowStatus::Refunded))
}

/// An action either keeps the status or follows an edge.
pub open spec fn status_step(a: EscrowStatus, b: EscrowStatus) -> bool {
    a == b || edge(a, b)
}

/// A step function on records only moves the status along edges.
pub open spec fn follows_edges(step: spec_fn(EscrowView) -> Result<EscrowView, EscrowError>) -> bool {
    forall|e: EscrowView| #[trigger] step(e) matches Ok(x) ==> status_step(e.status, x.status)
}

/// A step function on records never moves `updated_at` back.
pub open spec fn keeps_time_order(step: spec_fn(EscrowView) -> Result<EscrowView, EscrowError>) -> bool {
    forall|e: EscrowView| #[trigger] step(e) matches Ok(x) ==> x.updated_at >= e.updated_at
}

/// Every lifecycle action keeps the status or moves it along an edge; no edge leads back to
/// `Created`, and none leaves `Released` or `Refunded`.
pub proof fn lemma_actions_follow_edges(
    who: Seq<char>,
    d: DepositView,
    reason: Seq<char>,
    outcome: Resolution,
    score: u8,
    tags: Seq<Seq<char>>,
    now: u64,
)
    ensures
        follows_edges(|e: EscrowView| after_deposit(e, d, now)),
        follows_edges(|e: EscrowView| after_confirm(e, who, now)),
        follows_edges(|e: EscrowView| after_release(e, who, now)),
        follows_edges(|e: EscrowView| after_refund(e, who, reason, now)),
        follows_edges(|e: EscrowView| after_dispute(e, who, reason, now)),
        follows_edges(|e: EscrowView| after_resolution(e, outcome, reason, now)),
        follows_edges(|e: EscrowView| Ok::<EscrowView, EscrowError>(after_risk(e, score, tags, now))),
        forall|a: EscrowStatus, b: EscrowStatus| #[trigger] edge(a, b) ==> b != EscrowStatus::Created,
        forall|a: EscrowStatus, b: EscrowStatus|
            #[trigger] edge(a, b) ==> a != EscrowStatus::Released && a != EscrowStatus::Refunded,
{
}

/// An action on one escrow that follows edges moves every record's status along an edge
/// or leaves it, and creates or removes no record.
pub proof fn lemma_store_action_follows_edges(
    before: Seq<EscrowView>,
    after: Seq<EscrowView>,
    id: Seq<char>,
    r: Result<EscrowView, EscrowError>,
    step: spec_fn(EscrowView) -> Result<EscrowView, EscrowError>,
)
    requires
        acted(before, after, id, r, step),
        follows_edges(step),
    ensures
        after.len() == before.len(),
        forall|i: int| 0 <= i < before.len() ==> status_step(before[i].status, #[trigger] after[i].status),
{
    if has_escrow(before, id) {
        let k = slot_of(before, id);
        assert(before[k].escrow_id == id);
        let _ = step(before[k]);
    }
}

/// Every successful lifecycle action leaves `updated_at` no earlier than before.
pub proof fn lemma_actions_keep_time_order(
    who: Seq<char>,
    d: DepositView,
    reason: Seq<char>,
    outcome: Resolution,
    score: u8,
    tags: Seq<Seq<char>>,
    now: u64,
)
    ensures
        keeps_time_order(|e: EscrowView| after_deposit(e, d, now)),
        keeps_time_order(|e: EscrowView| after_confirm(e, who, now)),
        keeps_time_order(|e: EscrowView| after_release(e, who, now)),
        keeps_time_order(|e: EscrowView| after_refund(e, who, reason, now)),
        keeps_time_order(|e: EscrowView| after_dispute(e, who, reason, now)),
        keeps_time_order(|e: EscrowView| after_resolution(e, outcome, reason, now)),
        keeps_time_order(|e: EscrowView| Ok::<EscrowView, EscrowError>(after_risk(e, score, tags, now))),
{
}

/// An action on one escrow whose step never moves `updated_at` back leaves every record's
/// `updated_at` no earlier than before.
pub proof fn lemma_store_action_keeps_time_order(
    before: Seq<EscrowView>,
    after: Seq<EscrowView>,
    id: Seq<char>,
    r: Result<EscrowView, EscrowError>,
    step: spec_fn(EscrowView) -> Result<EscrowView, EscrowError>,
)
    requires
        acted(before, after, id, r, step),
        keeps_time_order(step),
    ensures
        after.len() == before.len(),
        forall|i: int| 0 <= i < before.len() ==> before[i].updated_at <= #[trigger] after[i].updated_at,
{
    if has_escrow(before, id) {
        let k = slot_of(before, id);
        assert(before[k].escrow_id == id);
        let _ = step(before[k]);
    }
}

/// `x` extends `e`: the fixed facts are the same, deposits and annotations only grew, the
/// deposit total did not drop, and a risk score, once set, is still set.
pub open spec fn extends(e: EscrowView, x: EscrowView) -> bool {
    &&& x.escrow_id == e.escrow_id
    &&& x.creator == e.creator
    &&& x.counterparty == e.counterparty
    &&& x.amount == e.amount
    &&& x.currency == e.currency
    &&& x.deposit_address == e.deposit_address
    &&& x.time_lock == e.time_lock
    &&& x.created_at == e.created_at
    &&& e.deposits.len() <= x.deposits.len()
    &&& x.deposits.subrange(0, e.deposits.len() as int) == e.deposits
    &&& deposit_total(e.deposits) <= deposit_total(x.deposits)
    &&& e.tags.len() <= x.tags.len()
    &&& x.tags.subrange(0, e.tags.len() as int) == e.tags
    &&& (e.risk_score is Some ==> x.risk_score is Some)
}

/// A step function on records only ever extends a record.
pub open spec fn only_extends(step: spec_fn(EscrowView) -> Result<EscrowView, EscrowError>) -> bool {
    forall|e: EscrowView| #[trigger] step(e) is Ok ==> extends(e, step(e)->Ok_0)
}

/// No lifecycle action changes an escrow's fixed facts, removes a deposit or an annotation,
/// lowers the deposit total or clears a risk score.
pub proof fn lemma_actions_only_extend(
    who: Seq<char>,
    d: DepositView,
    reason: Seq<char>,
    outcome: Resolution,
    score: u8,
    tags: Seq<Seq<char>>,
    now: u64,
)
    ensures
        only_extends(|e: EscrowView| after_deposit(e, d, now)),
        only_extends(|e: EscrowView| after_confirm(e, who, now)),
        only_extends(|e: EscrowView| after_release(e, who, now)),
        only_extends(|e: EscrowView| after_refund(e, who, reason, now)),
        only_extends(|e: EscrowView| after_dispute(e, who, reason, now)),
        only_extends(|e: EscrowView| after_resolution(e, outcome, reason, now)),
        only_extends(|e: EscrowView| Ok::<EscrowView, EscrowError>(after_risk(e, score, tags, now))),
{
    assert forall|e: EscrowView| #[trigger] after_deposit(e, d, now) is Ok implies extends(e, after_deposit(e, d, now)->Ok_0) by {
        if d.amount > 0 {
            let ds = e.deposits.push(d);
            assert(ds.drop_last() =~= e.deposits);
            assert(ds.subrange(0, e.deposits.len() as int) =~= e.deposits);
            assert(e.tags.subrange(0, e.tags.len() as int) =~= e.tags);
        }
    }
    assert forall|e: EscrowView| #[trigger] after_confirm(e, who, now) is Ok implies extends(e, after_confirm(e, who, now)->Ok_0) by {
        assert(e.deposits.subrange(0, e.deposits.len() as int) =~= e.deposits);
        assert(e.tags.subrange(0, e.tags.len() as int) =~= e.tags);
    }
    assert forall|e: EscrowView| #[trigger] after_release(e, who, now) is Ok implies extends(e, after_release(e, who, now)->Ok_0) by {
        assert(e.deposits.subrange(0, e.deposits.len() as int) =~= e.deposits);
        assert(e.tags.subrange(0, e.tags.len() as int) =~= e.tags);
    }
    assert forall|e: EscrowView| #[trigger] after_refund(e, who, reason, now) is Ok implies extends(e, after_refund(e, who, reason, now)->Ok_0) by {
        assert(e.deposits.subrange(0, e.deposits.len() as int) =~= e.deposits);
        assert(e.tags.push("refund_reason: "@ + reason).subrange(0, e.tags.len() as int) =~= e.tags);
    }
    assert forall|e: EscrowView| #[trigger] after_dispute(e, who, reason, now) is Ok implies extends(e, after_dispute(e, who, reason, now)->Ok_0) by {
        assert(e.deposits.subrange(0, e.deposits.len() as int) =~= e.deposits);
        assert(e.tags.push("dispute_reason: "@ + reason).subrange(0, e.tags.len() as int) =~= e.tags);
    }
    assert forall|e: EscrowView| #[trigger] after_resolution(e, outcome, reason, now) is Ok implies extends(e, after_resolution(e, outcome, reason, now)->Ok_0) by {
        assert(e.deposits.subrange(0, e.deposits.len() as int) =~= e.deposits);
        assert(e.tags.push("resolution: "@ + reason).subrange(0, e.tags.len() as int) =~= e.tags);
    }
    assert forall|e: EscrowView| true implies #[trigger] extends(e, after_risk(e, score, tags, now)) by {
        assert(e.deposits.subrange(0, e.deposits.len() as int) =~= e.deposits);
        assert((e.tags + tags).subrange(0, e.tags.len() as int) =~= e.tags);
    }
}

/// A party that confirmed delivery and confirms again is told `AlreadyConfirmed`, and the
/// store stays as the first confirmation left it.
pub proof fn lemma_confirm_twice(
    s0: Seq<EscrowView>,
    s1: Seq<EscrowView>,
    s2: Seq<EscrowView>,
    id: Seq<char>,
    who: Seq<char>,
    t1: u64,
    t2: u64,
    r1: Result<EscrowView, EscrowError>,
    r2: Result<EscrowView, EscrowError>,
)
    requires
        store_valid(s1),
        acted(s0, s1, id, r1, |e: EscrowView| after_confirm(e, who, t1)),
        r1 is Ok,
        acted(s1, s2, id, r2, |e: EscrowView| after_confirm(e, who, t2)),
    ensures
        r2 == Err::<EscrowView, EscrowError>(EscrowError::AlreadyConfirmed),
        s2 == s1,
{
    assert(has_escrow(s0, id));
    let k = slot_of(s0, id);
    assert(s0[k].escrow_id == id);
    assert(s1[k] == r1->Ok_0);
    assert(s1[k].escrow_id == id);
    assert(has_escrow(s1, id));
    let j = slot_of(s1, id);
    if j != k {
        lemma_ids_unique(s1, j, k);
    }
}

/// Applying deposit reports in order.
pub open spec fn after_deposits(e: EscrowView, ds: Seq<DepositView>, now: u64) -> EscrowView
    decreases ds.len(),
{
    if ds.len() == 0 {
        e
    } else {
        let prev = after_deposits(e, ds.drop_last(), now);
        match after_deposit(prev, ds.last(), now) {
            Ok(x) => x,
            Err(_) => prev,
        }
    }
}

/// After a series of deposit reports the recorded total is the earlier total plus the sum of
/// the reported amounts.
pub proof fn lemma_deposits_add_up(e: EscrowView, ds: Seq<DepositView>, now: u64)
    ensures
        deposit_total(after_deposits(e, ds, now).deposits) == deposit_total(e.deposits)
            + deposit_total(ds),
    decreases ds.len(),
{
    if ds.len() > 0 {
        lemma_deposits_add_up(e, ds.drop_last(), now);
        let prev = after_deposits(e, ds.drop_last(), now);
        if ds.last().amount > 0 {
            assert(prev.deposits.push(ds.last()).drop_last() =~= prev.deposits);
        }
    }
}

proof fn lemma_total_remove(s: Seq<DepositView>, k: int)
    requires
        0 <= k < s.len(),
    ensures
        deposit_total(s) == deposit_total(s.remove(k)) + s[k].amount,
    decreases s.len(),
{
    if k == s.len() - 1 {
        assert(s.remove(k) =~= s.drop_last());
    } else {
        lemma_total_remove(s.drop_last(), k);
        assert(s.remove(k).drop_last() =~= s.drop_last().remove(k));
        assert(s.remove(k).last() == s.last());
    }
}

/// The total of a collection of deposits does not depend on their order.
pub proof fn lemma_total_ignores_order(a: Seq<DepositView>, b: Seq<DepositView>)
    requires
        a.to_multiset() == b.to_multiset(),
    ensures
        deposit_total(a) == deposit_total(b),
    decreases a.len(),
{
    broadcast use vstd::seq_lib::group_to_multiset_ensures;

    if a.len() == 0 {
        assert(a.to_multiset().len() == a.len());
        assert(b.to_multiset().len() == b.len());
    } else {
        let n = a.len() - 1;
        let x = a[n];
        assert(a.contains(x));
        assert(b.to_multiset().count(x) > 0);
        assert(b.contains(x));
        let k = choose|k: int| 0 <= k < b.len() && b[k] == x;
        assert(a.remove(n) =~= a.drop_last());
        assert(a.remove(n).to_multiset() == a.to_multiset().remove(x));
        assert(b.remove(k).to_multiset() == b.to_multiset().remove(x));
        lemma_total_ignores_order(a.drop_last(), b.remove(k));
        lemma_total_remove(b, k);
    }
}

/// Reporting the same deposits in any order leaves the same recorded total.
pub proof fn lemma_funding_ignores_order(
    e: EscrowView,
    ds1: Seq<DepositView>,
    ds2: Seq<DepositView>,
    now: u64,
)
    requires
        ds1.to_multiset() == ds2.to_multiset(),
    ensures
        deposit_total(after_deposits(e, ds1, now).deposits) == deposit_total(
            after_deposits(e, ds2, now).deposits,
        ),
        deposit_total(after_deposits(e, ds1, now).deposits) == deposit_total(e.deposits)
            + deposit_total(ds1),
{
    lemma_deposits_add_up(e, ds1, now);
    lemma_deposits_add_up(e, ds2, now);
    lemma_total_ignores_order(ds1, ds2);
}

/// A funded escrow whose time lock is `t` cannot be released at `t - 1` and can be at `t`.
pub proof fn lemma_release_boundary(e: EscrowView, who: Seq<char>, t: u64)
    requires
        e.status == EscrowStatus::Funded,
        e.time_lock == Some(t),
        t > 0,
        is_party(e, who),
    ensures
        after_release(e, who, (t - 1) as u64) == Err::<EscrowView, EscrowError>(
            EscrowError::InvalidStatus,
        ),
        after_release(e, who, t) matches Ok(x) && x.status == EscrowStatus::Released,
{
}

} // verus!
