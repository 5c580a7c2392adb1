//! The escrow state machine on a single record: each action as a spec function on views
//! and as an executable function proved to follow it.

use vstd::prelude::*;
use vstd::string::*;

use crate::text::{has_substring, has_term};
use crate::types::{
    deposits_view, strings_view, DepositView, EscrowError, EscrowRecord, EscrowStatus, EscrowView,
    UTXO,
};

verus! {

/// The `updated_at` stamp after a mutation at time `now`: the clock reading, never earlier
/// than the stamp before.
pub open spec fn stamp(prev: u64, now: u64) -> u64 {
    if now >= prev {
        now
    } else {
        prev
    }
}

/// `who` is the creator or the counterparty of the escrow.
pub open spec fn is_party(e: EscrowView, who: Seq<char>) -> bool {
    who == e.creator || who == e.counterparty
}

/// The sum of the amounts of a sequence of deposits.
pub open spec fn deposit_total(ds: Seq<DepositView>) -> int
    decreases ds.len(),
{
    if ds.len() == 0 {
        0
    } else {
        deposit_total(ds.drop_last()) + ds.last().amount
    }
}

/// Reporting a deposit: it is appended; a `Created` escrow whose deposits now reach the
/// requested amount becomes `Funded`, and the time of funding is kept.
pub open spec fn after_deposit(e: EscrowView, d: DepositView, now: u64) -> Result<
    EscrowView,
    EscrowError,
> {
    if d.amount == 0 {
        Err(EscrowError::InvalidAmount)
    } else {
        let ds = e.deposits.push(d);
        let funds = e.status == EscrowStatus::Created && deposit_total(ds) >= e.amount;
        Ok(
            EscrowView {
                deposits: ds,
                status: if funds {
                    EscrowStatus::Funded
                } else {
                    e.status
                },
                updated_at: stamp(e.updated_at, now),
                funded_at: if funds {
                    Some(stamp(e.updated_at, now))
                } else {
                    e.funded_at
                },
                ..e
            },
        )
    }
}

/// `who` has already confirmed delivery (the creator, or otherwise the counterparty).
pub open spec fn has_confirmed(e: EscrowView, who: Seq<char>) -> bool {
    if who == e.creator {
        e.creator_confirmed
    } else {
        e.counterparty_confirmed
    }
}

/// Confirming delivery: a party records its confirmation once, while the escrow is
/// `Funded`; with both confirmations it becomes `Delivered`.
pub open spec fn after_confirm(e: EscrowView, who: Seq<char>, now: u64) -> Result<
    EscrowView,
    EscrowError,
> {
    if !is_party(e, who) {
        Err(EscrowError::Unauthorized)
    } else if has_confirmed(e, who) {
        Err(EscrowError::AlreadyConfirmed)
    } else if e.status != EscrowStatus::Funded {
        Err(EscrowError::InvalidStatus)
    } else {
        let c1 = e.creator_confirmed || who == e.creator;
        let c2 = e.counterparty_confirmed || who != e.creator;
        Ok(
            EscrowView {
                creator_confirmed: c1,
                counterparty_confirmed: c2,
                status: if c1 && c2 {
                    EscrowStatus::Delivered
                } else {
                    EscrowStatus::Funded
                },
                updated_at: stamp(e.updated_at, now),
                ..e
            },
        )
    }
}

/// Release is allowed once delivered, or when funded and the time lock has passed.
pub open spec fn release_allowed(e: EscrowView, now: u64) -> bool {
    e.status == EscrowStatus::Delivered || (e.status == EscrowStatus::Funded
        && e.time_lock is Some && now >= e.time_lock->0)
}

/// Requesting release: a party moves an eligible escrow to `Released`.
pub open spec fn after_release(e: EscrowView, who: Seq<char>, now: u64) -> Result<
    EscrowView,
    EscrowError,
> {
    if !is_party(e, who) {
        Err(EscrowError::Unauthorized)
    } else if !release_allowed(e, now) {
        Err(EscrowError::InvalidStatus)
    } else {
        Ok(
            EscrowView {
                status: EscrowStatus::Released,
                updated_at: stamp(e.updated_at, now),
                ..e
            },
        )
    }
}

/// Forcing a refund: the creator moves a `Created` or `Funded` escrow to `Refunded` and the
/// reason is recorded.
pub open spec fn after_refund(e: EscrowView, who: Seq<char>, reason: Seq<char>, now: u64) -> Result<
    EscrowView,
    EscrowError,
> {
    if who != e.creator {
        Err(EscrowError::Unauthorized)
    } else if e.status != EscrowStatus::Created && e.status != EscrowStatus::Funded {
        Err(EscrowError::InvalidStatus)
    } else {
        Ok(
            EscrowView {
                status: EscrowStatus::Refunded,
                tags: e.tags.push("refund_reason: "@ + reason),
                updated_at: stamp(e.updated_at, now),
                ..e
            },
        )
    }
}

/// Raising a dispute: a party moves a `Funded` or `Delivered` escrow to `Disputed` and the
/// reason is recorded.
pub open spec fn after_dispute(e: EscrowView, who: Seq<char>, reason: Seq<char>, now: u64) -> Result<
    EscrowView,
    EscrowError,
> {
    if !is_party(e, who) {
        Err(EscrowError::Unauthorized)
    } else if e.status != EscrowStatus::Funded && e.status != EscrowStatus::Delivered {
        Err(EscrowError::InvalidStatus)
    } else {
        Ok(
            EscrowView {
                status: EscrowStatus::Disputed,
                tags: e.tags.push("dispute_reason: "@ + reason),
                updated_at: stamp(e.updated_at, now),
                ..e
            },
        )
    }
}

/// How a dispute ends.
#[derive(Clone, Copy, Debug, PartialEq, Eq, Structural)]
pub enum Resolution {
    Release,
    Refund,
}

/// The terminal status that a resolution leads to.
pub open spec fn resolution_status(outcome: Resolution) -> EscrowStatus {
    match outcome {
        Resolution::Release => EscrowStatus::Released,
        Resolution::Refund => EscrowStatus::Refunded,
    }
}

/// Resolving a dispute: a `Disputed` escrow ends `Released` or `Refunded` and the
/// resolution text is recorded.
pub open spec fn after_resolution(e: EscrowView, outcome: Resolution, text: Seq<char>, now: u64) -> Result<
    EscrowView,
    EscrowError,
> {
    if e.status != EscrowStatus::Disputed {
        Err(EscrowError::InvalidStatus)
    } else {
        Ok(
            EscrowView {
                status: resolution_status(outcome),
                tags: e.tags.push("resolution: "@ + text),
                updated_at: stamp(e.updated_at, now),
                ..e
            },
        )
    }
}

/// The word whose presence in a resolution text means release.
pub open spec fn release_term() -> Seq<char> {
    seq!['r', 'e', 'l', 'e', 'a', 's', 'e']
}

/// The outcome read from a free-text resolution: release when the text mentions
/// `release`, refund otherwise.
pub open spec fn resolution_of(text: Seq<char>) -> Resolution {
    if has_substring(text, release_term()) {
        Resolution::Release
    } else {
        Resolution::Refund
    }
}

/// Attaching a risk assessment: the score is set and the tags appended, whatever the status.
pub open spec fn after_risk(e: EscrowView, score: u8, tags: Seq<Seq<char>>, now: u64) -> EscrowView {
    EscrowView {
        risk_score: Some(score),
        tags: e.tags + tags,
        updated_at: stamp(e.updated_at, now),
        ..e
    }
}

/// The outcome that a free-text resolution asks for.
pub fn resolution_outcome(text: &str) -> (r: Resolution)
    ensures
        r == resolution_of(text@),
{
    let term = "release";
    proof {
        reveal_strlit("release");
    }
    assert(term@ =~= release_term());
    if has_term(text, term) {
        Resolution::Release
    } else {
        Resolution::Refund
    }
}

proof fn lemma_total_of_prefix(ds: Seq<DepositView>, k: int)
    requires
        0 <= k <= ds.len(),
    ensures
        deposit_total(ds.subrange(0, k)) <= deposit_total(ds),
        deposit_total(ds.subrange(0, k)) >= 0,
    decreases ds.len(),
{
    if ds.len() > 0 {
        if k == ds.len() {
            assert(ds.subrange(0, k) =~= ds);
            lemma_total_of_prefix(ds.drop_last(), k - 1);
            assert(ds.drop_last().subrange(0, k - 1) =~= ds.drop_last());
        } else {
            lemma_total_of_prefix(ds.drop_last(), k);
            assert(ds.drop_last().subrange(0, k) =~= ds.subrange(0, k));
            lemma_total_of_prefix(ds.drop_last(), ds.len() - 1);
            assert(ds.drop_last().subrange(0, ds.len() - 1) =~= ds.drop_last());
        }
    } else {
        assert(ds.subrange(0, k) =~= ds);
    }
}

proof fn lemma_total_step(ds: Seq<DepositView>, i: int)
    requires
        0 <= i < ds.len(),
    ensures
        deposit_total(ds.subrange(0, i + 1)) == deposit_total(ds.subrange(0, i)) + ds[i].amount,
{
    assert(ds.subrange(0, i + 1).drop_last() =~= ds.subrange(0, i));
}

/// Whether the deposits reach `amount`, computed without overflow.
pub fn deposits_reach(utxos: &Vec<UTXO>, amount: u64) -> (r: bool)
    ensures
        r == (deposit_total(deposits_view(utxos@)) >= amount),
{
    let ghost ds = deposits_view(utxos@);
    proof {
        lemma_total_of_prefix(ds, 0);
        lemma_total_of_prefix(ds, ds.len() as int);
        assert(ds.subrange(0, ds.len() as int) =~= ds);
    }
    if amount == 0 {
        return true;
    }
    let mut total: u64 = 0;
    let mut i: usize = 0;
    while i < utxos.len()
        invariant
            ds == deposits_view(utxos@),
            i <= utxos@.len(),
            total == deposit_total(ds.subrange(0, i as int)),
            total < amount,
        decreases utxos@.len() - i,
    {
        let a = utxos[i].amount_satoshis;
        proof {
            lemma_total_step(ds, i as int);
        }
        if a >= amount - total {
            proof {
                lemma_total_of_prefix(ds, i + 1);
            }
            return true;
        }
        total = total + a;
        i = i + 1;
    }
    assert(ds.subrange(0, i as int) =~= ds);
    false
}

impl EscrowRecord {
    /// The sum of the deposited amounts, or `None` where it exceeds `u64::MAX`.
    pub fn total_deposited(&self) -> (r: Option<u64>)
        ensures
            deposit_total(self@.deposits) <= u64::MAX ==> r == Some(
                deposit_total(self@.deposits) as u64,
            ),
            deposit_total(self@.deposits) > u64::MAX ==> r is None,
    {
        let ghost ds = self@.deposits;
        let mut total: u64 = 0;
        let mut i: usize = 0;
        while i < self.utxos.len()
            invariant
                ds == deposits_view(self.utxos@),
                i <= self.utxos@.len(),
                total == deposit_total(ds.subrange(0, i as int)),
            decreases self.utxos@.len() - i,
        {
            proof {
                lemma_total_step(ds, i as int);
            }
            match total.checked_add(self.utxos[i].amount_satoshis) {
                Some(t) => {
                    total = t;
                },
                None => {
                    proof {
                        lemma_total_of_prefix(ds, i + 1);
                    }
                    return None;
                },
            }
            i = i + 1;
        }
        assert(ds.subrange(0, i as int) =~= ds);
        Some(total)
    }
}

impl EscrowRecord {
    /// For a released escrow, the time from funding to release.
    pub fn time_to_release(&self) -> (r: Option<u64>)
        ensures
            r == match self@.funded_at {
                Some(t) if self@.status == EscrowStatus::Released && t <= self@.updated_at => Some(
                    (self@.updated_at - t) as u64,
                ),
                _ => None::<u64>,
            },
    {
        match self.funded_at {
            Some(t) => {
                if self.status == EscrowStatus::Released && t <= self.updated_at {
                    Some(self.updated_at - t)
                } else {
                    None
                }
            },
            None => None,
        }
    }
}

fn stamp_exec(prev: u64, now: u64) -> (r: u64)
    ensures
        r == stamp(prev, now),
{
    if now >= prev {
        now
    } else {
        prev
    }
}

fn prefixed(prefix: &str, text: &str) -> (r: String)
    ensures
        r@ == prefix@ + text@,
{
    let s = String::from_str(prefix);
    s.concat(text)
}

/// Records a deposit proof on the escrow.
pub fn apply_deposit(rec: &mut EscrowRecord, utxo: UTXO, now: u64) -> (r: Result<(), EscrowError>)
    ensures
        match after_deposit(old(rec)@, utxo@, now) {
            Ok(e) => r is Ok && final(rec)@ == e,
            Err(err) => r == Err::<(), EscrowError>(err) && final(rec)@ == old(rec)@,
        },
{
    if utxo.amount_satoshis == 0 {
        return Err(EscrowError::InvalidAmount);
    }
    let ghost d = utxo@;
    rec.utxos.push(utxo);
    assert(deposits_view(rec.utxos@) =~= old(rec)@.deposits.push(d));
    rec.updated_at = stamp_exec(rec.updated_at, now);
    if rec.status == EscrowStatus::Created && deposits_reach(&rec.utxos, rec.amount_satoshis) {
        rec.status = EscrowStatus::Funded;
        rec.funded_at = Some(rec.updated_at);
    }
    Ok(())
}

/// Records a party's confirmation of delivery.
pub fn apply_confirmation(rec: &mut EscrowRecord, caller: &String, now: u64) -> (r: Result<
    (),
    EscrowError,
>)
    ensures
        match after_confirm(old(rec)@, caller@, now) {
            Ok(e) => r is Ok && final(rec)@ == e,
            Err(err) => r == Err::<(), EscrowError>(err) && final(rec)@ == old(rec)@,
        },
{
    let is_creator = *caller == rec.creator_id;
    if !is_creator && *caller != rec.counterparty_id {
        return Err(EscrowError::Unauthorized);
    }
    if is_creator {
        if rec.creator_confirmed_delivery {
            return Err(EscrowError::AlreadyConfirmed);
        }
    } else {
        if rec.counterparty_confirmed_delivery {
            return Err(EscrowError::AlreadyConfirmed);
        }
    }
    if rec.status != EscrowStatus::Funded {
        return Err(EscrowError::InvalidStatus);
    }
    if is_creator {
        rec.creator_confirmed_delivery = true;
    } else {
        rec.counterparty_confirmed_delivery = true;
    }
    if rec.creator_confirmed_delivery && rec.counterparty_confirmed_delivery {
        rec.status = EscrowStatus::Delivered;
    }
    rec.updated_at = stamp_exec(rec.updated_at, now);
    Ok(())
}

/// Whether release is allowed at time `now`.
pub fn can_release(rec: &EscrowRecord, now: u64) -> (r: bool)
    ensures
        r == release_allowed(rec@, now),
{
    match rec.status {
        EscrowStatus::Delivered => true,
        EscrowStatus::Funded => match rec.time_lock_unix {
            Some(lock) => now >= lock,
            None => false,
        },
        _ => false,
    }
}

/// Releases the escrow on a party's request.
pub fn apply_release(rec: &mut EscrowRecord, caller: &String, now: u64) -> (r: Result<
    (),
    EscrowError,
>)
    ensures
        match after_release(old(rec)@, caller@, now) {
            Ok(e) => r is Ok && final(rec)@ == e,
            Err(err) => r == Err::<(), EscrowError>(err) && final(rec)@ == old(rec)@,
        },
{
    if *caller != rec.creator_id && *caller != rec.counterparty_id {
        return Err(EscrowError::Unauthorized);
    }
    if !can_release(rec, now) {
        return Err(EscrowError::InvalidStatus);
    }
    rec.status = EscrowStatus::Released;
    rec.updated_at = stamp_exec(rec.updated_at, now);
    Ok(())
}

/// Refunds the escrow on the creator's demand.
pub fn apply_refund(rec: &mut EscrowRecord, caller: &String, reason: &String, now: u64) -> (r:
    Result<(), EscrowError>)
    ensures
        match after_refund(old(rec)@, caller@, reason@, now) {
            Ok(e) => r is Ok && final(rec)@ == e,
            Err(err) => r == Err::<(), EscrowError>(err) && final(rec)@ == old(rec)@,
        },
{
    if *caller != rec.creator_id {
        return Err(EscrowError::Unauthorized);
    }
    if rec.status != EscrowStatus::Created && rec.status != EscrowStatus::Funded {
        return Err(EscrowError::InvalidStatus);
    }
    rec.status = EscrowStatus::Refunded;
    let tag = prefixed("refund_reason: ", reason.as_str());
    rec.tags.push(tag);
    assert(strings_view(rec.tags@) =~= old(rec)@.tags.push("refund_reason: "@ + reason@));
    rec.updated_at = stamp_exec(rec.updated_at, now);
    Ok(())
}

/// Marks the escrow disputed on a party's request.
pub fn apply_dispute(rec: &mut EscrowRecord, caller: &String, reason: &String, now: u64) -> (r:
    Result<(), EscrowError>)
    ensures
        match after_dispute(old(rec)@, caller@, reason@, now) {
            Ok(e) => r is Ok && final(rec)@ == e,
            Err(err) => r == Err::<(), EscrowError>(err) && final(rec)@ == old(rec)@,
        },
{
    if *caller != rec.creator_id && *caller != rec.counterparty_id {
        return Err(EscrowError::Unauthorized);
    }
    if rec.status != EscrowStatus::Funded && rec.status != EscrowStatus::Delivered {
        return Err(EscrowError::InvalidStatus);
    }
    rec.status = EscrowStatus::Disputed;
    let tag = prefixed("dispute_reason: ", reason.as_str());
    rec.tags.push(tag);
    assert(strings_view(rec.tags@) =~= old(rec)@.tags.push("dispute_reason: "@ + reason@));
    rec.updated_at = stamp_exec(rec.updated_at, now);
    Ok(())
}

/// Ends a dispute with the given outcome, recording the resolution text.
pub fn apply_resolution(
    rec: &mut EscrowRecord,
    outcome: Resolution,
    text: &String,
    now: u64,
) -> (r: Result<(), EscrowError>)
    ensures
        match after_resolution(old(rec)@, outcome, text@, now) {
            Ok(e) => r is Ok && final(rec)@ == e,
            Err(err) => r == Err::<(), EscrowError>(err) && final(rec)@ == old(rec)@,
        },
{
    if rec.status != EscrowStatus::Disputed {
        return Err(EscrowError::InvalidStatus);
    }
    rec.status = match outcome {
        Resolution::Release => EscrowStatus::Released,
        Resolution::Refund => EscrowStatus::Refunded,
    };
    let tag = prefixed("resolution: ", text.as_str());
    rec.tags.push(tag);
    assert(strings_view(rec.tags@) =~= old(rec)@.tags.push("resolution: "@ + text@));
    rec.updated_at = stamp_exec(rec.updated_at, now);
    Ok(())
}

/// Sets the risk score and appends the assessor's tags.
pub fn apply_risk(rec: &mut EscrowRecord, score: u8, tags: Vec<String>, now: u64)
    ensures
        final(rec)@ == after_risk(old(rec)@, score, strings_view(tags@), now),
{
    let mut all = rec.tags.clone();
    assert(all@ =~= rec.tags@);
    let mut i: usize = 0;
    while i < tags.len()
        invariant
            i <= tags@.len(),
            strings_view(all@) == old(rec)@.tags + strings_view(tags@).subrange(0, i as int),
        decreases tags@.len() - i,
    {
        let t = tags[i].clone();
        let ghost prev = all@;
        all.push(t);
        assert(strings_view(all@) =~= strings_view(prev).push(tags@[i as int]@));
        assert(strings_view(tags@).subrange(0, i + 1) =~= strings_view(tags@).subrange(0, i as int).push(tags@[i as int]@));
        i = i + 1;
        assert(strings_view(all@) =~= old(rec)@.tags + strings_view(tags@).subrange(0, i as int));
    }
    assert(strings_view(tags@).subrange(0, i as int) =~= strings_view(tags@));
    rec.ai_risk_score = Some(score);
    rec.tags = all;
    rec.updated_at = stamp_exec(rec.updated_at, now);
}

} // verus!
