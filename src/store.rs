//! The escrow records, keyed by identifier, and the lifecycle actions on them.

use vstd::prelude::*;
use vstd::string::*;

use crate::ids::{
    deposit_address_of, escrow_id_of, generate_deposit_address, generate_escrow_id,
    lemma_escrow_ids_distinct,
};
use crate::lifecycle::{
    after_confirm, after_deposit, after_dispute, after_refund, after_release, after_resolution,
    after_risk, apply_confirmation, apply_deposit, apply_dispute, apply_refund, apply_release,
    apply_resolution, apply_risk, is_party, resolution_of, resolution_outcome, Resolution,
};
use crate::types::{
    strings_view, CreateEscrowParams, CreateEscrowResult, EscrowError, EscrowRecord,
    EscrowStatus, EscrowView, UTXO,
};

verus! {

/// A record that could have been made by creating the `n`-th escrow and acting on it since.
pub open spec fn record_valid(e: EscrowView, n: nat) -> bool {
    &&& e.escrow_id == escrow_id_of(n)
    &&& e.creator != e.counterparty
    &&& e.amount > 0
    &&& e.deposit_address == deposit_address_of(e.escrow_id, e.currency)
    &&& e.created_at <= e.updated_at
    &&& (e.risk_score matches Some(s) ==> s <= 100)
    &&& (e.status != EscrowStatus::Created && e.status != EscrowStatus::Refunded ==> e.funded_at is Some)
    &&& (e.funded_at matches Some(t) ==> t <= e.updated_at)
}

/// Every record holds the identifier of its position, counted from one.
pub open spec fn store_valid(s: Seq<EscrowView>) -> bool {
    forall|i: int| 0 <= i < s.len() ==> record_valid(#[trigger] s[i], (i + 1) as nat)
}

/// Some record has identifier `id`.
pub open spec fn has_escrow(s: Seq<EscrowView>, id: Seq<char>) -> bool {
    exists|i: int| 0 <= i < s.len() && #[trigger] s[i].escrow_id == id
}

/// The position of the record with identifier `id`.
pub open spec fn slot_of(s: Seq<EscrowView>, id: Seq<char>) -> int {
    choose|i: int| 0 <= i < s.len() && #[trigger] s[i].escrow_id == id
}

/// The views of a sequence of records.
pub open spec fn records_view(rs: Seq<EscrowRecord>) -> Seq<EscrowView> {
    rs.map_values(|r: EscrowRecord| r@)
}

/// The escrows, in order, in which `user` is creator or counterparty.
pub open spec fn escrows_of(s: Seq<EscrowView>, user: Seq<char>) -> Seq<EscrowView> {
    s.filter(|e: EscrowView| is_party(e, user))
}

/// The escrows, in order, that are in `status`.
pub open spec fn escrows_in(s: Seq<EscrowView>, status: EscrowStatus) -> Seq<EscrowView> {
    s.filter(|e: EscrowView| e.status == status)
}

/// The view of an action's result.
pub open spec fn result_view(r: Result<EscrowRecord, EscrowError>) -> Result<EscrowView, EscrowError> {
    match r {
        Ok(x) => Ok(x@),
        Err(e) => Err(e),
    }
}

/// An action `step` on the escrow `id` took the store from `before` to `after` with result
/// `r`: unknown identifiers give `NotFound`; otherwise the step's result is returned and,
/// when it succeeds, replaces the record.
pub open spec fn acted(
    before: Seq<EscrowView>,
    after: Seq<EscrowView>,
    id: Seq<char>,
    r: Result<EscrowView, EscrowError>,
    step: spec_fn(EscrowView) -> Result<EscrowView, EscrowError>,
) -> bool {
    if has_escrow(before, id) {
        let i = slot_of(before, id);
        &&& r == step(before[i])
        &&& after == match r {
            Ok(e) => before.update(i, e),
            Err(_) => before,
        }
    } else {
        r == Err::<EscrowView, EscrowError>(EscrowError::NotFound) && after == before
    }
}

/// The record that creating the `n`-th escrow makes.
pub open spec fn created_escrow(n: nat, creator: Seq<char>, p: CreateEscrowParams, now: u64) -> EscrowView {
    EscrowView {
        escrow_id: escrow_id_of(n),
        creator,
        counterparty: p.counterparty_id@,
        amount: p.amount_satoshis,
        currency: p.currency,
        deposit_address: deposit_address_of(escrow_id_of(n), p.currency),
        deposits: Seq::empty(),
        status: EscrowStatus::Created,
        time_lock: p.time_lock_unix,
        created_at: now,
        updated_at: now,
        risk_score: None,
        tags: Seq::empty(),
        creator_confirmed: false,
        counterparty_confirmed: false,
        funded_at: None,
    }
}

/// The escrow records, in order of creation; identifiers are never reused and records
/// never deleted.
pub struct EscrowStore {
    records: Vec<EscrowRecord>,
}

impl View for EscrowStore {
    type V = Seq<EscrowView>;

    closed spec fn view(&self) -> Seq<EscrowView> {
        records_view(self.records@)
    }
}

/// Identifiers in a valid store are unique.
pub proof fn lemma_ids_unique(s: Seq<EscrowView>, i: int, j: int)
    requires
        store_valid(s),
        0 <= i < s.len(),
        0 <= j < s.len(),
        i != j,
    ensures
        s[i].escrow_id != s[j].escrow_id,
{
    assert(record_valid(s[i], (i + 1) as nat));
    assert(record_valid(s[j], (j + 1) as nat));
    lemma_escrow_ids_distinct((i + 1) as nat, (j + 1) as nat);
}

impl EscrowStore {
    /// Every record is valid for its position.
    pub open spec fn wf(&self) -> bool {
        store_valid(self@)
    }

    /// An empty store.
    pub fn new() -> (r: Self)
        ensures
            r.wf(),
            r@ == Seq::<EscrowView>::empty(),
    {
        let r = EscrowStore { records: Vec::new() };
        assert(r@ =~= Seq::<EscrowView>::empty());
        r
    }

    fn find(&self, escrow_id: &String) -> (r: Option<usize>)
        requires
            self.wf(),
        ensures
            has_escrow(self@, escrow_id@) ==> (r matches Some(i) && i as int == slot_of(
                self@,
                escrow_id@,
            )),
            !has_escrow(self@, escrow_id@) ==> r is None,
            r matches Some(i) ==> i < self@.len(),
    {
        let mut i: usize = 0;
        while i < self.records.len()
            invariant
                self.wf(),
                i <= self@.len(),
                self@.len() == self.records@.len(),
                forall|j: int| 0 <= j < i ==> #[trigger] self@[j].escrow_id != escrow_id@,
            decreases self.records@.len() - i,
        {
            assert(self@[i as int] == self.records@[i as int]@);
            if self.records[i].escrow_id == *escrow_id {
                proof {
                    assert(self@[i as int].escrow_id == escrow_id@);
                    assert(has_escrow(self@, escrow_id@));
                    let k = slot_of(self@, escrow_id@);
                    if k != i {
                        lemma_ids_unique(self@, k, i as int);
                    }
                }
                return Some(i);
            }
            i = i + 1;
        }
        None
    }

    proof fn lemma_update_keeps_valid(&self, i: int, e: EscrowView)
        requires
            self.wf(),
            0 <= i < self@.len(),
            record_valid(e, (i + 1) as nat),
        ensures
            store_valid(self@.update(i, e)),
    {
        assert(record_valid(self@[i], (i + 1) as nat));
        assert forall|j: int| 0 <= j < self@.len() implies record_valid(
            #[trigger] self@.update(i, e)[j],
            (j + 1) as nat,
        ) by {
            if j != i {
                assert(record_valid(self@[j], (j + 1) as nat));
            }
        }
    }

    /// Opens a new escrow in `Created` status for `caller` as creator.
    pub fn create_escrow(&mut self, caller: &String, params: CreateEscrowParams, now: u64) -> (r:
        Result<CreateEscrowResult, EscrowError>)
        requires
            old(self).wf(),
        ensures
            final(self).wf(),
            params.amount_satoshis == 0 ==> r == Err::<CreateEscrowResult, EscrowError>(
                EscrowError::InvalidAmount,
            ),
            params.amount_satoshis > 0 && caller@ == params.counterparty_id@ ==> r == Err::<
                CreateEscrowResult,
                EscrowError,
            >(EscrowError::Unauthorized),
            params.amount_satoshis > 0 && caller@ != params.counterparty_id@ && old(self)@.len()
                >= u64::MAX ==> r matches Err(EscrowError::InternalError(_)),
            r is Err ==> final(self)@ == old(self)@,
            params.amount_satoshis > 0 && caller@ != params.counterparty_id@ && old(self)@.len()
                < u64::MAX ==> {
                let n = (old(self)@.len() + 1) as nat;
                &&& r matches Ok(c)
                &&& r->Ok_0.escrow_id@ == escrow_id_of(n)
                &&& r->Ok_0.deposit_address@ == deposit_address_of(escrow_id_of(n), params.currency)
                &&& final(self)@ == old(self)@.push(created_escrow(n, caller@, params, now))
            },
    {
        if params.amount_satoshis == 0 {
            return Err(EscrowError::InvalidAmount);
        }
        if *caller == params.counterparty_id {
            return Err(EscrowError::Unauthorized);
        }
        let count = self.records.len();
        assert(self@.len() == self.records@.len());
        if count as u64 >= u64::MAX {
            return Err(EscrowError::InternalError(String::from_str("escrow identifiers exhausted")));
        }
        let n = count as u64 + 1;
        let escrow_id = generate_escrow_id(n);
        let deposit_address = generate_deposit_address(escrow_id.as_str(), &params.currency);
        let ghost p = params;
        let rec = EscrowRecord {
            escrow_id: escrow_id.clone(),
            creator_id: caller.clone(),
            counterparty_id: params.counterparty_id,
            amount_satoshis: params.amount_satoshis,
            currency: params.currency,
            deposit_address: deposit_address.clone(),
            utxos: Vec::new(),
            status: EscrowStatus::Created,
            time_lock_unix: params.time_lock_unix,
            created_at: now,
            updated_at: now,
            ai_risk_score: None,
            tags: Vec::new(),
            creator_confirmed_delivery: false,
            counterparty_confirmed_delivery: false,
            funded_at: None,
        };
        assert(crate::types::deposits_view(rec.utxos@) =~= Seq::empty());
        assert(strings_view(rec.tags@) =~= Seq::empty());
        assert(rec@ == created_escrow(n as nat, caller@, p, now));
        let ghost before = self@;
        self.records.push(rec);
        assert(self@ =~= before.push(created_escrow(n as nat, caller@, p, now)));
        assert forall|j: int| 0 <= j < self@.len() implies record_valid(
            #[trigger] self@[j],
            (j + 1) as nat,
        ) by {
            if j < before.len() {
                assert(self@[j] == before[j]);
            }
        }
        Ok(CreateEscrowResult { escrow_id, deposit_address })
    }

    fn commit(&mut self, i: usize, rec: EscrowRecord)
        requires
            old(self).wf(),
            i < old(self)@.len(),
            record_valid(rec@, (i + 1) as nat),
        ensures
            final(self).wf(),
            final(self)@ == old(self)@.update(i as int, rec@),
    {
        proof {
            old(self).lemma_update_keeps_valid(i as int, rec@);
        }
        let ghost before = self@;
        let ghost e = rec@;
        assert(self@.len() == self.records@.len());
        self.records.set(i, rec);
        assert(self@ =~= before.update(i as int, e));
    }

    fn record_at(&self, i: usize) -> (r: EscrowRecord)
        requires
            i < self@.len(),
        ensures
            r@ == self@[i as int],
    {
        assert(self@.len() == self.records@.len());
        self.records[i].clone()
    }

    /// Records a reported deposit on the escrow; a `Created` escrow whose deposits reach the
    /// requested amount becomes `Funded`. Deposits reported later are kept as well.
    pub fn notify_deposit(&mut self, escrow_id: &String, utxo: UTXO, now: u64) -> (r: Result<
        EscrowRecord,
        EscrowError,
    >)
        requires
            old(self).wf(),
        ensures
            final(self).wf(),
            acted(
                old(self)@,
                final(self)@,
                escrow_id@,
                result_view(r),
                |e: EscrowView| after_deposit(e, utxo@, now),
            ),
    {
        match self.find(escrow_id) {
            None => Err(EscrowError::NotFound),
            Some(i) => {
                let mut rec = self.record_at(i);
                match apply_deposit(&mut rec, utxo, now) {
                    Ok(()) => {
                        let out = rec.clone();
                        self.commit(i, rec);
                        Ok(out)
                    },
                    Err(e) => Err(e),
                }
            },
        }
    }

    /// Records the caller's confirmation of delivery; with both confirmations the escrow
    /// becomes `Delivered`.
    pub fn confirm_delivery(&mut self, caller: &String, escrow_id: &String, now: u64) -> (r:
        Result<EscrowRecord, EscrowError>)
        requires
            old(self).wf(),
        ensures
            final(self).wf(),
            acted(
                old(self)@,
                final(self)@,
                escrow_id@,
                result_view(r),
                |e: EscrowView| after_confirm(e, caller@, now),
            ),
    {
        match self.find(escrow_id) {
            None => Err(EscrowError::NotFound),
            Some(i) => {
                let mut rec = self.record_at(i);
                match apply_confirmation(&mut rec, caller, now) {
                    Ok(()) => {
                        let out = rec.clone();
                        self.commit(i, rec);
                        Ok(out)
                    },
                    Err(e) => Err(e),
                }
            },
        }
    }

    /// Releases the escrow at a party's request, once delivered or once funded with an
    /// elapsed time lock.
    pub fn request_release(&mut self, caller: &String, escrow_id: &String, now: u64) -> (r:
        Result<EscrowRecord, EscrowError>)
        requires
            old(self).wf(),
        ensures
            final(self).wf(),
            acted(
                old(self)@,
                final(self)@,
                escrow_id@,
                result_view(r),
                |e: EscrowView| after_release(e, caller@, now),
            ),
    {
        match self.find(escrow_id) {
            None => Err(EscrowError::NotFound),
            Some(i) => {
                let mut rec = self.record_at(i);
                match apply_release(&mut rec, caller, now) {
                    Ok(()) => {
                        let out = rec.clone();
                        self.commit(i, rec);
                        Ok(out)
                    },
                    Err(e) => Err(e),
                }
            },
        }
    }

    /// Refunds a `Created` or `Funded` escrow on its creator's demand, recording the reason.
    pub fn force_refund(&mut self, caller: &String, escrow_id: &String, reason: &String, now: u64) -> (r:
        Result<EscrowRecord, EscrowError>)
        requires
            old(self).wf(),
        ensures
            final(self).wf(),
            acted(
                old(self)@,
                final(self)@,
                escrow_id@,
                result_view(r),
                |e: EscrowView| after_refund(e, caller@, reason@, now),
            ),
    {
        match self.find(escrow_id) {
            None => Err(EscrowError::NotFound),
            Some(i) => {
                let mut rec = self.record_at(i);
                match apply_refund(&mut rec, caller, reason, now) {
                    Ok(()) => {
                        let out = rec.clone();
                        self.commit(i, rec);
                        Ok(out)
                    },
                    Err(e) => Err(e),
                }
            },
        }
    }

    /// Marks a `Funded` or `Delivered` escrow disputed at a party's request, recording the
    /// reason.
    pub fn mark_disputed(&mut self, caller: &String, escrow_id: &String, reason: &String, now: u64) -> (r:
        Result<EscrowRecord, EscrowError>)
        requires
            old(self).wf(),
        ensures
            final(self).wf(),
            acted(
                old(self)@,
                final(self)@,
                escrow_id@,
                result_view(r),
                |e: EscrowView| after_dispute(e, caller@, reason@, now),
            ),
    {
        match self.find(escrow_id) {
            None => Err(EscrowError::NotFound),
            Some(i) => {
                let mut rec = self.record_at(i);
                match apply_dispute(&mut rec, caller, reason, now) {
                    Ok(()) => {
                        let out = rec.clone();
                        self.commit(i, rec);
                        Ok(out)
                    },
                    Err(e) => Err(e),
                }
            },
        }
    }

    /// Ends a dispute with the resolver's explicit outcome, recording the resolution text.
    pub fn resolve_dispute_with(
        &mut self,
        escrow_id: &String,
        outcome: Resolution,
        resolution: &String,
        now: u64,
    ) -> (r: Result<EscrowRecord, EscrowError>)
        requires
            old(self).wf(),
        ensures
            final(self).wf(),
            acted(
                old(self)@,
                final(self)@,
                escrow_id@,
                result_view(r),
                |e: EscrowView| after_resolution(e, outcome, resolution@, now),
            ),
    {
        match self.find(escrow_id) {
            None => Err(EscrowError::NotFound),
            Some(i) => {
                let mut rec = self.record_at(i);
                match apply_resolution(&mut rec, outcome, resolution, now) {
                    Ok(()) => {
                        let out = rec.clone();
                        self.commit(i, rec);
                        Ok(out)
                    },
                    Err(e) => Err(e),
                }
            },
        }
    }

    /// Ends a dispute from a free-text resolution: release when the text mentions
    /// `release`, refund otherwise.
    pub fn resolve_dispute(&mut self, escrow_id: &String, resolution: &String, now: u64) -> (r:
        Result<EscrowRecord, EscrowError>)
        requires
            old(self).wf(),
        ensures
            final(self).wf(),
            acted(
                old(self)@,
                final(self)@,
                escrow_id@,
                result_view(r),
                |e: EscrowView| after_resolution(e, resolution_of(resolution@), resolution@, now),
            ),
    {
        let outcome = resolution_outcome(resolution.as_str());
        self.resolve_dispute_with(escrow_id, outcome, resolution, now)
    }

    /// Attaches a risk assessment to the escrow, whatever its status: the score replaces any
    /// earlier one and the tags are appended.
    pub fn attach_ai_result(&mut self, escrow_id: &String, risk_score: u8, tags: Vec<String>, now: u64) -> (r:
        Result<EscrowRecord, EscrowError>)
        requires
            old(self).wf(),
            risk_score <= 100,
        ensures
            final(self).wf(),
            acted(
                old(self)@,
                final(self)@,
                escrow_id@,
                result_view(r),
                |e: EscrowView| Ok::<EscrowView, EscrowError>(after_risk(e, risk_score, strings_view(tags@), now)),
            ),
    {
        match self.find(escrow_id) {
            None => Err(EscrowError::NotFound),
            Some(i) => {
                let mut rec = self.record_at(i);
                apply_risk(&mut rec, risk_score, tags, now);
                let out = rec.clone();
                self.commit(i, rec);
                Ok(out)
            },
        }
    }

    /// The escrow with the given identifier.
    pub fn get_escrow(&self, escrow_id: &String) -> (r: Option<EscrowRecord>)
        requires
            self.wf(),
        ensures
            has_escrow(self@, escrow_id@) ==> (r matches Some(x) && x@ == self@[slot_of(
                self@,
                escrow_id@,
            )]),
            !has_escrow(self@, escrow_id@) ==> r is None,
    {
        match self.find(escrow_id) {
            None => None,
            Some(i) => Some(self.record_at(i)),
        }
    }

    /// The number of escrows ever created.
    pub fn get_total_escrows(&self) -> (r: u64)
        ensures
            r == self@.len(),
    {
        assert(self@.len() == self.records@.len());
        self.records.len() as u64
    }

    /// The escrows in which `user_id` is creator or counterparty, in order of creation.
    pub fn get_user_escrows(&self, user_id: &String) -> (r: Vec<EscrowRecord>)
        ensures
            records_view(r@) == escrows_of(self@, user_id@),
    {
        let mut out: Vec<EscrowRecord> = Vec::new();
        let mut i: usize = 0;
        assert(self@.len() == self.records@.len());
        while i < self.records.len()
            invariant
                i <= self@.len(),
                self@.len() == self.records@.len(),
                records_view(out@) == escrows_of(self@.subrange(0, i as int), user_id@),
            decreases self.records@.len() - i,
        {
            let ghost prev = out@;
            assert(self@[i as int] == self.records@[i as int]@);
            let rec = &self.records[i];
            if *user_id == rec.creator_id || *user_id == rec.counterparty_id {
                out.push(rec.clone());
                assert(records_view(out@) =~= records_view(prev).push(self@[i as int]));
            }
            proof {
                let s1 = self@.subrange(0, i + 1);
                assert(s1.drop_last() =~= self@.subrange(0, i as int));
                assert(s1.last() == self@[i as int]);
                reveal(Seq::filter);
                assert(escrows_of(s1, user_id@) == if is_party(s1.last(), user_id@) {
                    escrows_of(s1.drop_last(), user_id@).push(s1.last())
                } else {
                    escrows_of(s1.drop_last(), user_id@)
                });
            }
            i = i + 1;
        }
        assert(self@.subrange(0, i as int) =~= self@);
        out
    }

    /// The escrows in the given status, in order of creation.
    pub fn get_escrows_by_status(&self, status: EscrowStatus) -> (r: Vec<EscrowRecord>)
        ensures
            records_view(r@) == escrows_in(self@, status),
    {
        let mut out: Vec<EscrowRecord> = Vec::new();
        let mut i: usize = 0;
        assert(self@.len() == self.records@.len());
        while i < self.records.len()
            invariant
                i <= self@.len(),
                self@.len() == self.records@.len(),
                records_view(out@) == escrows_in(self@.subrange(0, i as int), status),
            decreases self.records@.len() - i,
        {
            let ghost prev = out@;
            assert(self@[i as int] == self.records@[i as int]@);
            let rec = &self.records[i];
            if rec.status == status {
                out.push(rec.clone());
                assert(records_view(out@) =~= records_view(prev).push(self@[i as int]));
            }
            proof {
                let s1 = self@.subrange(0, i + 1);
                assert(s1.drop_last() =~= self@.subrange(0, i as int));
                assert(s1.last() == self@[i as int]);
                reveal(Seq::filter);
                assert(escrows_in(s1, status) == if s1.last().status == status {
                    escrows_in(s1.drop_last(), status).push(s1.last())
                } else {
                    escrows_in(s1.drop_last(), status)
                });
            }
            i = i + 1;
        }
        assert(self@.subrange(0, i as int) =~= self@);
        out
    }
}

} // verus!
