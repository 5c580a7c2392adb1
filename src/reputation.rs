//! Reputation profiles: trust scores from completed deals, disputes and badges.

use vstd::prelude::*;
use vstd::string::*;

use crate::ids::ID_DIGITS;
use crate::text::{padded_decimal, zero_padded};
use crate::types::strings_view;

verus! {

/// A user's standing, built from completed deals, disputes and badges.
#[derive(Debug)]
pub struct ReputationProfile {
    pub user_id: String,
    pub completed_deals: u64,
    pub dispute_count: u64,
    pub avg_response_time_seconds: u64,
    pub trust_score: u8,
    pub badges: Vec<String>,
    pub last_update: u64,
}

/// The mathematical content of a reputation profile.
pub struct ReputationView {
    pub user: Seq<char>,
    pub completed_deals: u64,
    pub dispute_count: u64,
    pub avg_response_time_seconds: u64,
    pub trust_score: u8,
    pub badges: Seq<Seq<char>>,
    pub last_update: u64,
}

impl View for ReputationProfile {
    type V = ReputationView;

    open spec fn view(&self) -> ReputationView {
        ReputationView {
            user: self.user_id@,
            completed_deals: self.completed_deals,
            dispute_count: self.dispute_count,
            avg_response_time_seconds: self.avg_response_time_seconds,
            trust_score: self.trust_score,
            badges: strings_view(self.badges@),
            last_update: self.last_update,
        }
    }
}

impl Clone for ReputationProfile {
    fn clone(&self) -> (r: Self)
        ensures
            r@ == self@,
    {
        let badges = self.badges.clone();
        assert(badges@ =~= self.badges@);
        ReputationProfile {
            user_id: self.user_id.clone(),
            completed_deals: self.completed_deals,
            dispute_count: self.dispute_count,
            avg_response_time_seconds: self.avg_response_time_seconds,
            trust_score: self.trust_score,
            badges,
            last_update: self.last_update,
        }
    }
}

/// A dispute raised against a user over an escrow.
#[derive(Debug)]
pub struct DisputeRecord {
    pub dispute_id: String,
    pub escrow_id: String,
    pub user_id: String,
    pub dispute_type: String,
    pub resolution: String,
    pub created_at: u64,
    pub resolved_at: Option<u64>,
}

/// The mathematical content of a dispute record.
pub struct DisputeView {
    pub dispute_id: Seq<char>,
    pub escrow_id: Seq<char>,
    pub user: Seq<char>,
    pub dispute_type: Seq<char>,
    pub resolution: Seq<char>,
    pub created_at: u64,
    pub resolved_at: Option<u64>,
}

impl View for DisputeRecord {
    type V = DisputeView;

    open spec fn view(&self) -> DisputeView {
        DisputeView {
            dispute_id: self.dispute_id@,
            escrow_id: self.escrow_id@,
            user: self.user_id@,
            dispute_type: self.dispute_type@,
            resolution: self.resolution@,
            created_at: self.created_at,
            resolved_at: self.resolved_at,
        }
    }
}

impl Clone for DisputeRecord {
    fn clone(&self) -> (r: Self)
        ensures
            r@ == self@,
    {
        DisputeRecord {
            dispute_id: self.dispute_id.clone(),
            escrow_id: self.escrow_id.clone(),
            user_id: self.user_id.clone(),
            dispute_type: self.dispute_type.clone(),
            resolution: self.resolution.clone(),
            created_at: self.created_at,
            resolved_at: self.resolved_at,
        }
    }
}

/// Why a reputation operation was refused.
#[derive(Clone, Copy, Debug, PartialEq, Eq, Structural)]
pub enum ReputationError {
    NotFound,
    Unauthorized,
    InvalidScore,
}

/// Response times under this many seconds earn a bonus.
pub const FAST_RESPONSE_SECONDS: u64 = 3600;

/// The trust score: 50, plus one per completed deal up to 50, minus two per dispute up to
/// 25 (not below zero), plus 10 for responses under an hour, plus 5 per badge up to 20,
/// capped at 100.
pub open spec fn trust_score_of(deals: u64, disputes: u64, avg_response: u64, badges: nat) -> int {
    let s1 = 50 + if deals < 50 { deals as int } else { 50 };
    let d = 2 * if disputes < 25 { disputes as int } else { 25 };
    let s2 = if s1 >= d { s1 - d } else { 0 };
    let s3 = if avg_response < FAST_RESPONSE_SECONDS { s2 + 10 } else { s2 };
    let s4 = s3 + if badges < 4 { 5 * badges } else { 20 };
    if s4 > 100 { 100 } else { s4 }
}

/// The trust score of a profile.
pub open spec fn trust_of(p: ReputationView) -> int {
    trust_score_of(p.completed_deals, p.dispute_count, p.avg_response_time_seconds, p.badges.len())
}

/// Computes the trust score of a profile.
pub fn calculate_trust_score(profile: &ReputationProfile) -> (r: u8)
    ensures
        r == trust_of(profile@),
{
    let mut score: u8 = 50;
    score = score + if profile.completed_deals < 50 { profile.completed_deals as u8 } else { 50 };
    let penalty: u8 = 2 * if profile.dispute_count < 25 { profile.dispute_count as u8 } else { 25 };
    score = score.saturating_sub(penalty);
    if profile.avg_response_time_seconds < FAST_RESPONSE_SECONDS {
        score = score + 10;
    }
    let n = profile.badges.len();
    score = score + if n < 4 { 5 * (n as u8) } else { 20 };
    if score > 100 {
        100
    } else {
        score
    }
}

/// `a + 1`, or `a` at the top of the range.
pub open spec fn bump(a: u64) -> u64 {
    if a < u64::MAX { (a + 1) as u64 } else { a }
}

/// The running response time after a deal answered in `rt` seconds: the first one is taken
/// as it is, later ones are averaged with the running value, rounding down.
pub open spec fn next_avg(avg: u64, rt: u64) -> u64 {
    if avg == 0 { rt } else { ((avg as int + rt as int) / 2) as u64 }
}

/// The badge earned on reaching a number of completed deals, if any.
pub open spec fn milestone_badge(deals: u64) -> Option<Seq<char>> {
    if deals == 10 {
        Some("10 Deals"@)
    } else if deals == 50 {
        Some("50 Deals"@)
    } else if deals == 100 {
        Some("100 Deals"@)
    } else {
        None
    }
}

/// The profile a user starts with.
pub open spec fn fresh_profile(user: Seq<char>, now: u64) -> ReputationView {
    ReputationView {
        user,
        completed_deals: 0,
        dispute_count: 0,
        avg_response_time_seconds: 0,
        trust_score: 50,
        badges: Seq::empty(),
        last_update: now,
    }
}

/// A profile with its trust score recomputed and stamped at `now`.
pub open spec fn rescored(p: ReputationView, now: u64) -> ReputationView {
    ReputationView { trust_score: trust_of(p) as u8, last_update: now, ..p }
}

/// A profile after a completed deal answered in `rt` seconds.
pub open spec fn after_deal(p: ReputationView, rt: u64, now: u64) -> ReputationView {
    let deals = bump(p.completed_deals);
    let badges = match milestone_badge(deals) {
        Some(b) => p.badges.push(b),
        None => p.badges,
    };
    rescored(
        ReputationView {
            completed_deals: deals,
            avg_response_time_seconds: next_avg(p.avg_response_time_seconds, rt),
            badges,
            ..p
        },
        now,
    )
}

/// A profile after a dispute.
pub open spec fn after_dispute_recorded(p: ReputationView, now: u64) -> ReputationView {
    rescored(ReputationView { dispute_count: bump(p.dispute_count), ..p }, now)
}

/// A profile after being offered a badge: a new badge is added, one already held changes
/// nothing.
pub open spec fn after_badge(p: ReputationView, badge: Seq<char>, now: u64) -> ReputationView {
    if p.badges.contains(badge) {
        p
    } else {
        rescored(ReputationView { badges: p.badges.push(badge), ..p }, now)
    }
}

/// The identifier of the `n`-th dispute: `DISP-` and `n` in ten or more digits.
pub open spec fn dispute_id_of(n: nat) -> Seq<char> {
    seq!['D', 'I', 'S', 'P', '-'] + zero_padded(n, ID_DIGITS as nat)
}

/// Some profile belongs to `user`.
pub open spec fn has_reputation(s: Seq<ReputationView>, user: Seq<char>) -> bool {
    exists|i: int| 0 <= i < s.len() && #[trigger] s[i].user == user
}

/// The position of `user`'s profile.
pub open spec fn reputation_slot(s: Seq<ReputationView>, user: Seq<char>) -> int {
    choose|i: int| 0 <= i < s.len() && #[trigger] s[i].user == user
}

/// `user`'s profile, or a fresh one.
pub open spec fn profile_or_fresh(s: Seq<ReputationView>, user: Seq<char>, now: u64) -> ReputationView {
    if has_reputation(s, user) {
        s[reputation_slot(s, user)]
    } else {
        fresh_profile(user, now)
    }
}

/// The profiles with `user`'s replaced by `p`, or `p` appended when `user` had none.
pub open spec fn put_profile(s: Seq<ReputationView>, user: Seq<char>, p: ReputationView) -> Seq<ReputationView> {
    if has_reputation(s, user) {
        s.update(reputation_slot(s, user), p)
    } else {
        s.push(p)
    }
}

/// At most one profile per user.
pub open spec fn reputations_valid(s: Seq<ReputationView>) -> bool {
    forall|i: int, j: int|
        0 <= i < s.len() && 0 <= j < s.len() && i != j ==> #[trigger] s[i].user != #[trigger] s[j].user
}

/// The disputes, in order, raised against `user`.
pub open spec fn disputes_of(s: Seq<DisputeView>, user: Seq<char>) -> Seq<DisputeView> {
    s.filter(|d: DisputeView| d.user == user)
}

/// The profiles, in order, whose trust score is `k`.
pub open spec fn with_score(s: Seq<ReputationView>, k: int) -> Seq<ReputationView> {
    s.filter(|p: ReputationView| p.trust_score as int == k)
}

/// The profiles whose trust score is at least `k`, highest score first and, within a score,
/// in order of creation.
pub open spec fn ranked_from(s: Seq<ReputationView>, k: int) -> Seq<ReputationView>
    decreases 256 - k,
{
    if k >= 256 {
        Seq::empty()
    } else {
        ranked_from(s, k + 1) + with_score(s, k)
    }
}

/// The first `limit` profiles by descending trust score.
pub open spec fn top_users(s: Seq<ReputationView>, limit: nat) -> Seq<ReputationView> {
    let all = ranked_from(s, 0);
    if limit < all.len() {
        all.subrange(0, limit as int)
    } else {
        all
    }
}

/// The views of a sequence of profiles.
pub open spec fn reputations_view(ps: Seq<ReputationProfile>) -> Seq<ReputationView> {
    ps.map_values(|p: ReputationProfile| p@)
}

/// The views of a sequence of disputes.
pub open spec fn disputes_view(ds: Seq<DisputeRecord>) -> Seq<DisputeView> {
    ds.map_values(|d: DisputeRecord| d@)
}

/// Reputation profiles, one per user, and the disputes raised, in order.
pub struct ReputationStore {
    profiles: Vec<ReputationProfile>,
    disputes: Vec<DisputeRecord>,
}

impl ReputationStore {
    /// The profiles, in order of first appearance.
    pub closed spec fn profiles(&self) -> Seq<ReputationView> {
        reputations_view(self.profiles@)
    }

    /// The disputes, in the order they were raised.
    pub closed spec fn disputes(&self) -> Seq<DisputeView> {
        disputes_view(self.disputes@)
    }

    /// One profile per user; disputes numbered from one in order.
    pub open spec fn wf(&self) -> bool {
        &&& reputations_valid(self.profiles())
        &&& forall|i: int|
            0 <= i < self.disputes().len() ==> (#[trigger] self.disputes()[i]).dispute_id
                == dispute_id_of((i + 1) as nat)
    }

    /// An empty store.
    pub fn new() -> (r: Self)
        ensures
            r.wf(),
            r.profiles() == Seq::<ReputationView>::empty(),
            r.disputes() == Seq::<DisputeView>::empty(),
    {
        let r = ReputationStore { profiles: Vec::new(), disputes: Vec::new() };
        assert(r.profiles() =~= Seq::<ReputationView>::empty());
        assert(r.disputes() =~= Seq::<DisputeView>::empty());
        r
    }

    fn find(&self, user: &String) -> (r: Option<usize>)
        requires
            self.wf(),
        ensures
            has_reputation(self.profiles(), user@) ==> (r matches Some(i) && i as int
                == reputation_slot(self.profiles(), user@)),
            !has_reputation(self.profiles(), user@) ==> r is None,
            r matches Some(i) ==> i < self.profiles().len(),
    {
        let mut i: usize = 0;
        while i < self.profiles.len()
            invariant
                self.wf(),
                i <= self.profiles().len(),
                self.profiles().len() == self.profiles@.len(),
                forall|j: int| 0 <= j < i ==> #[trigger] self.profiles()[j].user != user@,
            decreases self.profiles@.len() - i,
        {
            assert(self.profiles()[i as int] == self.profiles@[i as int]@);
            if self.profiles[i].user_id == *user {
                assert(self.profiles()[i as int].user == user@);
                return Some(i);
            }
            i = i + 1;
        }
        None
    }

    fn profile_for(&self, user: &String, now: u64) -> (r: (ReputationProfile, Option<usize>))
        requires
            self.wf(),
        ensures
            r.0@ == profile_or_fresh(self.profiles(), user@, now),
            has_reputation(self.profiles(), user@) ==> (r.1 matches Some(i) && i as int
                == reputation_slot(self.profiles(), user@)),
            !has_reputation(self.profiles(), user@) ==> r.1 is None,
            r.1 matches Some(i) ==> i < self.profiles().len(),
    {
        match self.find(user) {
            Some(i) => {
                assert(self.profiles()[i as int] == self.profiles@[i as int]@);
                (self.profiles[i].clone(), Some(i))
            },
            None => {
                let p = ReputationProfile {
                    user_id: user.clone(),
                    completed_deals: 0,
                    dispute_count: 0,
                    avg_response_time_seconds: 0,
                    trust_score: 50,
                    badges: Vec::new(),
                    last_update: now,
                };
                assert(strings_view(p.badges@) =~= Seq::empty());
                (p, None)
            },
        }
    }

    fn put(&mut self, slot: Option<usize>, p: ReputationProfile)
        requires
            old(self).wf(),
            has_reputation(old(self).profiles(), p@.user) ==> (slot matches Some(i) && i as int
                == reputation_slot(old(self).profiles(), p@.user)),
            !has_reputation(old(self).profiles(), p@.user) ==> slot is None,
            slot matches Some(i) ==> i < old(self).profiles().len(),
        ensures
            final(self).wf(),
            final(self).profiles() == put_profile(old(self).profiles(), p@.user, p@),
            final(self).disputes() == old(self).disputes(),
    {
        let ghost before = self.profiles();
        let ghost v = p@;
        match slot {
            Some(i) => {
                self.profiles.set(i, p);
                assert(self.profiles() =~= before.update(i as int, v));
                assert(before[i as int].user == v.user);
            },
            None => {
                self.profiles.push(p);
                assert(self.profiles() =~= before.push(v));
            },
        }
        assert forall|a: int, b: int|
            0 <= a < self.profiles().len() && 0 <= b < self.profiles().len() && a != b implies #[trigger] self.profiles()[a].user
                != #[trigger] self.profiles()[b].user by {
            if a < before.len() && b < before.len() {
                assert(self.profiles()[a].user == before[a].user);
                assert(self.profiles()[b].user == before[b].user);
            } else if a < before.len() {
                assert(self.profiles()[a] == before[a]);
            } else if b < before.len() {
                assert(self.profiles()[b] == before[b]);
            }
        }
    }

    fn rescore(p: &mut ReputationProfile, now: u64)
        ensures
            final(p)@ == rescored(old(p)@, now),
    {
        p.trust_score = calculate_trust_score(p);
        p.last_update = now;
    }

    /// The profile of `user`.
    pub fn get_reputation(&self, user: &String) -> (r: Option<ReputationProfile>)
        requires
            self.wf(),
        ensures
            has_reputation(self.profiles(), user@) ==> (r matches Some(p) && p@
                == self.profiles()[reputation_slot(self.profiles(), user@)]),
            !has_reputation(self.profiles(), user@) ==> r is None,
    {
        match self.find(user) {
            None => None,
            Some(i) => {
                assert(self.profiles()[i as int] == self.profiles@[i as int]@);
                Some(self.profiles[i].clone())
            },
        }
    }

    /// Counts a completed deal for `user`, answered in `response_time_seconds`, awarding
    /// milestone badges at 10, 50 and 100 deals.
    pub fn record_completed_deal(&mut self, user: &String, response_time_seconds: u64, now: u64) -> (r:
        ReputationProfile)
        requires
            old(self).wf(),
        ensures
            final(self).wf(),
            r@ == after_deal(profile_or_fresh(old(self).profiles(), user@, now), response_time_seconds, now),
            final(self).profiles() == put_profile(old(self).profiles(), user@, r@),
            final(self).disputes() == old(self).disputes(),
    {
        let (mut p, slot) = self.profile_for(user, now);
        let ghost p0 = p@;
        p.completed_deals = p.completed_deals.saturating_add(1);
        if p.avg_response_time_seconds == 0 {
            p.avg_response_time_seconds = response_time_seconds;
        } else {
            let a = p.avg_response_time_seconds;
            let b = response_time_seconds;
            p.avg_response_time_seconds = a / 2 + b / 2 + (a % 2 + b % 2) / 2;
        }
        if p.completed_deals == 10 {
            p.badges.push(String::from_str("10 Deals"));
        } else if p.completed_deals == 50 {
            p.badges.push(String::from_str("50 Deals"));
        } else if p.completed_deals == 100 {
            p.badges.push(String::from_str("100 Deals"));
        }
        let ghost mid = after_deal(p0, response_time_seconds, now);
        assert(strings_view(p.badges@) =~= mid.badges);
        Self::rescore(&mut p, now);
        assert(p@ == mid);
        let out = p.clone();
        self.put(slot, p);
        out
    }

    /// Records a dispute against `user` over an escrow and counts it in their profile.
    pub fn record_dispute(
        &mut self,
        user: &String,
        escrow_id: String,
        dispute_type: String,
        now: u64,
    ) -> (r: Result<ReputationProfile, ReputationError>)
        requires
            old(self).wf(),
        ensures
            final(self).wf(),
            old(self).disputes().len() >= u64::MAX ==> r == Err::<ReputationProfile, ReputationError>(
                ReputationError::InvalidScore,
            ) && final(self).profiles() == old(self).profiles() && final(self).disputes()
                == old(self).disputes(),
            old(self).disputes().len() < u64::MAX ==> {
                &&& r matches Ok(p)
                &&& r->Ok_0@ == after_dispute_recorded(profile_or_fresh(old(self).profiles(), user@, now), now)
                &&& final(self).profiles() == put_profile(old(self).profiles(), user@, r->Ok_0@)
                &&& final(self).disputes() == old(self).disputes().push(
                    DisputeView {
                        dispute_id: dispute_id_of((old(self).disputes().len() + 1) as nat),
                        escrow_id: escrow_id@,
                        user: user@,
                        dispute_type: dispute_type@,
                        resolution: Seq::empty(),
                        created_at: now,
                        resolved_at: None,
                    },
                )
            },
    {
        let count = self.disputes.len();
        assert(self.disputes().len() == count);
        if count as u64 >= u64::MAX {
            return Err(ReputationError::InvalidScore);
        }
        let mut id = String::from_str("DISP-");
        proof {
            reveal_strlit("DISP-");
        }
        let digits = padded_decimal(count as u64 + 1, ID_DIGITS);
        id.append(digits.as_str());
        assert(id@ =~= dispute_id_of((count + 1) as nat));
        let ghost dv = DisputeView {
            dispute_id: dispute_id_of((count + 1) as nat),
            escrow_id: escrow_id@,
            user: user@,
            dispute_type: dispute_type@,
            resolution: Seq::empty(),
            created_at: now,
            resolved_at: None,
        };
        let record = DisputeRecord {
            dispute_id: id,
            escrow_id,
            user_id: user.clone(),
            dispute_type,
            resolution: String::new(),
            created_at: now,
            resolved_at: None,
        };
        assert(record@ == dv);
        let ghost before = self.disputes();
        self.disputes.push(record);
        assert(self.disputes() =~= before.push(dv));
        let (mut p, slot) = self.profile_for(user, now);
        p.dispute_count = p.dispute_count.saturating_add(1);
        Self::rescore(&mut p, now);
        let out = p.clone();
        self.put(slot, p);
        Ok(out)
    }

    /// Records the resolution of a dispute and hands back the profile of the user it was
    /// raised against.
    pub fn resolve_dispute(&mut self, dispute_id: &String, resolution: String, now: u64) -> (r: Result<
        ReputationProfile,
        ReputationError,
    >)
        requires
            old(self).wf(),
        ensures
            final(self).wf(),
            final(self).profiles() == old(self).profiles(),
            !(exists|i: int| 0 <= i < old(self).disputes().len() && #[trigger] old(self).disputes()[i].dispute_id == dispute_id@)
                ==> r == Err::<ReputationProfile, ReputationError>(ReputationError::NotFound)
                && final(self).disputes() == old(self).disputes(),
            forall|i: int| 0 <= i < old(self).disputes().len() && #[trigger] old(self).disputes()[i].dispute_id == dispute_id@ ==> {
                let d = old(self).disputes()[i];
                &&& final(self).disputes() == old(self).disputes().update(
                    i,
                    DisputeView { resolution: resolution@, resolved_at: Some(now), ..d },
                )
                &&& has_reputation(old(self).profiles(), d.user) ==> (r matches Ok(p) && p@
                    == old(self).profiles()[reputation_slot(old(self).profiles(), d.user)])
                &&& !has_reputation(old(self).profiles(), d.user) ==> r == Err::<
                    ReputationProfile,
                    ReputationError,
                >(ReputationError::NotFound)
            },
    {
        let mut i: usize = 0;
        assert(self.disputes().len() == self.disputes@.len());
        while i < self.disputes.len()
            invariant
                self.wf(),
                self.profiles() == old(self).profiles(),
                self.disputes() == old(self).disputes(),
                self.disputes().len() == self.disputes@.len(),
                i <= self.disputes@.len(),
                forall|j: int| 0 <= j < i ==> #[trigger] self.disputes()[j].dispute_id != dispute_id@,
            decreases self.disputes@.len() - i,
        {
            assert(self.disputes()[i as int] == self.disputes@[i as int]@);
            if self.disputes[i].dispute_id == *dispute_id {
                let ghost before = self.disputes();
                assert(old(self).disputes()[i as int].dispute_id == dispute_id@);
                proof {
                    assert forall|j: int| 0 <= j < before.len() && #[trigger] before[j].dispute_id == dispute_id@ implies j == i by {
                        if j != i {
                            assert(before[j].dispute_id == dispute_id_of((j + 1) as nat));

                            assert(before[i as int].dispute_id == dispute_id_of((i + 1) as nat));
                            let a = dispute_id_of((j + 1) as nat);
                            let b = dispute_id_of((i + 1) as nat);
                            assert(a.subrange(5, a.len() as int) =~= zero_padded((j + 1) as nat, ID_DIGITS as nat));
                            assert(b.subrange(5, b.len() as int) =~= zero_padded((i + 1) as nat, ID_DIGITS as nat));
                            crate::text::lemma_value_of_zero_padded((j + 1) as nat, ID_DIGITS as nat);
                            crate::text::lemma_value_of_zero_padded((i + 1) as nat, ID_DIGITS as nat);
                        }
                    }
                }
                let mut d = self.disputes[i].clone();
                d.resolution = resolution;
                d.resolved_at = Some(now);
                let ghost dv = d@;
                let user = d.user_id.clone();
                self.disputes.set(i, d);
                assert(self.disputes() =~= before.update(i as int, dv));
                assert forall|j: int| 0 <= j < self.disputes().len() implies (#[trigger] self.disputes()[j]).dispute_id
                    == dispute_id_of((j + 1) as nat) by {
                    assert(before[j].dispute_id == dispute_id_of((j + 1) as nat));
                }
                return match self.find(&user) {
                    Some(k) => {
                        assert(self.profiles()[k as int] == self.profiles@[k as int]@);
                        Ok(self.profiles[k].clone())
                    },
                    None => Err(ReputationError::NotFound),
                };
            }
            i = i + 1;
        }
        Err(ReputationError::NotFound)
    }

    /// Gives `user` a badge they do not hold yet.
    pub fn award_badge(&mut self, user: &String, badge: String, now: u64) -> (r: ReputationProfile)
        requires
            old(self).wf(),
        ensures
            final(self).wf(),
            r@ == after_badge(profile_or_fresh(old(self).profiles(), user@, now), badge@, now),
            final(self).profiles() == put_profile(old(self).profiles(), user@, r@),
            final(self).disputes() == old(self).disputes(),
    {
        let (mut p, slot) = self.profile_for(user, now);
        let mut held = false;
        let mut k: usize = 0;
        while k < p.badges.len()
            invariant
                k <= p.badges@.len(),
                held == exists|j: int| 0 <= j < k && (#[trigger] p.badges@[j])@ == badge@,
            decreases p.badges@.len() - k,
        {
            if p.badges[k] == badge {
                held = true;
            }
            k = k + 1;
        }
        proof {
            let bs = strings_view(p.badges@);
            if held {
                let j = choose|j: int| 0 <= j < k && (#[trigger] p.badges@[j])@ == badge@;
                assert(bs[j] == badge@);
            } else {
                assert forall|j: int| 0 <= j < bs.len() implies bs[j] != badge@ by {
                    assert(bs[j] == p.badges@[j]@);
                }
            }
        }
        if !held {
            let ghost bs = p@.badges;
            let ghost bv = badge@;
            p.badges.push(badge);
            assert(strings_view(p.badges@) =~= bs.push(bv));
            Self::rescore(&mut p, now);
        }
        let out = p.clone();
        self.put(slot, p);
        out
    }

    /// The disputes raised against `user`, in order.
    pub fn get_dispute_history(&self, user: &String) -> (r: Vec<DisputeRecord>)
        ensures
            disputes_view(r@) == disputes_of(self.disputes(), user@),
    {
        let mut out: Vec<DisputeRecord> = Vec::new();
        let mut i: usize = 0;
        assert(self.disputes().len() == self.disputes@.len());
        while i < self.disputes.len()
            invariant
                i <= self.disputes().len(),
                self.disputes().len() == self.disputes@.len(),
                disputes_view(out@) == disputes_of(self.disputes().subrange(0, i as int), user@),
            decreases self.disputes@.len() - i,
        {
            let ghost prev = out@;
            assert(self.disputes()[i as int] == self.disputes@[i as int]@);
            let d = &self.disputes[i];
            if d.user_id == *user {
                out.push(d.clone());
                assert(disputes_view(out@) =~= disputes_view(prev).push(self.disputes()[i as int]));
            }
            proof {
                let s1 = self.disputes().subrange(0, i + 1);
                assert(s1.drop_last() =~= self.disputes().subrange(0, i as int));
                assert(s1.last() == self.disputes()[i as int]);
                reveal(Seq::filter);
                assert(disputes_of(s1, user@) == if s1.last().user == user@ {
                    disputes_of(s1.drop_last(), user@).push(s1.last())
                } else {
                    disputes_of(s1.drop_last(), user@)
                });
            }
            i = i + 1;
        }
        assert(self.disputes().subrange(0, i as int) =~= self.disputes());
        out
    }

    /// The `limit` profiles with the highest trust scores, highest first; profiles with equal
    /// scores keep their order of creation.
    pub fn get_top_users(&self, limit: u64) -> (r: Vec<ReputationProfile>)
        ensures
            reputations_view(r@) == top_users(self.profiles(), limit as nat),
    {
        let ghost ps = self.profiles();
        let mut out: Vec<ReputationProfile> = Vec::new();
        let mut k: u16 = 256;
        assert(reputations_view(out@) =~= ranked_from(ps, 256));
        while k > 0
            invariant
                ps == self.profiles(),
                k <= 256,
                reputations_view(out@) == ranked_from(ps, k as int),
            decreases k,
        {
            k = k - 1;
            let ghost base = out@;
            let mut i: usize = 0;
            assert(ps.subrange(0, 0) =~= Seq::<ReputationView>::empty());
            proof {
                reveal(Seq::filter);
            }
            assert(with_score(ps.subrange(0, 0), k as int) =~= Seq::<ReputationView>::empty());
            assert(reputations_view(out@) =~= reputations_view(base) + with_score(ps.subrange(0, 0), k as int));
            while i < self.profiles.len()
                invariant
                    ps == self.profiles(),
                    ps.len() == self.profiles@.len(),
                    k < 256,
                    i <= ps.len(),
                    reputations_view(base) == ranked_from(ps, k + 1),
                    reputations_view(out@) == reputations_view(base) + with_score(ps.subrange(0, i as int), k as int),
                decreases self.profiles@.len() - i,
            {
                let ghost prev = out@;
                assert(ps[i as int] == self.profiles@[i as int]@);
                let p = &self.profiles[i];
                if p.trust_score as u16 == k {
                    out.push(p.clone());
                    assert(reputations_view(out@) =~= reputations_view(prev).push(ps[i as int]));
                }
                proof {
                    let s1 = ps.subrange(0, i + 1);
                    assert(s1.drop_last() =~= ps.subrange(0, i as int));
                    assert(s1.last() == ps[i as int]);
                    reveal(Seq::filter);
                    assert(with_score(s1, k as int) == if s1.last().trust_score as int == k as int {
                        with_score(s1.drop_last(), k as int).push(s1.last())
                    } else {
                        with_score(s1.drop_last(), k as int)
                    });
                    assert(reputations_view(out@) =~= reputations_view(base) + with_score(s1, k as int));
                }
                i = i + 1;
            }
            assert(ps.subrange(0, i as int) =~= ps);
        }
        let ghost all = out@;
        if limit < out.len() as u64 {
            out.truncate(limit as usize);
            assert(reputations_view(out@) =~= reputations_view(all).subrange(0, limit as int));
        }
        out
    }
}

} // verus!
