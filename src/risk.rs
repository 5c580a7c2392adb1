//! Risk assessments: one stored assessment per escrow, and the heuristic score used when no
//! model is available.

use vstd::prelude::*;
use vstd::string::*;

use crate::types::strings_view;

verus! {

/// A signed risk assessment of one escrow.
#[derive(Debug)]
pub struct AIResult {
    pub escrow_id: String,
    pub risk_score: u8,
    pub risk_reasons: Vec<String>,
    pub recommended_action: String,
    pub generated_at: u64,
    pub model_version: String,
    pub signature: String,
}

/// The mathematical content of an assessment.
pub struct AIResultView {
    pub escrow_id: Seq<char>,
    pub risk_score: u8,
    pub risk_reasons: Seq<Seq<char>>,
    pub recommended_action: Seq<char>,
    pub generated_at: u64,
    pub model_version: Seq<char>,
    pub signature: Seq<char>,
}

impl View for AIResult {
    type V = AIResultView;

    open spec fn view(&self) -> AIResultView {
        AIResultView {
            escrow_id: self.escrow_id@,
            risk_score: self.risk_score,
            risk_reasons: strings_view(self.risk_reasons@),
            recommended_action: self.recommended_action@,
            generated_at: self.generated_at,
            model_version: self.model_version@,
            signature: self.signature@,
        }
    }
}

impl Clone for AIResult {
    fn clone(&self) -> (r: Self)
        ensures
            r@ == self@,
    {
        let reasons = self.risk_reasons.clone();
        assert(reasons@ =~= self.risk_reasons@);
        AIResult {
            escrow_id: self.escrow_id.clone(),
            risk_score: self.risk_score,
            risk_reasons: reasons,
            recommended_action: self.recommended_action.clone(),
            generated_at: self.generated_at,
            model_version: self.model_version.clone(),
            signature: self.signature.clone(),
        }
    }
}

/// Why an assessment was refused.
#[derive(Clone, Copy, Debug, PartialEq, Eq, Structural)]
pub enum AIError {
    NotFound,
    Unauthorized,
    InvalidSignature,
    AlreadyProcessed,
}

/// The views of a sequence of assessments.
pub open spec fn results_view(rs: Seq<AIResult>) -> Seq<AIResultView> {
    rs.map_values(|r: AIResult| r@)
}

/// Some assessment is for escrow `id`.
pub open spec fn has_result(s: Seq<AIResultView>, id: Seq<char>) -> bool {
    exists|i: int| 0 <= i < s.len() && #[trigger] s[i].escrow_id == id
}

/// The position of the assessment for escrow `id`.
pub open spec fn result_slot(s: Seq<AIResultView>, id: Seq<char>) -> int {
    choose|i: int| 0 <= i < s.len() && #[trigger] s[i].escrow_id == id
}

/// The assessments, in order, whose score lies in `[lo, hi]`.
pub open spec fn results_in_range(s: Seq<AIResultView>, lo: u8, hi: u8) -> Seq<AIResultView> {
    s.filter(|r: AIResultView| lo <= r.risk_score && r.risk_score <= hi)
}

/// The sum of the scores.
pub open spec fn score_sum(s: Seq<AIResultView>) -> int
    decreases s.len(),
{
    if s.len() == 0 {
        0
    } else {
        score_sum(s.drop_last()) + s.last().risk_score
    }
}

/// The mean score rounded down, zero when there is none.
pub open spec fn mean_score(s: Seq<AIResultView>) -> int {
    if s.len() == 0 {
        0
    } else {
        score_sum(s) / (s.len() as int)
    }
}

/// At most one assessment per escrow.
pub open spec fn results_unique(s: Seq<AIResultView>) -> bool {
    forall|i: int, j: int|
        0 <= i < s.len() && 0 <= j < s.len() && i != j ==> #[trigger] s[i].escrow_id
            != #[trigger] s[j].escrow_id
}

/// Assessments, one per escrow, in order of arrival.
pub struct AIResultStore {
    results: Vec<AIResult>,
}

impl View for AIResultStore {
    type V = Seq<AIResultView>;

    closed spec fn view(&self) -> Seq<AIResultView> {
        results_view(self.results@)
    }
}

proof fn lemma_score_sum_bound(s: Seq<AIResultView>)
    ensures
        0 <= score_sum(s) <= 255 * s.len(),
    decreases s.len(),
{
    if s.len() > 0 {
        lemma_score_sum_bound(s.drop_last());
    }
}

impl AIResultStore {
    /// One assessment per escrow.
    pub open spec fn wf(&self) -> bool {
        results_unique(self@)
    }

    /// An empty store.
    pub fn new() -> (r: Self)
        ensures
            r.wf(),
            r@ == Seq::<AIResultView>::empty(),
    {
        let r = AIResultStore { results: Vec::new() };
        assert(r@ =~= Seq::<AIResultView>::empty());
        r
    }

    fn find(&self, escrow_id: &String) -> (r: Option<usize>)
        requires
            self.wf(),
        ensures
            has_result(self@, escrow_id@) ==> (r matches Some(i) && i as int == result_slot(
                self@,
                escrow_id@,
            )),
            !has_result(self@, escrow_id@) ==> r is None,
            r matches Some(i) ==> i < self@.len(),
    {
        let mut i: usize = 0;
        while i < self.results.len()
            invariant
                self.wf(),
                i <= self@.len(),
                self@.len() == self.results@.len(),
                forall|j: int| 0 <= j < i ==> #[trigger] self@[j].escrow_id != escrow_id@,
            decreases self.results@.len() - i,
        {
            assert(self@[i as int] == self.results@[i as int]@);
            if self.results[i].escrow_id == *escrow_id {
                proof {
                    assert(self@[i as int].escrow_id == escrow_id@);
                    assert(has_result(self@, escrow_id@));
                }
                return Some(i);
            }
            i = i + 1;
        }
        None
    }

    /// Stores the first assessment of an escrow; a second one is refused with
    /// `AlreadyProcessed` and leaves the store as it was.
    pub fn store_ai_result(&mut self, result: AIResult) -> (r: Result<AIResult, AIError>)
        requires
            old(self).wf(),
        ensures
            final(self).wf(),
            has_result(old(self)@, result@.escrow_id) ==> r == Err::<AIResult, AIError>(
                AIError::AlreadyProcessed,
            ) && final(self)@ == old(self)@,
            !has_result(old(self)@, result@.escrow_id) ==> (r matches Ok(x) && x@ == result@
                && final(self)@ == old(self)@.push(result@)),
    {
        match self.find(&result.escrow_id) {
            Some(_) => Err(AIError::AlreadyProcessed),
            None => {
                let out = result.clone();
                let ghost before = self@;
                let ghost v = result@;
                self.results.push(result);
                assert(self@ =~= before.push(v));
                assert forall|i: int, j: int|
                    0 <= i < self@.len() && 0 <= j < self@.len() && i != j implies #[trigger] self@[i].escrow_id
                        != #[trigger] self@[j].escrow_id by {
                    if i < before.len() && j < before.len() {
                        assert(self@[i] == before[i] && self@[j] == before[j]);
                    } else if i < before.len() {
                        assert(self@[i] == before[i]);
                    } else if j < before.len() {
                        assert(self@[j] == before[j]);
                    }
                }
                Ok(out)
            },
        }
    }

    /// The assessment of the given escrow.
    pub fn get_ai_result(&self, escrow_id: &String) -> (r: Option<AIResult>)
        requires
            self.wf(),
        ensures
            has_result(self@, escrow_id@) ==> (r matches Some(x) && x@ == self@[result_slot(
                self@,
                escrow_id@,
            )]),
            !has_result(self@, escrow_id@) ==> r is None,
    {
        match self.find(escrow_id) {
            None => None,
            Some(i) => {
                assert(self@[i as int] == self.results@[i as int]@);
                Some(self.results[i].clone())
            },
        }
    }

    /// The assessments whose score lies between `min_score` and `max_score`, both included.
    pub fn get_results_by_score_range(&self, min_score: u8, max_score: u8) -> (r: Vec<AIResult>)
        ensures
            results_view(r@) == results_in_range(self@, min_score, max_score),
    {
        let mut out: Vec<AIResult> = Vec::new();
        let mut i: usize = 0;
        while i < self.results.len()
            invariant
                i <= self@.len(),
                self@.len() == self.results@.len(),
                results_view(out@) == results_in_range(self@.subrange(0, i as int), min_score, max_score),
            decreases self.results@.len() - i,
        {
            let ghost prev = out@;
            assert(self@[i as int] == self.results@[i as int]@);
            let r = &self.results[i];
            if r.risk_score >= min_score && r.risk_score <= max_score {
                out.push(r.clone());
                assert(results_view(out@) =~= results_view(prev).push(self@[i as int]));
            }
            proof {
                let s1 = self@.subrange(0, i + 1);
                assert(s1.drop_last() =~= self@.subrange(0, i as int));
                assert(s1.last() == self@[i as int]);
                reveal(Seq::filter);
                assert(results_in_range(s1, min_score, max_score) == if min_score <= s1.last().risk_score
                    && s1.last().risk_score <= max_score {
                    results_in_range(s1.drop_last(), min_score, max_score).push(s1.last())
                } else {
                    results_in_range(s1.drop_last(), min_score, max_score)
                });
            }
            i = i + 1;
        }
        assert(self@.subrange(0, i as int) =~= self@);
        out
    }

    /// The number of stored assessments.
    pub fn get_total_assessments(&self) -> (r: u64)
        ensures
            r == self@.len(),
    {
        assert(self@.len() == self.results@.len());
        self.results.len() as u64
    }

    /// The mean score rounded down, zero when nothing is stored.
    pub fn get_avg_risk_score(&self) -> (r: u8)
        ensures
            r == mean_score(self@),
    {
        let n = self.results.len();
        assert(self@.len() == n);
        if n == 0 {
            return 0;
        }
        let mut sum: u128 = 0;
        let mut i: usize = 0;
        while i < n
            invariant
                n == self@.len(),
                n == self.results@.len(),
                i <= n,
                sum == score_sum(self@.subrange(0, i as int)),
                sum <= 255 * i,
            decreases n - i,
        {
            assert(self@[i as int] == self.results@[i as int]@);
            assert(self@.subrange(0, i + 1).drop_last() =~= self@.subrange(0, i as int));
            sum = sum + self.results[i].risk_score as u128;
            i = i + 1;
        }
        assert(self@.subrange(0, i as int) =~= self@);
        let avg = sum / (n as u128);
        assert(avg <= 255) by (nonlinear_arith)
            requires
                avg == sum / (n as u128),
                sum <= 255 * n,
                n > 0,
        ;
        avg as u8
    }
}

/// What a risk assessment is asked about.
#[derive(Debug)]
pub struct RiskAssessmentRequest {
    pub escrow_id: String,
    pub user_id: String,
    pub counterparty_id: String,
    pub amount_satoshis: u64,
    pub user_trust_score: Option<u8>,
    pub counterparty_trust_score: Option<u8>,
}

/// Amounts above this many satoshis count as large.
pub const LARGE_AMOUNT_SATOSHIS: u64 = 10_000_000;

/// `a - b`, or zero.
pub open spec fn sat_sub(a: int, b: int) -> int {
    if a >= b { a - b } else { 0 }
}

/// The score lowered by a fifth of a trust score, when there is one.
pub open spec fn trust_discount(score: int, trust: Option<u8>) -> int {
    match trust {
        Some(t) => sat_sub(score, (t / 5) as int),
        None => score,
    }
}

/// The heuristic score: from 50, a fifth of each party's trust score is taken off (not below
/// zero), 20 is added for a large amount, and the result is capped at 100.
pub open spec fn mock_risk(req: RiskAssessmentRequest) -> int {
    let s1 = trust_discount(50, req.user_trust_score);
    let s2 = trust_discount(s1, req.counterparty_trust_score);
    let s3 = if req.amount_satoshis > LARGE_AMOUNT_SATOSHIS { s2 + 20 } else { s2 };
    if s3 > 100 { 100 } else { s3 }
}

/// The heuristic risk score used when no model is available.
pub fn calculate_mock_risk(payload: &RiskAssessmentRequest) -> (r: u8)
    ensures
        r == mock_risk(*payload),
{
    let mut score: u8 = 50;
    if let Some(user_score) = payload.user_trust_score {
        score = score.saturating_sub(user_score / 5);
    }
    if let Some(cp_score) = payload.counterparty_trust_score {
        score = score.saturating_sub(cp_score / 5);
    }
    if payload.amount_satoshis > LARGE_AMOUNT_SATOSHIS {
        score = score.saturating_add(20);
    }
    if score > 100 {
        100
    } else {
        score
    }
}

/// The action advised for a score: approve below 30, review below 70, reject otherwise.
pub open spec fn action_for(score: u8) -> Seq<char> {
    if score < 30 {
        "APPROVE"@
    } else if score < 70 {
        "REVIEW"@
    } else {
        "REJECT"@
    }
}

/// The level of a score: low up to 30, medium up to 70, high above.
pub open spec fn level_for(score: u8) -> Seq<char> {
    if score <= 30 {
        "LOW"@
    } else if score <= 70 {
        "MEDIUM"@
    } else {
        "HIGH"@
    }
}

/// The action advised for a score.
pub fn recommended_action(score: u8) -> (r: String)
    ensures
        r@ == action_for(score),
{
    if score < 30 {
        String::from_str("APPROVE")
    } else if score < 70 {
        String::from_str("REVIEW")
    } else {
        String::from_str("REJECT")
    }
}

/// The level of a score.
pub fn risk_level(score: u8) -> (r: String)
    ensures
        r@ == level_for(score),
{
    if score <= 30 {
        String::from_str("LOW")
    } else if score <= 70 {
        String::from_str("MEDIUM")
    } else {
        String::from_str("HIGH")
    }
}

} // verus!
