//! Request and response shapes of the HTTP gateway, with conversions to the library's own types.

use vstd::prelude::*;
use vstd::string::*;

use crate::identity::UpdateProfileParams;
use crate::types::CreateEscrowResult;

verus! {

/// The gateway's request to open an escrow; the counterparty is the text of a principal and
/// the currency a code such as `BTC` or `ckBTC`.
#[derive(Debug)]
pub struct CreateEscrowRequest {
    pub counterparty_id: String,
    pub amount_satoshis: u64,
    pub currency: String,
    pub time_lock_unix: Option<u64>,
}

/// The gateway's answer to a created escrow.
#[derive(Debug)]
pub struct CreateEscrowResponse {
    pub escrow_id: String,
    pub deposit_address: String,
}

impl From<CreateEscrowResult> for CreateEscrowResponse {
    fn from(r: CreateEscrowResult) -> (out: Self) {
        CreateEscrowResponse { escrow_id: r.escrow_id, deposit_address: r.deposit_address }
    }
}

impl vstd::std_specs::convert::FromSpecImpl<CreateEscrowResult> for CreateEscrowResponse {
    open spec fn obeys_from_spec() -> bool {
        true
    }

    open spec fn from_spec(r: CreateEscrowResult) -> CreateEscrowResponse {
        CreateEscrowResponse { escrow_id: r.escrow_id, deposit_address: r.deposit_address }
    }
}

/// The gateway's request to change a profile.
#[derive(Debug)]
pub struct UpdateProfileRequest {
    pub username: Option<String>,
    pub email: Option<String>,
    pub bio: Option<String>,
}

impl From<UpdateProfileRequest> for UpdateProfileParams {
    fn from(r: UpdateProfileRequest) -> (out: Self) {
        UpdateProfileParams {
            username: r.username,
            phone_number: None,
            email: r.email,
            avatar_url: None,
            bio: r.bio,
        }
    }
}

impl vstd::std_specs::convert::FromSpecImpl<UpdateProfileRequest> for UpdateProfileParams {
    open spec fn obeys_from_spec() -> bool {
        true
    }

    open spec fn from_spec(r: UpdateProfileRequest) -> UpdateProfileParams {
        UpdateProfileParams {
            username: r.username,
            phone_number: None,
            email: r.email,
            avatar_url: None,
            bio: r.bio,
        }
    }
}

/// The gateway's trust score from a user's counts of released and disputed deals: 50, plus
/// 5 per released deal up to 40, minus 10 per dispute up to 30, kept within 0 to 100.
pub open spec fn count_score(completed_deals: int, dispute_count: int) -> int {
    let bonus = if 5 * completed_deals < 40 { 5 * completed_deals } else { 40 };
    let penalty = if 10 * dispute_count < 30 { 10 * dispute_count } else { 30 };
    let raw = 50 + bonus - penalty;
    if raw < 0 { 0 } else if raw > 100 { 100 } else { raw }
}

/// Computes the gateway's trust score from deal counts.
pub fn trust_score_from_counts(completed_deals: i32, dispute_count: i32) -> (r: i32)
    ensures
        r == count_score(completed_deals as int, dispute_count as int),
{
    let c = completed_deals as i64 * 5;
    let d = dispute_count as i64 * 10;
    let bonus: i64 = if c < 40 { c } else { 40 };
    let penalty: i64 = if d < 30 { d } else { 30 };
    let raw = 50 + bonus - penalty;
    if raw < 0 {
        0
    } else if raw > 100 {
        100
    } else {
        raw as i32
    }
}

/// The badge shown for a trust score.
pub open spec fn badge_for(score: i32) -> Seq<char> {
    if 90 <= score <= 100 {
        "Trusted Seller"@
    } else if 80 <= score <= 89 {
        "Reliable Trader"@
    } else if 70 <= score <= 79 {
        "Good Standing"@
    } else if 60 <= score <= 69 {
        "New User"@
    } else {
        "Building Reputation"@
    }
}

/// Names the badge for a trust score.
pub fn trust_badge(score: i32) -> (r: String)
    ensures
        r@ == badge_for(score),
{
    if 90 <= score && score <= 100 {
        String::from_str("Trusted Seller")
    } else if 80 <= score && score <= 89 {
        String::from_str("Reliable Trader")
    } else if 70 <= score && score <= 79 {
        String::from_str("Good Standing")
    } else if 60 <= score && score <= 69 {
        String::from_str("New User")
    } else {
        String::from_str("Building Reputation")
    }
}

/// The gateway's settings.
#[derive(Clone, Debug)]
pub struct AppConfig {
    pub ic_host: String,
    pub database_url: String,
    pub redis_url: String,
    pub port: String,
    pub africastalking_api_key: String,
    pub africastalking_username: String,
    pub africastalking_sms_sender_id: String,
    pub africastalking_ussd_short_code: String,
    pub jwt_secret: String,
    pub token_expiry_hours: i64,
    pub ussd_session_ttl: u64,
    pub deal_code_expiry_hours: i64,
}

} // verus!
