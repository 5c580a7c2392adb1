use escrow::gateway::{
    trust_badge, trust_score_from_counts, CreateEscrowRequest, CreateEscrowResponse, UpdateProfileRequest,
};
use escrow::identity::{ProfileError, ProfileStore, UpdateProfileParams};
use escrow::reputation::{calculate_trust_score, ReputationError, ReputationProfile, ReputationStore};
use escrow::types::CreateEscrowResult;
use escrow::wallet::{parse_currency, TransferParams, WalletError, WalletLedger};
use escrow::types::Currency;

fn s(x: &str) -> String {
    x.to_string()
}

fn no_change() -> UpdateProfileParams {
    UpdateProfileParams { username: None, phone_number: None, email: None, avatar_url: None, bio: None }
}

#[test]
fn profile_create_and_update() {
    let mut store = ProfileStore::new();
    let p = store.create_profile(&s("alice"), 5).unwrap();
    assert_eq!(p.kyc_level, 0);
    assert!(matches!(store.create_profile(&s("alice"), 6), Err(ProfileError::InvalidInput(_))));
    let mut u = no_change();
    u.username = Some(s("ali"));
    u.bio = Some(s("hello"));
    let p = store.update_profile(&s("alice"), u, 7).unwrap();
    assert_eq!(p.username, Some(s("ali")));
    assert_eq!(p.bio, Some(s("hello")));
    assert_eq!(p.updated_at, 7);
    assert_eq!(store.update_profile(&s("bob"), no_change(), 8).unwrap_err(), ProfileError::NotFound);
}

#[test]
fn profile_update_rules() {
    let mut store = ProfileStore::new();
    store.create_profile(&s("alice"), 1).unwrap();
    store.create_profile(&s("bob"), 1).unwrap();
    let mut u = no_change();
    u.username = Some(s("al"));
    assert!(matches!(store.update_profile(&s("alice"), u, 2), Err(ProfileError::InvalidInput(_))));
    let mut u = no_change();
    u.username = Some(s("abcdefghijklmnopqrstu"));
    assert!(matches!(store.update_profile(&s("alice"), u, 2), Err(ProfileError::InvalidInput(_))));
    let mut u = no_change();
    u.username = Some(s("shared"));
    store.update_profile(&s("alice"), u, 3).unwrap();
    let mut u = no_change();
    u.username = Some(s("shared"));
    assert_eq!(store.update_profile(&s("bob"), u, 4).unwrap_err(), ProfileError::UsernameAlreadyTaken);
    let mut u = no_change();
    u.username = Some(s("shared"));
    assert!(store.update_profile(&s("alice"), u, 5).is_ok());
    let mut u = no_change();
    u.email = Some(s("a@b.c"));
    u.bio = Some("x".repeat(501));
    assert!(matches!(store.update_profile(&s("bob"), u, 6), Err(ProfileError::InvalidInput(_))));
    assert_eq!(store.get_profile(&s("bob")).unwrap().email, None);
}

#[test]
fn kyc_and_agent_flags() {
    let mut store = ProfileStore::new();
    store.create_profile(&s("alice"), 1).unwrap();
    assert!(matches!(store.update_kyc_level(&s("alice"), 4, 2), Err(ProfileError::InvalidInput(_))));
    assert_eq!(store.update_kyc_level(&s("alice"), 3, 2).unwrap().kyc_level, 3);
    assert_eq!(store.update_kyc_level(&s("zed"), 1, 2).unwrap_err(), ProfileError::NotFound);
    assert!(store.set_agent_status(&s("alice"), true, 3).unwrap().is_agent);
    assert_eq!(store.get_total_users(), 1);
}

fn rep(deals: u64, disputes: u64, avg: u64, badges: usize) -> ReputationProfile {
    ReputationProfile {
        user_id: s("u"),
        completed_deals: deals,
        dispute_count: disputes,
        avg_response_time_seconds: avg,
        trust_score: 0,
        badges: vec![s("b"); badges],
        last_update: 0,
    }
}

#[test]
fn trust_score_formula() {
    assert_eq!(calculate_trust_score(&rep(0, 0, 5000, 0)), 50);
    assert_eq!(calculate_trust_score(&rep(0, 0, 0, 0)), 60);
    assert_eq!(calculate_trust_score(&rep(10, 3, 5000, 1)), 59);
    assert_eq!(calculate_trust_score(&rep(100, 0, 10, 9)), 100);
    assert_eq!(calculate_trust_score(&rep(0, 40, 5000, 0)), 0);
}

#[test]
fn completed_deals_and_badges() {
    let mut store = ReputationStore::new();
    let p = store.record_completed_deal(&s("u"), 100, 1);
    assert_eq!(p.completed_deals, 1);
    assert_eq!(p.avg_response_time_seconds, 100);
    assert_eq!(p.trust_score, 61);
    let p = store.record_completed_deal(&s("u"), 301, 2);
    assert_eq!(p.avg_response_time_seconds, 200);
    for k in 3..=10 {
        store.record_completed_deal(&s("u"), 100, k);
    }
    let p = store.get_reputation(&s("u")).unwrap();
    assert_eq!(p.completed_deals, 10);
    assert_eq!(p.badges, vec![s("10 Deals")]);
    let p = store.award_badge(&s("u"), s("verified"), 20);
    assert_eq!(p.badges.len(), 2);
    let p = store.award_badge(&s("u"), s("verified"), 21);
    assert_eq!(p.badges.len(), 2);
    assert_eq!(p.last_update, 20);
}

#[test]
fn disputes_are_recorded_and_resolved() {
    let mut store = ReputationStore::new();
    let p = store.record_dispute(&s("u"), s("ESC-0000000001"), s("non_delivery"), 5).unwrap();
    assert_eq!(p.dispute_count, 1);
    assert_eq!(p.trust_score, 58);
    store.record_dispute(&s("v"), s("ESC-0000000002"), s("fraud"), 6).unwrap();
    let hist = store.get_dispute_history(&s("u"));
    assert_eq!(hist.len(), 1);
    assert_eq!(hist[0].dispute_id, "DISP-0000000001");
    assert!(store.resolve_dispute(&s("DISP-0000000002"), s("refunded"), 9).is_ok());
    assert_eq!(store.get_dispute_history(&s("v"))[0].resolved_at, Some(9));
    assert_eq!(store.resolve_dispute(&s("DISP-0000000009"), s("x"), 9).unwrap_err(), ReputationError::NotFound);
}

#[test]
fn wallet_deposit_and_transfer() {
    let mut w = WalletLedger::new();
    assert_eq!(w.update_balance(&s("a"), 10, &s("ETH"), 1).unwrap_err(), WalletError::InvalidAddress);
    assert_eq!(w.update_balance(&s("a"), 500, &s("BTC"), 1).unwrap().btc_balance, 500);
    let t = TransferParams { to: s("b"), amount: 200, currency: s("BTC") };
    let sender = w.transfer(&s("a"), &t, 2).unwrap();
    assert_eq!(sender.btc_balance, 300);
    assert_eq!(w.get_balance(&s("b")).unwrap().btc_balance, 200);
    let txs = w.get_transactions(&s("b"));
    assert_eq!(txs.len(), 1);
    assert_eq!(txs[0].tx_type, "transfer_in");
    assert_eq!(txs[0].tx_id, "TX-0000000002");
    assert_eq!(w.get_transactions(&s("a"))[0].tx_type, "deposit");
}

#[test]
fn wallet_transfer_errors() {
    let mut w = WalletLedger::new();
    w.update_balance(&s("a"), 100, &s("ckBTC"), 1).unwrap();
    let t = |amount: u64, to: &str, cur: &str| TransferParams { to: s(to), amount, currency: s(cur) };
    assert_eq!(w.transfer(&s("a"), &t(0, "b", "ckBTC"), 2).unwrap_err(), WalletError::InvalidAmount);
    assert!(matches!(w.transfer(&s("a"), &t(5, "a", "ckBTC"), 2), Err(WalletError::TransferFailed(_))));
    assert_eq!(w.transfer(&s("x"), &t(5, "b", "ckBTC"), 2).unwrap_err(), WalletError::InsufficientBalance);
    assert_eq!(w.transfer(&s("a"), &t(5, "b", "DOGE"), 2).unwrap_err(), WalletError::InvalidAddress);
    assert_eq!(w.transfer(&s("a"), &t(101, "b", "ckBTC"), 2).unwrap_err(), WalletError::InsufficientBalance);
    assert_eq!(w.transfer(&s("a"), &t(5, "b", "BTC"), 2).unwrap_err(), WalletError::InsufficientBalance);
    assert!(w.get_balance(&s("b")).is_none());
}

#[test]
fn currency_codes() {
    assert_eq!(parse_currency(&s("BTC")), Some(Currency::BTC));
    assert_eq!(parse_currency(&s("ckBTC")), Some(Currency::CkBTC));
    assert_eq!(parse_currency(&s("btc")), None);
}

#[test]
fn gateway_conversions() {
    let r = CreateEscrowResponse::from(CreateEscrowResult { escrow_id: s("E"), deposit_address: s("D") });
    assert_eq!(r.escrow_id, "E");
    assert_eq!(r.deposit_address, "D");
    let p = UpdateProfileParams::from(UpdateProfileRequest { username: Some(s("n")), email: None, bio: Some(s("b")) });
    assert_eq!(p.username, Some(s("n")));
    assert_eq!(p.phone_number, None);
    assert_eq!(p.bio, Some(s("b")));
    let req = CreateEscrowRequest { counterparty_id: s("c"), amount_satoshis: 1, currency: s("BTC"), time_lock_unix: None };
    assert_eq!(parse_currency(&req.currency), Some(Currency::BTC));
}

#[test]
fn agents_and_username_search() {
    let mut store = ProfileStore::new();
    store.create_profile(&s("alice"), 1).unwrap();
    store.create_profile(&s("bob"), 1).unwrap();
    store.create_profile(&s("carol"), 1).unwrap();
    store.set_agent_status(&s("carol"), true, 2).unwrap();
    store.set_agent_status(&s("alice"), true, 2).unwrap();
    let agents: Vec<String> = store.get_agents().into_iter().map(|p| p.principal_id).collect();
    assert_eq!(agents, vec![s("alice"), s("carol")]);
    let mut u = no_change();
    u.username = Some(s("bobby"));
    store.update_profile(&s("bob"), u, 3).unwrap();
    assert_eq!(store.search_by_username(&s("bobby")).unwrap().principal_id, "bob");
    assert!(store.search_by_username(&s("nobody")).is_none());
}

#[test]
fn deposit_addresses_per_currency() {
    let mut w = WalletLedger::new();
    let a = w.get_deposit_address(&s("u"), &s("BTC"), 1_000_255).unwrap();
    assert_eq!(a.address, "tb1qff");
    assert_eq!(a.currency, "BTC");
    assert_eq!(w.get_balance(&s("u")).unwrap().btc_balance, 0);
    let again = w.get_deposit_address(&s("u"), &s("BTC"), 77).unwrap();
    assert_eq!(again.address, "tb1qff");
    let c = w.get_deposit_address(&s("u"), &s("ckBTC"), 4096).unwrap();
    assert_eq!(c.address, "ckbtc-1000");
    assert_eq!(w.get_deposit_address(&s("u"), &s("ETH"), 5).unwrap_err(), WalletError::InvalidAddress);
    let mine: Vec<String> = w.get_addresses(&s("u")).into_iter().map(|a| a.address).collect();
    assert_eq!(mine, vec![s("tb1qff"), s("ckbtc-1000")]);
    assert!(w.get_addresses(&s("v")).is_empty());
}

#[test]
fn top_users_by_trust() {
    let mut store = ReputationStore::new();
    store.record_completed_deal(&s("low"), 9000, 1);
    store.record_dispute(&s("low"), s("E1"), s("fraud"), 1).unwrap();
    store.record_completed_deal(&s("mid"), 9000, 1);
    store.record_completed_deal(&s("high"), 10, 1);
    store.record_completed_deal(&s("mid2"), 9000, 1);
    let top: Vec<String> = store.get_top_users(3).into_iter().map(|p| p.user_id).collect();
    assert_eq!(top, vec![s("high"), s("mid"), s("mid2")]);
    assert_eq!(store.get_top_users(10).len(), 4);
    assert!(store.get_top_users(0).is_empty());
}

#[test]
fn gateway_trust_scores_and_badges() {
    assert_eq!(trust_score_from_counts(0, 0), 50);
    assert_eq!(trust_score_from_counts(3, 1), 55);
    assert_eq!(trust_score_from_counts(100, 0), 90);
    assert_eq!(trust_score_from_counts(0, 9), 20);
    assert_eq!(trust_score_from_counts(i32::MAX, i32::MAX), 60);
    assert_eq!(trust_score_from_counts(i32::MIN, 0), 0);
    assert_eq!(trust_badge(90), "Trusted Seller");
    assert_eq!(trust_badge(89), "Reliable Trader");
    assert_eq!(trust_badge(75), "Good Standing");
    assert_eq!(trust_badge(60), "New User");
    assert_eq!(trust_badge(59), "Building Reputation");
    assert_eq!(trust_badge(101), "Building Reputation");
}
