use escrow::lifecycle::Resolution;
use escrow::store::EscrowStore;
use escrow::types::{CreateEscrowParams, Currency, EscrowError, EscrowStatus, UTXO};

fn s(x: &str) -> String {
    x.to_string()
}

fn utxo(txid: &str, amount: u64) -> UTXO {
    UTXO { txid: s(txid), vout: 0, amount_satoshis: amount, confirmations: 1 }
}

fn open(store: &mut EscrowStore, amount: u64, time_lock: Option<u64>) -> String {
    let params = CreateEscrowParams {
        counterparty_id: s("B"),
        amount_satoshis: amount,
        currency: Currency::BTC,
        time_lock_unix: time_lock,
    };
    store.create_escrow(&s("A"), params, 10).unwrap().escrow_id
}

fn funded(store: &mut EscrowStore, time_lock: Option<u64>) -> String {
    let id = open(store, 1000, time_lock);
    let rec = store.notify_deposit(&id, utxo("t1", 1000), 20).unwrap();
    assert_eq!(rec.status, EscrowStatus::Funded);
    id
}

fn disputed(store: &mut EscrowStore) -> String {
    let id = funded(store, None);
    let rec = store.mark_disputed(&s("B"), &id, &s("item not as described"), 30).unwrap();
    assert_eq!(rec.status, EscrowStatus::Disputed);
    id
}

#[test]
fn create_gives_identifier_and_address() {
    let mut store = EscrowStore::new();
    let params = CreateEscrowParams {
        counterparty_id: s("B"),
        amount_satoshis: 100000,
        currency: Currency::BTC,
        time_lock_unix: None,
    };
    let r = store.create_escrow(&s("A"), params, 5).unwrap();
    assert_eq!(r.escrow_id, "ESC-0000000001");
    assert_eq!(r.deposit_address, "tb1q0000000001");
    let params = CreateEscrowParams {
        counterparty_id: s("C"),
        amount_satoshis: 7,
        currency: Currency::CkBTC,
        time_lock_unix: Some(99),
    };
    let r = store.create_escrow(&s("A"), params, 6).unwrap();
    assert_eq!(r.escrow_id, "ESC-0000000002");
    assert_eq!(r.deposit_address, "ckbtc-ESC-0000000002");
    let rec = store.get_escrow(&s("ESC-0000000002")).unwrap();
    assert_eq!(rec.status, EscrowStatus::Created);
    assert_eq!(rec.creator_id, "A");
    assert_eq!(rec.counterparty_id, "C");
    assert_eq!(rec.time_lock_unix, Some(99));
    assert_eq!(rec.created_at, 6);
    assert_eq!(rec.updated_at, 6);
    assert_eq!(store.get_total_escrows(), 2);
}

#[test]
fn create_refuses_zero_amount() {
    let mut store = EscrowStore::new();
    let params = CreateEscrowParams {
        counterparty_id: s("B"),
        amount_satoshis: 0,
        currency: Currency::BTC,
        time_lock_unix: None,
    };
    assert_eq!(store.create_escrow(&s("A"), params, 1).unwrap_err(), EscrowError::InvalidAmount);
    assert_eq!(store.get_total_escrows(), 0);
}

#[test]
fn create_refuses_self_as_counterparty() {
    let mut store = EscrowStore::new();
    let params = CreateEscrowParams {
        counterparty_id: s("A"),
        amount_satoshis: 10,
        currency: Currency::BTC,
        time_lock_unix: None,
    };
    assert_eq!(store.create_escrow(&s("A"), params, 1).unwrap_err(), EscrowError::Unauthorized);
    assert_eq!(store.get_total_escrows(), 0);
}

#[test]
fn unknown_identifier_is_not_found() {
    let mut store = EscrowStore::new();
    let id = s("ESC-0000000042");
    assert!(store.get_escrow(&id).is_none());
    assert_eq!(store.notify_deposit(&id, utxo("t", 5), 1).unwrap_err(), EscrowError::NotFound);
    assert_eq!(store.confirm_delivery(&s("A"), &id, 1).unwrap_err(), EscrowError::NotFound);
    assert_eq!(store.request_release(&s("A"), &id, 1).unwrap_err(), EscrowError::NotFound);
    assert_eq!(store.force_refund(&s("A"), &id, &s("x"), 1).unwrap_err(), EscrowError::NotFound);
    assert_eq!(store.mark_disputed(&s("A"), &id, &s("x"), 1).unwrap_err(), EscrowError::NotFound);
    assert_eq!(store.resolve_dispute(&id, &s("x"), 1).unwrap_err(), EscrowError::NotFound);
    assert_eq!(store.attach_ai_result(&id, 5, vec![], 1).unwrap_err(), EscrowError::NotFound);
}

#[test]
fn partial_then_full_funding() {
    let mut store = EscrowStore::new();
    let id = open(&mut store, 100000, None);
    let rec = store.notify_deposit(&id, utxo("tx-a", 60000), 11).unwrap();
    assert_eq!(rec.status, EscrowStatus::Created);
    assert_eq!(rec.total_deposited(), Some(60000));
    let rec = store.notify_deposit(&id, utxo("tx-b", 40000), 12).unwrap();
    assert_eq!(rec.status, EscrowStatus::Funded);
    assert_eq!(rec.total_deposited(), Some(100000));
    assert_eq!(rec.utxos.len(), 2);
    assert_eq!(rec.utxos[1].txid, "tx-b");
}

#[test]
fn deposit_totals_add_up_in_any_order() {
    let amounts = [5u64, 17, 300, 1, 42];
    let mut forward = EscrowStore::new();
    let a = open(&mut forward, 1_000_000, None);
    for (k, x) in amounts.iter().enumerate() {
        forward.notify_deposit(&a, utxo(&format!("f{}", k), *x), 11).unwrap();
    }
    let mut backward = EscrowStore::new();
    let b = open(&mut backward, 1_000_000, None);
    for (k, x) in amounts.iter().rev().enumerate() {
        backward.notify_deposit(&b, utxo(&format!("b{}", k), *x), 11).unwrap();
    }
    let sum: u64 = amounts.iter().sum();
    assert_eq!(forward.get_escrow(&a).unwrap().total_deposited(), Some(sum));
    assert_eq!(backward.get_escrow(&b).unwrap().total_deposited(), Some(sum));
}

#[test]
fn deposit_of_zero_is_refused() {
    let mut store = EscrowStore::new();
    let id = open(&mut store, 100, None);
    assert_eq!(store.notify_deposit(&id, utxo("z", 0), 11).unwrap_err(), EscrowError::InvalidAmount);
    assert!(store.get_escrow(&id).unwrap().utxos.is_empty());
}

#[test]
fn over_funding_is_recorded() {
    let mut store = EscrowStore::new();
    let id = open(&mut store, 100, None);
    let rec = store.notify_deposit(&id, utxo("big", 250), 11).unwrap();
    assert_eq!(rec.status, EscrowStatus::Funded);
    assert_eq!(rec.total_deposited(), Some(250));
}

#[test]
fn late_deposits_are_kept_without_transition() {
    let mut store = EscrowStore::new();
    let id = funded(&mut store, None);
    let rec = store.notify_deposit(&id, utxo("late", 5), 25).unwrap();
    assert_eq!(rec.status, EscrowStatus::Funded);
    assert_eq!(rec.utxos.len(), 2);
    assert_eq!(rec.total_deposited(), Some(1005));
}

#[test]
fn total_beyond_u64_is_none() {
    let mut store = EscrowStore::new();
    let id = open(&mut store, 10, None);
    store.notify_deposit(&id, utxo("a", u64::MAX), 11).unwrap();
    let rec = store.notify_deposit(&id, utxo("b", 1), 12).unwrap();
    assert_eq!(rec.total_deposited(), None);
}

#[test]
fn both_confirmations_deliver_then_release() {
    let mut store = EscrowStore::new();
    let id = funded(&mut store, None);
    let rec = store.confirm_delivery(&s("A"), &id, 30).unwrap();
    assert_eq!(rec.status, EscrowStatus::Funded);
    assert!(rec.creator_confirmed_delivery);
    assert!(!rec.counterparty_confirmed_delivery);
    let rec = store.confirm_delivery(&s("B"), &id, 31).unwrap();
    assert_eq!(rec.status, EscrowStatus::Delivered);
    let rec = store.request_release(&s("B"), &id, 32).unwrap();
    assert_eq!(rec.status, EscrowStatus::Released);
    assert_eq!(rec.updated_at, 32);
}

#[test]
fn release_by_creator_after_delivery() {
    let mut store = EscrowStore::new();
    let id = funded(&mut store, None);
    store.confirm_delivery(&s("B"), &id, 30).unwrap();
    store.confirm_delivery(&s("A"), &id, 31).unwrap();
    let rec = store.request_release(&s("A"), &id, 32).unwrap();
    assert_eq!(rec.status, EscrowStatus::Released);
}

#[test]
fn second_confirmation_is_already_confirmed() {
    let mut store = EscrowStore::new();
    let id = funded(&mut store, None);
    let first = store.confirm_delivery(&s("A"), &id, 30).unwrap();
    assert_eq!(store.confirm_delivery(&s("A"), &id, 31).unwrap_err(), EscrowError::AlreadyConfirmed);
    let now = store.get_escrow(&id).unwrap();
    assert_eq!(now.status, first.status);
    assert_eq!(now.updated_at, 30);
}

#[test]
fn confirmation_after_delivery_is_already_confirmed() {
    let mut store = EscrowStore::new();
    let id = funded(&mut store, None);
    store.confirm_delivery(&s("A"), &id, 30).unwrap();
    store.confirm_delivery(&s("B"), &id, 31).unwrap();
    assert_eq!(store.confirm_delivery(&s("B"), &id, 32).unwrap_err(), EscrowError::AlreadyConfirmed);
    assert_eq!(store.get_escrow(&id).unwrap().status, EscrowStatus::Delivered);
}

#[test]
fn confirmation_needs_party_and_funding() {
    let mut store = EscrowStore::new();
    let id = open(&mut store, 100, None);
    assert_eq!(store.confirm_delivery(&s("Z"), &id, 11).unwrap_err(), EscrowError::Unauthorized);
    assert_eq!(store.confirm_delivery(&s("A"), &id, 11).unwrap_err(), EscrowError::InvalidStatus);
}

#[test]
fn release_time_lock_boundary() {
    let mut store = EscrowStore::new();
    let id = funded(&mut store, Some(1000));
    assert_eq!(store.request_release(&s("A"), &id, 999).unwrap_err(), EscrowError::InvalidStatus);
    assert_eq!(store.get_escrow(&id).unwrap().status, EscrowStatus::Funded);
    let rec = store.request_release(&s("A"), &id, 1000).unwrap();
    assert_eq!(rec.status, EscrowStatus::Released);
}

#[test]
fn release_without_time_lock_needs_delivery() {
    let mut store = EscrowStore::new();
    let id = funded(&mut store, None);
    assert_eq!(store.request_release(&s("B"), &id, 5000).unwrap_err(), EscrowError::InvalidStatus);
    assert_eq!(store.request_release(&s("Z"), &id, 5000).unwrap_err(), EscrowError::Unauthorized);
}

#[test]
fn creator_forces_refund_of_created_escrow() {
    let mut store = EscrowStore::new();
    let id = open(&mut store, 100, None);
    assert_eq!(
        store.force_refund(&s("B"), &id, &s("buyer unresponsive"), 11).unwrap_err(),
        EscrowError::Unauthorized
    );
    let rec = store.force_refund(&s("A"), &id, &s("buyer unresponsive"), 12).unwrap();
    assert_eq!(rec.status, EscrowStatus::Refunded);
    assert_eq!(rec.tags, vec![s("refund_reason: buyer unresponsive")]);
    assert_eq!(
        store.force_refund(&s("A"), &id, &s("again"), 13).unwrap_err(),
        EscrowError::InvalidStatus
    );
}

#[test]
fn refund_after_delivery_is_invalid() {
    let mut store = EscrowStore::new();
    let id = funded(&mut store, None);
    store.confirm_delivery(&s("A"), &id, 30).unwrap();
    store.confirm_delivery(&s("B"), &id, 31).unwrap();
    assert_eq!(store.force_refund(&s("A"), &id, &s("late"), 32).unwrap_err(), EscrowError::InvalidStatus);
}

#[test]
fn dispute_records_reason() {
    let mut store = EscrowStore::new();
    let id = disputed(&mut store);
    let rec = store.get_escrow(&id).unwrap();
    assert_eq!(rec.tags, vec![s("dispute_reason: item not as described")]);
}

#[test]
fn dispute_needs_party_and_status() {
    let mut store = EscrowStore::new();
    let id = open(&mut store, 100, None);
    assert_eq!(store.mark_disputed(&s("A"), &id, &s("r"), 11).unwrap_err(), EscrowError::InvalidStatus);
    let id = funded(&mut store, None);
    assert_eq!(store.mark_disputed(&s("Z"), &id, &s("r"), 21).unwrap_err(), EscrowError::Unauthorized);
}

#[test]
fn resolution_without_release_term_refunds() {
    let mut store = EscrowStore::new();
    let id = disputed(&mut store);
    // Policy: text that does not mention release resolves to a refund.
    let rec = store.resolve_dispute(&id, &s("seller failed to ship"), 40).unwrap();
    assert_eq!(rec.status, EscrowStatus::Refunded);
    assert_eq!(rec.tags[1], "resolution: seller failed to ship");
}

#[test]
fn resolution_with_release_term_releases() {
    let mut store = EscrowStore::new();
    let id = disputed(&mut store);
    let rec = store.resolve_dispute(&id, &s("arbiter: release funds"), 40).unwrap();
    assert_eq!(rec.status, EscrowStatus::Released);
    assert_eq!(store.resolve_dispute(&id, &s("release"), 41).unwrap_err(), EscrowError::InvalidStatus);
}

#[test]
fn explicit_resolution_outcome() {
    let mut store = EscrowStore::new();
    let id = disputed(&mut store);
    let rec = store.resolve_dispute_with(&id, Resolution::Refund, &s("please release"), 40).unwrap();
    assert_eq!(rec.status, EscrowStatus::Refunded);
    let id = disputed(&mut store);
    let rec = store.resolve_dispute_with(&id, Resolution::Release, &s("ok"), 41).unwrap();
    assert_eq!(rec.status, EscrowStatus::Released);
}

#[test]
fn resolution_needs_dispute() {
    let mut store = EscrowStore::new();
    let id = funded(&mut store, None);
    assert_eq!(store.resolve_dispute(&id, &s("release"), 40).unwrap_err(), EscrowError::InvalidStatus);
}

#[test]
fn risk_attachment_overwrites_score_and_appends_tags() {
    let mut store = EscrowStore::new();
    let id = open(&mut store, 100, None);
    let rec = store.attach_ai_result(&id, 80, vec![s("new_account")], 11).unwrap();
    assert_eq!(rec.ai_risk_score, Some(80));
    let rec = store.attach_ai_result(&id, 20, vec![s("verified"), s("repeat")], 12).unwrap();
    assert_eq!(rec.ai_risk_score, Some(20));
    assert_eq!(rec.tags, vec![s("new_account"), s("verified"), s("repeat")]);
    assert_eq!(rec.status, EscrowStatus::Created);
}

#[test]
fn updated_at_never_goes_back() {
    let mut store = EscrowStore::new();
    let id = open(&mut store, 100, None);
    let rec = store.notify_deposit(&id, utxo("a", 10), 50).unwrap();
    assert_eq!(rec.updated_at, 50);
    let rec = store.notify_deposit(&id, utxo("b", 10), 40).unwrap();
    assert_eq!(rec.updated_at, 50);
    let rec = store.attach_ai_result(&id, 1, vec![], 60).unwrap();
    assert_eq!(rec.updated_at, 60);
}

#[test]
fn terminal_states_refuse_further_actions() {
    let mut store = EscrowStore::new();
    let id = funded(&mut store, Some(0));
    store.request_release(&s("A"), &id, 1).unwrap();
    assert_eq!(store.request_release(&s("A"), &id, 2).unwrap_err(), EscrowError::InvalidStatus);
    assert_eq!(store.mark_disputed(&s("A"), &id, &s("r"), 2).unwrap_err(), EscrowError::InvalidStatus);
    assert_eq!(store.force_refund(&s("A"), &id, &s("r"), 2).unwrap_err(), EscrowError::InvalidStatus);
    assert_eq!(store.confirm_delivery(&s("A"), &id, 2).unwrap_err(), EscrowError::InvalidStatus);
}

#[test]
fn queries_by_party_and_status() {
    let mut store = EscrowStore::new();
    let a = open(&mut store, 100, None);
    let params = CreateEscrowParams {
        counterparty_id: s("D"),
        amount_satoshis: 5,
        currency: Currency::CkBTC,
        time_lock_unix: None,
    };
    let c = store.create_escrow(&s("C"), params, 10).unwrap().escrow_id;
    store.notify_deposit(&c, utxo("x", 5), 11).unwrap();
    let mine: Vec<String> = store.get_user_escrows(&s("B")).into_iter().map(|e| e.escrow_id).collect();
    assert_eq!(mine, vec![a.clone()]);
    let theirs: Vec<String> = store.get_user_escrows(&s("D")).into_iter().map(|e| e.escrow_id).collect();
    assert_eq!(theirs, vec![c.clone()]);
    assert!(store.get_user_escrows(&s("Q")).is_empty());
    let created: Vec<String> =
        store.get_escrows_by_status(EscrowStatus::Created).into_iter().map(|e| e.escrow_id).collect();
    assert_eq!(created, vec![a]);
    let funded: Vec<String> =
        store.get_escrows_by_status(EscrowStatus::Funded).into_iter().map(|e| e.escrow_id).collect();
    assert_eq!(funded, vec![c]);
    assert!(store.get_escrows_by_status(EscrowStatus::Disputed).is_empty());
}

#[test]
fn time_from_funding_to_release() {
    let mut store = EscrowStore::new();
    let id = open(&mut store, 100, None);
    let rec = store.notify_deposit(&id, utxo("a", 100), 25).unwrap();
    assert_eq!(rec.funded_at, Some(25));
    assert_eq!(rec.time_to_release(), None);
    store.confirm_delivery(&s("A"), &id, 30).unwrap();
    store.confirm_delivery(&s("B"), &id, 31).unwrap();
    let rec = store.request_release(&s("A"), &id, 100).unwrap();
    assert_eq!(rec.time_to_release(), Some(75));
}
