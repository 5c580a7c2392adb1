use escrow::risk::{
    calculate_mock_risk, recommended_action, risk_level, AIError, AIResult, AIResultStore,
    RiskAssessmentRequest,
};

fn result(id: &str, score: u8) -> AIResult {
    AIResult {
        escrow_id: id.to_string(),
        risk_score: score,
        risk_reasons: vec!["reason".to_string()],
        recommended_action: "REVIEW".to_string(),
        generated_at: 1,
        model_version: "m1".to_string(),
        signature: "sig".to_string(),
    }
}

fn request(amount: u64, user: Option<u8>, cp: Option<u8>) -> RiskAssessmentRequest {
    RiskAssessmentRequest {
        escrow_id: "ESC-0000000001".to_string(),
        user_id: "u".to_string(),
        counterparty_id: "c".to_string(),
        amount_satoshis: amount,
        user_trust_score: user,
        counterparty_trust_score: cp,
    }
}

#[test]
fn second_assessment_is_already_processed() {
    let mut store = AIResultStore::new();
    let stored = store.store_ai_result(result("E1", 40)).unwrap();
    assert_eq!(stored.risk_score, 40);
    assert_eq!(store.store_ai_result(result("E1", 90)).unwrap_err(), AIError::AlreadyProcessed);
    assert_eq!(store.get_ai_result(&"E1".to_string()).unwrap().risk_score, 40);
    assert!(store.get_ai_result(&"E2".to_string()).is_none());
    assert_eq!(store.get_total_assessments(), 1);
}

#[test]
fn score_range_and_average() {
    let mut store = AIResultStore::new();
    assert_eq!(store.get_avg_risk_score(), 0);
    store.store_ai_result(result("E1", 10)).unwrap();
    store.store_ai_result(result("E2", 50)).unwrap();
    store.store_ai_result(result("E3", 91)).unwrap();
    let mid: Vec<String> =
        store.get_results_by_score_range(10, 50).into_iter().map(|r| r.escrow_id).collect();
    assert_eq!(mid, vec!["E1".to_string(), "E2".to_string()]);
    assert!(store.get_results_by_score_range(60, 90).is_empty());
    assert_eq!(store.get_avg_risk_score(), 50);
}

#[test]
fn mock_risk_scores() {
    assert_eq!(calculate_mock_risk(&request(1000, None, None)), 50);
    assert_eq!(calculate_mock_risk(&request(1000, Some(100), None)), 30);
    assert_eq!(calculate_mock_risk(&request(1000, Some(255), Some(255))), 0);
    assert_eq!(calculate_mock_risk(&request(10_000_001, None, None)), 70);
    assert_eq!(calculate_mock_risk(&request(10_000_000, None, None)), 50);
    assert_eq!(calculate_mock_risk(&request(20_000_000, Some(50), Some(25))), 55);
}

#[test]
fn actions_and_levels() {
    assert_eq!(recommended_action(29), "APPROVE");
    assert_eq!(recommended_action(30), "REVIEW");
    assert_eq!(recommended_action(69), "REVIEW");
    assert_eq!(recommended_action(70), "REJECT");
    assert_eq!(risk_level(30), "LOW");
    assert_eq!(risk_level(31), "MEDIUM");
    assert_eq!(risk_level(70), "MEDIUM");
    assert_eq!(risk_level(71), "HIGH");
}
