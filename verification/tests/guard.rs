use legal_hold::config::LegalHoldConfig;
use legal_hold::failure::{PluginError, RuntimeFault};
use legal_hold::guard::{
    check_retention, retention_answer, CheckRetentionError, CheckRetentionRequest,
    CheckRetentionRequestMode, GuardDecision, GuardStep,
};
use legal_hold::statement::{MatchingHold, Reply, StorageError};
use lenso_auth_sdk::ActorAssertionIssuer;
use serde_json::Value;
use sha2::Digest as _;

fn config() -> LegalHoldConfig {
    let issuer = ActorAssertionIssuer::new("auth.users", b"legal-hold-test-key");
    LegalHoldConfig::new(
        "legal_hold".to_owned(),
        "legal-hold/database-url".to_owned(),
        "auth.users".to_owned(),
        issuer.public_key_base64(),
        vec!["legal-api".to_owned()],
        vec!["privacy-retention".to_owned()],
    )
    .unwrap()
}

fn request() -> CheckRetentionRequest {
    CheckRetentionRequest {
        action_id: "retention_1".to_owned(),
        scope_kind: "organization".to_owned(),
        scope_id: "org_1".to_owned(),
        subject: "usr_1".to_owned(),
        mode: CheckRetentionRequestMode::Delete,
        reason: "expired".to_owned(),
    }
}

fn caller(name: &str) -> Option<String> {
    Some(name.to_owned())
}

#[test]
fn exact_guard_caller_is_checked_before_storage() {
    let request = CheckRetentionRequest {
        action_id: "retention_1".to_owned(),
        scope_kind: "organization".to_owned(),
        scope_id: "org_1".to_owned(),
        subject: "usr_1".to_owned(),
        mode: CheckRetentionRequestMode::Delete,
        reason: "expired".to_owned(),
    };
    let result = check_retention(&config(), &caller("untrusted-retention"), request);
    assert_eq!(
        result,
        Err(PluginError::Domain(CheckRetentionError::Forbidden))
    );
}

#[test]
fn admin_callers_and_unknown_callers_are_no_guard_callers() {
    let forbidden = Err(PluginError::Domain(CheckRetentionError::Forbidden));
    assert_eq!(
        check_retention(&config(), &caller("legal-api"), request()),
        forbidden
    );
    assert_eq!(check_retention(&config(), &None, request()), forbidden);
    let mut invalid = request();
    invalid.subject = String::new();
    assert_eq!(
        check_retention(&config(), &caller("privacy-retention "), invalid),
        forbidden
    );
}

#[test]
fn guard_requests_are_bounded() {
    let admitted = |change: fn(&mut CheckRetentionRequest)| {
        let mut request = request();
        change(&mut request);
        check_retention(&config(), &caller("privacy-retention"), request).is_ok()
    };
    assert!(admitted(|_| {}));
    assert!(admitted(|request| request.reason.clear()));
    assert!(!admitted(|request| request.reason = "a".repeat(20_001)));
    assert!(!admitted(|request| request.reason.push('\n')));
    assert!(!admitted(|request| request.action_id.clear()));
    assert!(!admitted(|request| request.scope_kind = "k".repeat(129)));
    assert!(!admitted(|request| request.scope_id = " ".to_owned()));
    assert!(!admitted(|request| request.subject = "s".repeat(513)));
    let mut invalid = request();
    invalid.action_id.clear();
    assert_eq!(
        check_retention(&config(), &caller("privacy-retention"), invalid),
        Err(PluginError::Domain(CheckRetentionError::InvalidRequest))
    );
}

#[test]
fn a_decision_is_named_by_the_digest_of_its_evidence() {
    let mut anonymize = request();
    anonymize.mode = CheckRetentionRequestMode::Anonymize;
    let check = check_retention(&config(), &caller("privacy-retention"), anonymize).unwrap();
    let (phase, _) = check.start();
    let matched = Reply::Matches(vec![MatchingHold {
        hold_id: "hold_1".to_owned(),
        revision: 2,
    }]);
    let GuardStep::Run(phase, _) = check.next(phase, matched) else {
        panic!("the decision was not stored");
    };
    let GuardStep::Finished(outcome) = check.next(phase, Reply::Affected(1)) else {
        panic!("the evaluation did not end");
    };
    let text = |value: &str| Value::String(value.to_owned());
    let mut hold = serde_json::Map::new();
    hold.insert("hold_id".to_owned(), text("hold_1"));
    hold.insert("revision".to_owned(), text("2"));
    let mut evidence = serde_json::Map::new();
    evidence.insert("caller".to_owned(), text("privacy-retention"));
    evidence.insert("action_id".to_owned(), text("retention_1"));
    evidence.insert("scope_kind".to_owned(), text("organization"));
    evidence.insert("scope_id".to_owned(), text("org_1"));
    evidence.insert("subject".to_owned(), text("usr_1"));
    evidence.insert("mode".to_owned(), text("anonymize"));
    evidence.insert("reason".to_owned(), text("expired"));
    evidence.insert(
        "matching_holds".to_owned(),
        Value::Array(vec![Value::Object(hold)]),
    );
    let wire = serde_json::to_vec(&Value::Object(evidence)).unwrap();
    assert_eq!(
        outcome,
        Ok(GuardDecision {
            allowed: false,
            decision_id: format!("guard:{}", hex::encode(sha2::Sha256::digest(wire))),
            reason_code: Some("active_legal_hold".to_owned()),
        })
    );
}

#[test]
fn a_digest_is_sha_256_in_lower_case() {
    let check = check_retention(&config(), &caller("privacy-retention"), request()).unwrap();
    let decision = check.decide(&b"abc".to_vec(), &Vec::new());
    assert_eq!(
        decision,
        GuardDecision {
            allowed: true,
            decision_id:
                "guard:ba7816bf8f01cfea414140de5dae2223b00361a396177a9cb410ff61f20015ad".to_owned(),
            reason_code: None,
        }
    );
}

#[test]
fn decisions_are_told_apart_by_what_they_rest_on() {
    let decided = |mode: CheckRetentionRequestMode, reason: &str, holds: Vec<(&str, i64)>| {
        let mut asked = request();
        asked.mode = mode;
        asked.reason = reason.to_owned();
        let check = check_retention(&config(), &caller("privacy-retention"), asked).unwrap();
        let (phase, _) = check.start();
        let matched = holds
            .into_iter()
            .map(|(hold_id, revision)| MatchingHold {
                hold_id: hold_id.to_owned(),
                revision,
            })
            .collect();
        let GuardStep::Run(phase, _) = check.next(phase, Reply::Matches(matched)) else {
            panic!("the decision was not stored");
        };
        let GuardStep::Finished(outcome) = check.next(phase, Reply::Affected(1)) else {
            panic!("the evaluation did not end");
        };
        outcome.unwrap()
    };
    let delete = CheckRetentionRequestMode::Delete;
    let anonymize = CheckRetentionRequestMode::Anonymize;
    let decisions = [
        decided(delete, "expired", vec![]),
        decided(anonymize, "expired", vec![]),
        decided(delete, "expired", vec![("hold_1", 2)]),
        decided(anonymize, "asked", vec![("hold_1", 2)]),
        decided(delete, "expired", vec![("hold_1", 3)]),
        decided(delete, "expired", vec![("hold_1", 2), ("hold_2", 1)]),
    ];
    for (at, decision) in decisions.iter().enumerate() {
        let digits = decision.decision_id.strip_prefix("guard:").unwrap();
        assert_eq!(digits.len(), 64);
        assert!(digits
            .chars()
            .all(|digit| digit.is_ascii_digit() || ('a'..='f').contains(&digit)));
        for later in &decisions[at + 1..] {
            assert_ne!(decision.decision_id, later.decision_id);
        }
        assert_eq!(decision.allowed, at < 2);
        assert_eq!(
            decision.reason_code.as_deref(),
            if at < 2 { None } else { Some("active_legal_hold") }
        );
    }
    assert_eq!(
        decided(delete, "expired", vec![("hold_1", 2)]),
        decisions[2]
    );
}

#[test]
fn a_failure_is_never_a_decision() {
    let decision = || GuardDecision {
        allowed: true,
        decision_id: "guard:1".to_owned(),
        reason_code: None,
    };
    assert_eq!(retention_answer(Ok(decision())), Ok(decision()));
    assert_eq!(
        retention_answer(Err(StorageError::NotPrepared)),
        Err(PluginError::Runtime(RuntimeFault::PluginFailure {
            detail: "Legal Hold Plugin is not prepared".to_owned(),
        }))
    );
}
