use legal_hold::config::{validate_callers, validate_config, LegalHoldConfig, LegalHoldConfigError};
use legal_hold::failure::RuntimeFault;
use legal_hold::schema::schema_name_is_owned;
use lenso_auth_sdk::ActorAssertionIssuer;

fn public_key() -> String {
    ActorAssertionIssuer::new("auth.users", b"legal-hold-test-key").public_key_base64()
}

fn config() -> LegalHoldConfig {
    LegalHoldConfig::new(
        "legal_hold".to_owned(),
        "legal-hold/database-url".to_owned(),
        "auth.users".to_owned(),
        public_key(),
        vec!["legal-api".to_owned()],
        vec!["privacy-retention".to_owned()],
    )
    .unwrap()
}

#[test]
fn configuration_rejects_ambient_and_duplicate_callers() {
    let mut invalid = config();
    invalid.admin_callers.clear();
    assert_eq!(
        invalid.validate(),
        Err(LegalHoldConfigError::InvalidAdminCallers)
    );
    let mut invalid = config();
    invalid.guard_callers.push("privacy-retention".to_owned());
    assert_eq!(
        invalid.validate(),
        Err(LegalHoldConfigError::InvalidGuardCallers)
    );
}

#[test]
fn configuration_names_its_first_flaw() {
    assert_eq!(config().validate(), Ok(()));

    let mut invalid = config();
    invalid.schema = "public".to_owned();
    invalid.database_url_secret = String::new();
    assert_eq!(invalid.validate(), Err(LegalHoldConfigError::InvalidSchema));

    let mut invalid = config();
    invalid.database_url_secret = "two words".to_owned();
    invalid.auth_issuer = String::new();
    assert_eq!(
        invalid.validate(),
        Err(LegalHoldConfigError::InvalidSecretReference)
    );

    let mut invalid = config();
    invalid.auth_issuer = "a".repeat(257);
    assert_eq!(
        invalid.validate(),
        Err(LegalHoldConfigError::InvalidAuthIssuer)
    );

    let mut invalid = config();
    invalid.auth_assertion_public_key = "not a key".to_owned();
    invalid.admin_callers.clear();
    assert_eq!(
        invalid.validate(),
        Err(LegalHoldConfigError::InvalidAuthPublicKey)
    );

    assert_eq!(
        LegalHoldConfig::new(
            "legal_hold".to_owned(),
            "legal-hold/database-url".to_owned(),
            "auth.users".to_owned(),
            public_key(),
            vec!["legal-api".to_owned()],
            vec!["privacy retention".to_owned()],
        ),
        Err(LegalHoldConfigError::InvalidGuardCallers)
    );
}

#[test]
fn configuration_errors_say_what_is_wrong() {
    let messages = [
        (
            LegalHoldConfigError::InvalidSchema,
            "invalid owned PostgreSQL schema",
        ),
        (
            LegalHoldConfigError::InvalidSecretReference,
            "invalid database URL secret reference",
        ),
        (LegalHoldConfigError::InvalidAuthIssuer, "invalid Auth issuer"),
        (
            LegalHoldConfigError::InvalidAuthPublicKey,
            "invalid Auth assertion public key",
        ),
        (
            LegalHoldConfigError::InvalidAdminCallers,
            "admin_callers must contain unique exact Instance keys",
        ),
        (
            LegalHoldConfigError::InvalidGuardCallers,
            "guard_callers must contain unique exact Instance keys",
        ),
    ];
    for (error, message) in messages {
        assert_eq!(error.message(), message);
    }
}

#[test]
fn invalid_configuration_is_an_invalid_plan() {
    assert_eq!(validate_config(&config()), Ok(()));
    let mut invalid = config();
    invalid.guard_callers.clear();
    assert_eq!(
        validate_config(&invalid),
        Err(RuntimeFault::InvalidResolvedPlan {
            detail: "Legal Hold configuration is invalid: guard_callers must contain unique exact \
                     Instance keys"
                .to_owned(),
        })
    );
}

#[test]
fn callers_are_bounded_and_unique() {
    let names = |count: usize| -> Vec<String> {
        (0..count).map(|i| format!("caller-{i}")).collect()
    };
    assert_eq!(validate_callers(&names(0)), Err(()));
    assert_eq!(validate_callers(&names(64)), Ok(()));
    assert_eq!(validate_callers(&names(65)), Err(()));
    let mut repeated = names(3);
    repeated.push("caller-0".to_owned());
    assert_eq!(validate_callers(&repeated), Err(()));
}

#[test]
fn verification_key_is_the_configured_one() {
    let authority = config().auth_verifier().unwrap();
    assert_eq!(authority.public_key_base64(), public_key());
    let mut invalid = config();
    invalid.auth_assertion_public_key.push('!');
    assert_eq!(
        invalid.auth_verifier().err(),
        Some(RuntimeFault::InvalidResolvedPlan {
            detail: "Legal Hold Auth verification key is invalid".to_owned(),
        })
    );
}

#[test]
fn schema_names_follow_the_kit() {
    for name in ["legal_hold", "a", "a1_b2", "publicly", "pgx", "p"] {
        assert!(schema_name_is_owned(name), "{name}");
    }
    assert!(schema_name_is_owned(&"a".repeat(63)));
    for name in [
        "", "1a", "_a", "Legal", "legal-hold", "public", "information_schema", "pg_", "pg_hold",
        "é", "a b",
    ] {
        assert!(!schema_name_is_owned(name), "{name}");
    }
    assert!(!schema_name_is_owned(&"a".repeat(64)));
}
