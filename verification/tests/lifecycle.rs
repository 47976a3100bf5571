use legal_hold::config::LegalHoldConfig;
use legal_hold::failure::RuntimeFault;
use legal_hold::lifecycle::{
    activation_plan, secret_fault, LegalHoldOperator, LegalHoldOperatorError,
};
use lenso_kernel::RuntimeFailure;
use lenso_postgres_kit::{Migration, PlanError};

const AUTHORED: &[Migration] = &[Migration::new(1, "initial", "SELECT 1")];
const GAPPED: &[Migration] = &[Migration::new(2, "second", "SELECT 1")];

fn config(schema: &str) -> LegalHoldConfig {
    LegalHoldConfig {
        schema: schema.to_owned(),
        database_url_secret: "legal-hold/database-url".to_owned(),
        auth_issuer: "auth.users".to_owned(),
        auth_assertion_public_key: String::new(),
        admin_callers: Vec::new(),
        guard_callers: Vec::new(),
    }
}

#[test]
fn operator_plans_an_owned_schema() {
    let plan = LegalHoldOperator::plan("legal_hold", AUTHORED).unwrap();
    assert_eq!(plan.schema(), "legal_hold");
    match LegalHoldOperator::plan("public", AUTHORED) {
        Err(LegalHoldOperatorError::Plan(PlanError::InvalidSchemaName { .. })) => {}
        other => panic!("unexpected plan: {other:?}"),
    }
    match LegalHoldOperator::plan("legal_hold", GAPPED) {
        Err(LegalHoldOperatorError::Plan(PlanError::NonContiguousVersion { .. })) => {}
        other => panic!("unexpected plan: {other:?}"),
    }
}

#[test]
fn activation_reports_a_plan_that_cannot_be_used() {
    let plan = activation_plan(&config("legal_hold"), AUTHORED).unwrap();
    assert_eq!(plan.schema(), "legal_hold");
    match activation_plan(&config("pg_hold"), AUTHORED) {
        Err(RuntimeFault::InvalidResolvedPlan { detail }) => {
            assert_eq!(detail, "invalid owned schema name `pg_hold`");
        }
        other => panic!("unexpected plan: {other:?}"),
    }
}

#[test]
fn a_secret_is_rejected_or_its_failure_passed_on() {
    assert_eq!(
        secret_fault("legal-hold/database-url", None),
        RuntimeFault::PluginFailure {
            detail: "database URL secret `legal-hold/database-url` was rejected".to_owned(),
        }
    );
    assert_eq!(
        secret_fault("any", Some(RuntimeFailure::AdmissionClosed)),
        RuntimeFault::Kernel(RuntimeFailure::AdmissionClosed)
    );
}
