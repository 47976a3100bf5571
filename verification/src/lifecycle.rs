//! Schema administration, and the decisions of activation.
//!
//! Setup and upgrade are explicit operator workflows. Activation only opens a
//! schema that they have prepared.
use vstd::prelude::*;
use vstd::string::*;
use lenso_postgres_kit::{Migration, PlanError, PostgresKitError, SchemaPlan};
use crate::config::LegalHoldConfig;
use crate::failure::{RuntimeFault, RuntimeFaultModel};
use crate::schema::{authored_plan, plan_error_message, plan_error_text, schema_plan};
use crate::text::{text_of, Text};

verus! {

/// How long activation waits for the database URL, in seconds.
pub const DEPENDENCY_TIMEOUT_SECONDS: u64 = 10;

/// The PostgreSQL kit's account of an operation that failed.
#[verifier::external_type_specification]
#[verifier::external_body]
pub struct ExPostgresKitError(PostgresKitError);

/// Explicit schema administration for Legal Hold storage.
#[derive(Clone, Copy, Debug, Default)]
pub struct LegalHoldOperator;

/// Why schema administration failed: before the database was reached, because
/// there is no plan for the schema, or there.
#[derive(Debug)]
pub enum LegalHoldOperatorError {
    Plan(PlanError),
    Postgres(PostgresKitError),
}

impl LegalHoldOperator {
    /// The plan that setup and upgrade carry out on a schema.
    pub fn plan(schema: &str, migrations: &'static [Migration]) -> (plan: Result<
        SchemaPlan,
        LegalHoldOperatorError,
    >)
        ensures
            match authored_plan(schema@, migrations@) {
                Ok(authored) => plan == Ok::<SchemaPlan, LegalHoldOperatorError>(authored),
                Err(error) => plan == Err::<SchemaPlan, LegalHoldOperatorError>(
                    LegalHoldOperatorError::Plan(error),
                ),
            },
    {
        match schema_plan(schema, migrations) {
            Ok(plan) => Ok(plan),
            Err(rejection) => Err(LegalHoldOperatorError::Plan(rejection.error)),
        }
    }
}

/// The plan with which activation opens the configured schema. Where there is
/// none, the fault says why in the kit's own words.
pub fn activation_plan(config: &LegalHoldConfig, migrations: &'static [Migration]) -> (plan: Result<
    SchemaPlan,
    RuntimeFault,
>)
    ensures
        match authored_plan(config.schema@, migrations@) {
            Ok(authored) => plan == Ok::<SchemaPlan, RuntimeFault>(authored),
            Err(error) => plan matches Err(fault) && fault@
                == (RuntimeFaultModel::InvalidResolvedPlan { detail: plan_error_message(error) }),
        },
{
    match schema_plan(config.schema.as_str(), migrations) {
        Ok(plan) => Ok(plan),
        Err(rejection) => Err(
            RuntimeFault::InvalidResolvedPlan { detail: plan_error_text(&rejection.error) },
        ),
    }
}

/// The fault of an activation that did not get the database URL. A failure of the
/// Kernel is passed on; without one, the secret was rejected.
pub open spec fn secret_failure(
    reference: Text,
    failure: Option<lenso_kernel::RuntimeFailure>,
) -> RuntimeFaultModel {
    match failure {
        Some(failure) => RuntimeFaultModel::Kernel(failure),
        None => RuntimeFaultModel::PluginFailure {
            detail: "database URL secret `"@ + reference + "` was rejected"@,
        },
    }
}

/// Reports that the database URL could not be resolved.
pub fn secret_fault(reference: &str, failure: Option<lenso_kernel::RuntimeFailure>) -> (fault:
    RuntimeFault)
    ensures
        fault@ == secret_failure(reference@, failure),
{
    match failure {
        Some(failure) => RuntimeFault::Kernel(failure),
        None => {
            let mut detail = text_of("database URL secret `");
            detail.append(reference);
            detail.append("` was rejected");
            RuntimeFault::PluginFailure { detail }
        },
    }
}

/// A failure of the Kernel is passed on as it is; a secret that was rejected is reported
/// by its reference.
pub proof fn unresolved_secrets_are_reported(
    reference: Text,
    failure: Option<lenso_kernel::RuntimeFailure>,
)
    ensures
        failure matches Some(failure) ==> secret_failure(reference, Some(failure))
            == RuntimeFaultModel::Kernel(failure),
        failure is None ==> (secret_failure(reference, failure) matches
            RuntimeFaultModel::PluginFailure { detail } && detail == "database URL secret `"@
            + reference + "` was rejected"@),
{
}

} // verus!
