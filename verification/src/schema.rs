//! The PostgreSQL schema that the Plugin owns.
use vstd::prelude::*;
use lenso_postgres_kit::{Migration, PlanError, SchemaPlan};
use crate::text::Text;

verus! {

/// The authored plan of an owned schema, as the PostgreSQL kit holds it.
#[verifier::external_type_specification]
#[verifier::external_body]
pub struct ExSchemaPlan(SchemaPlan);

/// The PostgreSQL kit's account of a plan that cannot be used.
#[verifier::external_type_specification]
#[verifier::external_body]
pub struct ExPlanError(PlanError);

/// One authored migration.
#[verifier::external_type_specification]
#[verifier::external_body]
pub struct ExMigration(Migration);

/// A plan that the kit declined.
#[derive(Debug, PartialEq, Eq)]
pub struct PlanRejection {
    /// Whether the schema name is what the kit declined.
    pub schema_name: bool,
    /// The kit's own account.
    pub error: PlanError,
}

/// A name that the PostgreSQL kit lets a Plugin own: 1 to 63 lower-case ASCII
/// letters, digits and underscores, starting with a letter, and neither a
/// shared nor a reserved schema.
pub open spec fn owned_schema_name(schema: Text) -> bool {
    &&& 0 < schema.len() <= 63
    &&& 'a' <= schema[0] <= 'z'
    &&& forall|i: int|
        0 <= i < schema.len() ==> {
            let c = #[trigger] schema[i];
            'a' <= c <= 'z' || '0' <= c <= '9' || c == '_'
        }
    &&& schema != "public"@
    &&& schema != "information_schema"@
    &&& !"pg_"@.is_prefix_of(schema)
}

/// The plan for a schema name and authored migrations, or why the kit declines
/// them.
pub uninterp spec fn authored_plan(schema: Text, migrations: Seq<Migration>) -> Result<
    SchemaPlan,
    PlanError,
>;

/// `SchemaPlan::new` declines a schema name that a Plugin may not own before it
/// looks at the migrations, and for no other reason on account of the name.
#[verifier::external_body]
pub(crate) fn schema_plan(schema: &str, migrations: &'static [Migration]) -> (plan: Result<
    SchemaPlan,
    PlanRejection,
>)
    ensures
        match plan {
            Ok(plan) => {
                &&& authored_plan(schema@, migrations@) == Ok::<SchemaPlan, PlanError>(plan)
                &&& owned_schema_name(schema@)
            },
            Err(rejection) => {
                &&& authored_plan(schema@, migrations@) == Err::<SchemaPlan, PlanError>(
                    rejection.error,
                )
                &&& rejection.schema_name == !owned_schema_name(schema@)
            },
        },
{
    SchemaPlan::new(schema, migrations).map_err(|error| {
        let schema_name = matches!(error, PlanError::InvalidSchemaName { .. });
        PlanRejection { schema_name, error }
    })
}

/// The words in which the kit says why it declined a plan.
pub uninterp spec fn plan_error_message(error: PlanError) -> Text;

/// `PlanError` displays itself in words that depend on the error alone.
#[verifier::external_body]
pub(crate) fn plan_error_text(error: &PlanError) -> (message: String)
    ensures
        message@ == plan_error_message(*error),
{
    error.to_string()
}

/// Whether a Plugin may own a schema of this name.
pub fn schema_name_is_owned(schema: &str) -> (answer: bool)
    ensures
        answer == owned_schema_name(schema@),
{
    match schema_plan(schema, &[]) {
        Ok(_) => true,
        Err(rejection) => !rejection.schema_name,
    }
}

} // verus!
