//! Immutable configuration of one Legal Hold Plugin Instance.
use vstd::prelude::*;
use vstd::string::*;
use lenso_auth_sdk::{ActorAssertionVerifier, AssertionValidationError};
use crate::failure::{RuntimeFault, RuntimeFaultModel};
use crate::schema::{owned_schema_name, schema_name_is_owned};
use crate::text::{
    identifier_is_valid, is_white_space, text_is_valid, text_of, texts, valid_identifier, Text,
    MAX_IDENTIFIER_BYTES,
};

verus! {

/// The most callers that one list may name.
pub const MAX_CALLERS: usize = 64;

/// Verification-only assertion authority, as the Auth SDK holds it.
#[verifier::external_type_specification]
#[verifier::external_body]
pub struct ExActorAssertionVerifier(ActorAssertionVerifier);

/// The Auth SDK's account of a rejected key or assertion.
#[verifier::external_type_specification]
#[verifier::external_body]
pub struct ExAssertionValidationError(AssertionValidationError);

/// The verifier for an issuer and a URL-safe base64 Ed25519 public key, where
/// the key is well formed.
pub uninterp spec fn assertion_verifier(issuer: Text, public_key: Text) -> Option<
    ActorAssertionVerifier,
>;

/// `ActorAssertionVerifier::from_public_key_base64` accepts a well-formed key
/// and then verifies for the given issuer. What it returns depends on the two
/// texts alone.
#[verifier::external_body]
fn verifier_for(issuer: String, public_key: &str) -> (outcome: Result<
    ActorAssertionVerifier,
    AssertionValidationError,
>)
    ensures
        match outcome {
            Ok(authority) => assertion_verifier(issuer@, public_key@) == Some(authority),
            Err(_) => assertion_verifier(issuer@, public_key@) is None,
        },
{
    ActorAssertionVerifier::from_public_key_base64(issuer, public_key)
}

/// A caller list is neither empty nor too long, and names each exact Instance
/// key once.
pub open spec fn callers_are_valid(callers: Seq<Text>) -> bool {
    &&& 0 < callers.len() <= MAX_CALLERS
    &&& forall|i: int|
        0 <= i < callers.len() ==> identifier_is_valid(
            #[trigger] callers[i],
            MAX_IDENTIFIER_BYTES as nat,
        )
    &&& callers.no_duplicates()
}

/// Invalid immutable Legal Hold configuration.
#[derive(Clone, Copy, Debug, PartialEq, Eq, Structural)]
pub enum LegalHoldConfigError {
    InvalidSchema,
    InvalidSecretReference,
    InvalidAuthIssuer,
    InvalidAuthPublicKey,
    InvalidAdminCallers,
    InvalidGuardCallers,
}

/// The message of a configuration error.
pub open spec fn config_error_message(error: LegalHoldConfigError) -> Text {
    match error {
        LegalHoldConfigError::InvalidSchema => "invalid owned PostgreSQL schema"@,
        LegalHoldConfigError::InvalidSecretReference => "invalid database URL secret reference"@,
        LegalHoldConfigError::InvalidAuthIssuer => "invalid Auth issuer"@,
        LegalHoldConfigError::InvalidAuthPublicKey => "invalid Auth assertion public key"@,
        LegalHoldConfigError::InvalidAdminCallers =>
            "admin_callers must contain unique exact Instance keys"@,
        LegalHoldConfigError::InvalidGuardCallers =>
            "guard_callers must contain unique exact Instance keys"@,
    }
}

impl LegalHoldConfigError {
    /// The message of this error.
    pub fn message(&self) -> (message: &'static str)
        ensures
            message@ == config_error_message(*self),
    {
        match self {
            LegalHoldConfigError::InvalidSchema => "invalid owned PostgreSQL schema",
            LegalHoldConfigError::InvalidSecretReference => "invalid database URL secret reference",
            LegalHoldConfigError::InvalidAuthIssuer => "invalid Auth issuer",
            LegalHoldConfigError::InvalidAuthPublicKey => "invalid Auth assertion public key",
            LegalHoldConfigError::InvalidAdminCallers =>
                "admin_callers must contain unique exact Instance keys",
            LegalHoldConfigError::InvalidGuardCallers =>
                "guard_callers must contain unique exact Instance keys",
        }
    }
}

/// Immutable configuration for one Legal Hold Plugin Instance.
#[derive(Clone, Debug, PartialEq, Eq)]
pub struct LegalHoldConfig {
    pub schema: String,
    pub database_url_secret: String,
    pub auth_issuer: String,
    pub auth_assertion_public_key: String,
    pub admin_callers: Vec<String>,
    pub guard_callers: Vec<String>,
}

impl LegalHoldConfig {
    /// The first thing that is wrong with the configuration, in the order in
    /// which it is examined.
    pub open spec fn flaw(self) -> Option<LegalHoldConfigError> {
        if !owned_schema_name(self.schema@) {
            Some(LegalHoldConfigError::InvalidSchema)
        } else if !identifier_is_valid(self.database_url_secret@, MAX_IDENTIFIER_BYTES as nat) {
            Some(LegalHoldConfigError::InvalidSecretReference)
        } else if !identifier_is_valid(self.auth_issuer@, MAX_IDENTIFIER_BYTES as nat) {
            Some(LegalHoldConfigError::InvalidAuthIssuer)
        } else if assertion_verifier(self.auth_issuer@, self.auth_assertion_public_key@) is None {
            Some(LegalHoldConfigError::InvalidAuthPublicKey)
        } else if !callers_are_valid(texts(self.admin_callers@)) {
            Some(LegalHoldConfigError::InvalidAdminCallers)
        } else if !callers_are_valid(texts(self.guard_callers@)) {
            Some(LegalHoldConfigError::InvalidGuardCallers)
        } else {
            None
        }
    }

    /// A configuration with nothing wrong with it.
    pub open spec fn well_formed(self) -> bool {
        self.flaw() is None
    }

    /// Creates and validates Legal Hold configuration.
    pub fn new(
        schema: String,
        database_url_secret: String,
        auth_issuer: String,
        auth_assertion_public_key: String,
        admin_callers: Vec<String>,
        guard_callers: Vec<String>,
    ) -> (config: Result<Self, LegalHoldConfigError>)
        ensures
            ({
                let given = LegalHoldConfig {
                    schema,
                    database_url_secret,
                    auth_issuer,
                    auth_assertion_public_key,
                    admin_callers,
                    guard_callers,
                };
                config == match given.flaw() {
                    None => Ok::<LegalHoldConfig, LegalHoldConfigError>(given),
                    Some(flaw) => Err(flaw),
                }
            }),
            config matches Ok(config) ==> config.well_formed(),
    {
        let config = LegalHoldConfig {
            schema,
            database_url_secret,
            auth_issuer,
            auth_assertion_public_key,
            admin_callers,
            guard_callers,
        };
        match config.validate() {
            Ok(()) => Ok(config),
            Err(flaw) => Err(flaw),
        }
    }

    /// Reports the first thing that is wrong with the configuration.
    pub fn validate(&self) -> (verdict: Result<(), LegalHoldConfigError>)
        ensures
            verdict == match self.flaw() {
                None => Ok::<(), LegalHoldConfigError>(()),
                Some(flaw) => Err(flaw),
            },
    {
        if !schema_name_is_owned(self.schema.as_str()) {
            return Err(LegalHoldConfigError::InvalidSchema);
        }
        if !valid_identifier(self.database_url_secret.as_str(), MAX_IDENTIFIER_BYTES) {
            return Err(LegalHoldConfigError::InvalidSecretReference);
        }
        if !valid_identifier(self.auth_issuer.as_str(), MAX_IDENTIFIER_BYTES) {
            return Err(LegalHoldConfigError::InvalidAuthIssuer);
        }
        if verifier_for(
            self.auth_issuer.clone(),
            self.auth_assertion_public_key.as_str(),
        ).is_err() {
            return Err(LegalHoldConfigError::InvalidAuthPublicKey);
        }
        if validate_callers(&self.admin_callers).is_err() {
            return Err(LegalHoldConfigError::InvalidAdminCallers);
        }
        if validate_callers(&self.guard_callers).is_err() {
            return Err(LegalHoldConfigError::InvalidGuardCallers);
        }
        Ok(())
    }

    /// The assertion authority that the configuration names.
    pub fn auth_verifier(&self) -> (authority: Result<ActorAssertionVerifier, RuntimeFault>)
        ensures
            match assertion_verifier(self.auth_issuer@, self.auth_assertion_public_key@) {
                Some(expected) => authority == Ok::<ActorAssertionVerifier, RuntimeFault>(
                    expected,
                ),
                None => authority matches Err(failure) && failure@
                    == (RuntimeFaultModel::InvalidResolvedPlan {
                    detail: "Legal Hold Auth verification key is invalid"@,
                }),
            },
    {
        match verifier_for(self.auth_issuer.clone(), self.auth_assertion_public_key.as_str()) {
            Ok(authority) => Ok(authority),
            Err(_) => Err(
                RuntimeFault::InvalidResolvedPlan {
                    detail: text_of("Legal Hold Auth verification key is invalid"),
                },
            ),
        }
    }
}

/// Accepts a list of unique exact Instance keys.
pub fn validate_callers(callers: &Vec<String>) -> (verdict: Result<(), ()>)
    ensures
        verdict is Ok == callers_are_valid(texts(callers@)),
{
    let ghost names = texts(callers@);
    if callers.len() == 0 || callers.len() > MAX_CALLERS {
        return Err(());
    }
    let mut i: usize = 0;
    while i < callers.len()
        invariant
            names == texts(callers@),
            i <= callers.len(),
            0 < callers.len() <= MAX_CALLERS,
            forall|k: int|
                0 <= k < i ==> identifier_is_valid(
                    #[trigger] names[k],
                    MAX_IDENTIFIER_BYTES as nat,
                ),
            forall|k: int, l: int| 0 <= k < l < i ==> names[k] != names[l],
        decreases callers.len() - i,
    {
        if !valid_identifier(callers[i].as_str(), MAX_IDENTIFIER_BYTES) {
            assert(!identifier_is_valid(names[i as int], MAX_IDENTIFIER_BYTES as nat));
            return Err(());
        }
        let mut j: usize = 0;
        while j < i
            invariant
                names == texts(callers@),
                j <= i < callers.len(),
                forall|k: int| 0 <= k < j ==> names[k] != names[i as int],
            decreases i - j,
        {
            if callers[j] == callers[i] {
                assert(names[j as int] == names[i as int]);
                return Err(());
            }
            j += 1;
        }
        i += 1;
    }
    Ok(())
}

/// How a configuration that cannot be used is reported.
pub open spec fn configuration_fault(config: LegalHoldConfig) -> Option<RuntimeFaultModel> {
    match config.flaw() {
        None => None,
        Some(flaw) => Some(
            RuntimeFaultModel::InvalidResolvedPlan {
                detail: "Legal Hold configuration is invalid: "@ + config_error_message(flaw),
            },
        ),
    }
}

/// A configuration is reported exactly when something is wrong with it, as a plan that
/// cannot be used, with the message of what is wrong.
pub proof fn flawed_configurations_are_reported(config: LegalHoldConfig)
    ensures
        configuration_fault(config) is Some <==> !config.well_formed(),
        config.flaw() matches Some(flaw) ==> (configuration_fault(config) matches Some(
            RuntimeFaultModel::InvalidResolvedPlan { detail },
        ) && detail == "Legal Hold configuration is invalid: "@ + config_error_message(flaw)),
{
}

/// Validates the configuration that a Host resolved for this Plugin.
pub fn validate_config(config: &LegalHoldConfig) -> (verdict: Result<(), RuntimeFault>)
    ensures
        match config.flaw() {
            None => verdict is Ok,
            Some(flaw) => verdict matches Err(failure) && failure@
                == (RuntimeFaultModel::InvalidResolvedPlan {
                detail: "Legal Hold configuration is invalid: "@ + config_error_message(flaw),
            }),
        },
        match verdict {
            Ok(()) => configuration_fault(*config) is None,
            Err(failure) => configuration_fault(*config) == Some(failure@),
        },
{
    match config.validate() {
        Ok(()) => Ok(()),
        Err(flaw) => {
            let mut detail = text_of("Legal Hold configuration is invalid: ");
            detail.append(flaw.message());
            Err(RuntimeFault::InvalidResolvedPlan { detail })
        },
    }
}

/// A configuration is accepted exactly when it names a schema that a Plugin may own, a
/// secret and an issuer of up to 256 bytes without white space, a key that verifies for
/// that issuer, and two lists of 1 to 64 callers, each an identifier of that kind and
/// none named twice.
pub proof fn configurations_are_accepted_within_bounds(config: LegalHoldConfig)
    ensures
        config.well_formed() <==> {
            let is_key = |text: Text|
                {
                    &&& text_is_valid(text, 256, false)
                    &&& forall|i: int| 0 <= i < text.len() ==> !is_white_space(#[trigger] text[i])
                };
            let is_list = |callers: Vec<String>|
                {
                    &&& 1 <= callers@.len() <= 64
                    &&& forall|i: int| 0 <= i < callers@.len() ==> is_key((#[trigger] callers@[i])@)
                    &&& forall|i: int, j: int|
                        0 <= i < j < callers@.len() ==> (#[trigger] callers@[i])@ != (
                        #[trigger] callers@[j])@
                };
            &&& owned_schema_name(config.schema@)
            &&& is_key(config.database_url_secret@)
            &&& is_key(config.auth_issuer@)
            &&& assertion_verifier(config.auth_issuer@, config.auth_assertion_public_key@) is Some
            &&& is_list(config.admin_callers)
            &&& is_list(config.guard_callers)
        },
{
    lemma_caller_lists(config.admin_callers);
    lemma_caller_lists(config.guard_callers);
}

proof fn lemma_caller_lists(callers: Vec<String>)
    ensures
        callers_are_valid(texts(callers@)) <==> {
            &&& 1 <= callers@.len() <= 64
            &&& forall|i: int|
                0 <= i < callers@.len() ==> identifier_is_valid((#[trigger] callers@[i])@, 256)
            &&& forall|i: int, j: int|
                0 <= i < j < callers@.len() ==> (#[trigger] callers@[i])@ != (
                #[trigger] callers@[j])@
        },
{
    let names = texts(callers@);
    assert forall|i: int| 0 <= i < callers@.len() implies #[trigger] names[i]
        == callers@[i]@ by {
    }
    if callers_are_valid(names) {
        assert forall|i: int| 0 <= i < callers@.len() implies identifier_is_valid(
            (#[trigger] callers@[i])@,
            256,
        ) by {
            assert(names[i] == callers@[i]@);
        }
        assert forall|i: int, j: int| 0 <= i < j < callers@.len() implies (
        #[trigger] callers@[i])@ != (#[trigger] callers@[j])@ by {
            assert(names[i] != names[j]);
        }
    }
}

/// What is wrong with a configuration is named for what it is, and what is examined
/// before it is in order: the schema, the secret, the issuer, the key, the callers that
/// administer holds, and those that consult the guard.
pub proof fn flaws_are_named_for_what_they_are(config: LegalHoldConfig)
    ensures
        ({
            let schema = owned_schema_name(config.schema@);
            let secret = identifier_is_valid(config.database_url_secret@, 256);
            let issuer = identifier_is_valid(config.auth_issuer@, 256);
            let key = assertion_verifier(
                config.auth_issuer@,
                config.auth_assertion_public_key@,
            ) is Some;
            let admins = callers_are_valid(texts(config.admin_callers@));
            let guards = callers_are_valid(texts(config.guard_callers@));
            let named = |flaw: LegalHoldConfigError| config.flaw() == Some(flaw);
            &&& named(LegalHoldConfigError::InvalidSchema) <==> !schema
            &&& named(LegalHoldConfigError::InvalidSecretReference) <==> schema && !secret
            &&& named(LegalHoldConfigError::InvalidAuthIssuer) <==> schema && secret && !issuer
            &&& named(LegalHoldConfigError::InvalidAuthPublicKey) <==> schema && secret && issuer
                && !key
            &&& named(LegalHoldConfigError::InvalidAdminCallers) <==> schema && secret && issuer
                && key && !admins
            &&& named(LegalHoldConfigError::InvalidGuardCallers) <==> schema && secret && issuer
                && key && admins && !guards
        }),
        config_error_message(LegalHoldConfigError::InvalidSchema)
            == "invalid owned PostgreSQL schema"@,
        config_error_message(LegalHoldConfigError::InvalidSecretReference)
            == "invalid database URL secret reference"@,
        config_error_message(LegalHoldConfigError::InvalidAuthIssuer) == "invalid Auth issuer"@,
        config_error_message(LegalHoldConfigError::InvalidAuthPublicKey)
            == "invalid Auth assertion public key"@,
        config_error_message(LegalHoldConfigError::InvalidAdminCallers)
            == "admin_callers must contain unique exact Instance keys"@,
        config_error_message(LegalHoldConfigError::InvalidGuardCallers)
            == "guard_callers must contain unique exact Instance keys"@,
{
}

} // verus!
