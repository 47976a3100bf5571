//! Who may administer holds.
//!
//! An administrative request is granted to a configured caller Instance whose
//! actor is authenticated for the exact operation, is an active member of the
//! organization, and holds the permission that the operation needs. The four
//! checks run in that order, and whatever else happens, nothing is granted.
use vstd::prelude::*;
use crate::config::LegalHoldConfig;
use crate::failure::{RuntimeFault, RuntimeFaultModel};
use crate::text::{id_is_valid, optional_text, text_is_valid, text_of, texts, valid_id, Text};

verus! {

/// The caller is known and is exactly one of the allowed Instances.
pub open spec fn is_allowed(caller_instance: Option<Text>, allowed: Seq<Text>) -> bool {
    match caller_instance {
        Some(caller) => allowed.contains(caller),
        None => false,
    }
}

/// The caller, where it is exactly one of the allowed Instances.
pub fn allowed_caller(caller_instance: &Option<String>, allowed: &Vec<String>) -> (caller: Option<
    String,
>)
    ensures
        optional_text(caller) == if is_allowed(optional_text(*caller_instance), texts(allowed@)) {
            optional_text(*caller_instance)
        } else {
            None
        },
        caller is Some <==> (caller_instance matches Some(known) && exists|i: int|
            0 <= i < allowed@.len() && (#[trigger] allowed@[i])@ == known@),
{
    let caller = match caller_instance {
        Some(caller) => caller,
        None => {
            return None;
        },
    };
    let ghost names = texts(allowed@);
    let mut i: usize = 0;
    while i < allowed.len()
        invariant
            i <= allowed.len(),
            names == texts(allowed@),
            optional_text(*caller_instance) == Some(caller@),
            forall|j: int| 0 <= j < i ==> names[j] != caller@,
        decreases allowed.len() - i,
    {
        if allowed[i] == *caller {
            assert(names[i as int] == caller@);
            assert(names.contains(caller@));
            return Some(caller.clone());
        }
        i += 1;
    }
    assert forall|j: int| 0 <= j < allowed@.len() implies (#[trigger] allowed@[j])@
        != caller@ by {
        assert(names[j] == allowed@[j]@);
    }
    None
}

/// The capability for which the actor must be authenticated.
pub const CAPABILITY_ID: &'static str = "lenso.legal-hold@1";

/// The kind of the scope in which permissions are held.
pub const PERMISSION_SCOPE: &'static str = "organization";

/// What is asked for: an operation on an organization, and the permission that
/// the operation needs.
#[derive(Debug, PartialEq, Eq)]
pub struct Authorization {
    pub operation: String,
    pub organization_id: String,
    pub permission: String,
}

/// What an [`Authorization`] says.
#[verifier::ext_equal]
pub struct AuthorizationModel {
    pub operation: Text,
    pub organization_id: Text,
    pub permission: Text,
}

impl View for Authorization {
    type V = AuthorizationModel;

    open spec fn view(&self) -> AuthorizationModel {
        AuthorizationModel {
            operation: self.operation@,
            organization_id: self.organization_id@,
            permission: self.permission@,
        }
    }
}

/// One question to a dependency.
#[derive(Debug, PartialEq, Eq)]
pub enum DependencyQuery {
    /// Who is the actor whose assertion is bound to this operation?
    Authenticate { capability_id: String, operation: String },
    /// Is the subject an active member of the organization?
    CheckMembership { organization_id: String, subject: String },
    /// Does the subject hold the permission in the scope?
    CheckPermission { subject: String, scope_kind: String, scope_id: String, permission: String },
}

/// What a [`DependencyQuery`] says.
#[verifier::ext_equal]
pub enum DependencyQueryModel {
    Authenticate { capability_id: Text, operation: Text },
    CheckMembership { organization_id: Text, subject: Text },
    CheckPermission { subject: Text, scope_kind: Text, scope_id: Text, permission: Text },
}

impl View for DependencyQuery {
    type V = DependencyQueryModel;

    open spec fn view(&self) -> DependencyQueryModel {
        match *self {
            DependencyQuery::Authenticate { capability_id, operation } =>
                DependencyQueryModel::Authenticate {
                capability_id: capability_id@,
                operation: operation@,
            },
            DependencyQuery::CheckMembership { organization_id, subject } =>
                DependencyQueryModel::CheckMembership {
                organization_id: organization_id@,
                subject: subject@,
            },
            DependencyQuery::CheckPermission { subject, scope_kind, scope_id, permission } =>
                DependencyQueryModel::CheckPermission {
                subject: subject@,
                scope_kind: scope_kind@,
                scope_id: scope_id@,
                permission: permission@,
            },
        }
    }
}

/// What a dependency answers.
#[derive(Debug, PartialEq, Eq)]
pub enum DependencyReply {
    /// The subject of a valid assertion, if there is one.
    Subject(Option<String>),
    /// Yes or no.
    Answer(bool),
    /// The dependency refused the query.
    Rejected,
    /// The query did not reach an answer.
    Failed(lenso_kernel::RuntimeFailure),
}

/// What a [`DependencyReply`] says.
#[verifier::ext_equal]
pub enum DependencyReplyModel {
    Subject(Option<Text>),
    Answer(bool),
    Rejected,
    Failed(lenso_kernel::RuntimeFailure),
}

impl View for DependencyReply {
    type V = DependencyReplyModel;

    open spec fn view(&self) -> DependencyReplyModel {
        match *self {
            DependencyReply::Subject(subject) => DependencyReplyModel::Subject(
                optional_text(subject),
            ),
            DependencyReply::Answer(answer) => DependencyReplyModel::Answer(answer),
            DependencyReply::Rejected => DependencyReplyModel::Rejected,
            DependencyReply::Failed(failure) => DependencyReplyModel::Failed(failure),
        }
    }
}

/// The caller Instance and the actor to whom a request was granted.
#[derive(Debug, PartialEq, Eq)]
pub struct Grant {
    pub caller: String,
    pub actor: String,
}

/// What a [`Grant`] says.
#[verifier::ext_equal]
pub struct GrantModel {
    pub caller: Text,
    pub actor: Text,
}

impl View for Grant {
    type V = GrantModel;

    open spec fn view(&self) -> GrantModel {
        GrantModel { caller: self.caller@, actor: self.actor@ }
    }
}

/// Why a request was not granted.
#[derive(Debug, PartialEq, Eq)]
pub enum AuthorizationFailure {
    Unauthenticated,
    Forbidden,
    Runtime(RuntimeFault),
}

/// What an [`AuthorizationFailure`] says.
#[verifier::ext_equal]
pub enum AuthorizationFailureModel {
    Unauthenticated,
    Forbidden,
    Runtime(RuntimeFaultModel),
}

impl View for AuthorizationFailure {
    type V = AuthorizationFailureModel;

    open spec fn view(&self) -> AuthorizationFailureModel {
        match *self {
            AuthorizationFailure::Unauthenticated => AuthorizationFailureModel::Unauthenticated,
            AuthorizationFailure::Forbidden => AuthorizationFailureModel::Forbidden,
            AuthorizationFailure::Runtime(fault) => AuthorizationFailureModel::Runtime(fault@),
        }
    }
}

/// How far an authorization has come: what it waits for.
#[derive(Debug, PartialEq, Eq)]
pub enum AuthorizationPhase {
    Authenticate { caller: String },
    Membership(Grant),
    Permission(Grant),
}

/// What an [`AuthorizationPhase`] says.
#[verifier::ext_equal]
pub enum AuthorizationPhaseModel {
    Authenticate { caller: Text },
    Membership(GrantModel),
    Permission(GrantModel),
}

impl View for AuthorizationPhase {
    type V = AuthorizationPhaseModel;

    open spec fn view(&self) -> AuthorizationPhaseModel {
        match *self {
            AuthorizationPhase::Authenticate { caller } => AuthorizationPhaseModel::Authenticate {
                caller: caller@,
            },
            AuthorizationPhase::Membership(grant) => AuthorizationPhaseModel::Membership(grant@),
            AuthorizationPhase::Permission(grant) => AuthorizationPhaseModel::Permission(grant@),
        }
    }
}

/// What comes next in an authorization.
#[derive(Debug, PartialEq, Eq)]
pub enum AuthorizationStep {
    Ask(AuthorizationPhase, DependencyQuery),
    Granted(Grant),
    Refused(AuthorizationFailure),
}

/// What an [`AuthorizationStep`] says.
#[verifier::ext_equal]
pub enum AuthorizationStepModel {
    Ask(AuthorizationPhaseModel, DependencyQueryModel),
    Granted(GrantModel),
    Refused(AuthorizationFailureModel),
}

impl View for AuthorizationStep {
    type V = AuthorizationStepModel;

    open spec fn view(&self) -> AuthorizationStepModel {
        match *self {
            AuthorizationStep::Ask(phase, query) => AuthorizationStepModel::Ask(phase@, query@),
            AuthorizationStep::Granted(grant) => AuthorizationStepModel::Granted(grant@),
            AuthorizationStep::Refused(failure) => AuthorizationStepModel::Refused(failure@),
        }
    }
}

impl AuthorizationModel {
    /// Asks who the actor is.
    pub open spec fn authenticate(self) -> DependencyQueryModel {
        DependencyQueryModel::Authenticate {
            capability_id: CAPABILITY_ID@,
            operation: self.operation,
        }
    }

    /// Asks whether the actor is a member.
    pub open spec fn check_membership(self, actor: Text) -> DependencyQueryModel {
        DependencyQueryModel::CheckMembership {
            organization_id: self.organization_id,
            subject: actor,
        }
    }

    /// Asks whether the actor holds the permission.
    pub open spec fn check_permission(self, actor: Text) -> DependencyQueryModel {
        DependencyQueryModel::CheckPermission {
            subject: actor,
            scope_kind: PERMISSION_SCOPE@,
            scope_id: self.organization_id,
            permission: self.permission,
        }
    }
}

/// How an authorization begins: a caller that is not configured is refused
/// before anyone is asked anything.
pub open spec fn authorization_start(
    authorization: AuthorizationModel,
    caller_instance: Option<Text>,
    admin_callers: Seq<Text>,
) -> AuthorizationStepModel {
    if is_allowed(caller_instance, admin_callers) {
        AuthorizationStepModel::Ask(
            AuthorizationPhaseModel::Authenticate { caller: caller_instance->0 },
            authorization.authenticate(),
        )
    } else {
        AuthorizationStepModel::Refused(AuthorizationFailureModel::Forbidden)
    }
}

/// A dependency that refused a query, or a reply that is not an answer to it, is
/// a failure of the Plugin; a failure of the Kernel is passed on.
pub open spec fn unanswered(reply: DependencyReplyModel, detail: Text) -> AuthorizationStepModel {
    AuthorizationStepModel::Refused(
        AuthorizationFailureModel::Runtime(
            match reply {
                DependencyReplyModel::Failed(failure) => RuntimeFaultModel::Kernel(failure),
                _ => RuntimeFaultModel::PluginFailure { detail },
            },
        ),
    )
}

/// What an authorization does on the reply of a dependency.
pub open spec fn authorization_next(
    authorization: AuthorizationModel,
    phase: AuthorizationPhaseModel,
    reply: DependencyReplyModel,
) -> AuthorizationStepModel {
    match phase {
        AuthorizationPhaseModel::Authenticate { caller } => match reply {
            DependencyReplyModel::Subject(Some(actor)) if id_is_valid(actor) =>
                AuthorizationStepModel::Ask(
                AuthorizationPhaseModel::Membership(GrantModel { caller, actor }),
                authorization.check_membership(actor),
            ),
            _ => AuthorizationStepModel::Refused(AuthorizationFailureModel::Unauthenticated),
        },
        AuthorizationPhaseModel::Membership(grant) => match reply {
            DependencyReplyModel::Answer(true) => AuthorizationStepModel::Ask(
                AuthorizationPhaseModel::Permission(grant),
                authorization.check_permission(grant.actor),
            ),
            DependencyReplyModel::Answer(false) => AuthorizationStepModel::Refused(
                AuthorizationFailureModel::Forbidden,
            ),
            _ => unanswered(
                reply,
                "Organization Membership rejected a Legal Hold authorization query"@,
            ),
        },
        AuthorizationPhaseModel::Permission(grant) => match reply {
            DependencyReplyModel::Answer(true) => AuthorizationStepModel::Granted(grant),
            DependencyReplyModel::Answer(false) => AuthorizationStepModel::Refused(
                AuthorizationFailureModel::Forbidden,
            ),
            _ => unanswered(reply, "Access Control rejected a Legal Hold authorization query"@),
        },
    }
}

/// An authorization begins by asking who the actor of the operation is, for a caller
/// that is on the list; another caller is refused at once.
pub proof fn authorizations_begin_with_the_actor(
    authorization: AuthorizationModel,
    caller_instance: Option<Text>,
    admin_callers: Seq<Text>,
)
    ensures
        ({
            let step = authorization_start(authorization, caller_instance, admin_callers);
            match caller_instance {
                Some(caller) if admin_callers.contains(caller) => step
                    == AuthorizationStepModel::Ask(
                    AuthorizationPhaseModel::Authenticate { caller },
                    DependencyQueryModel::Authenticate {
                        capability_id: "lenso.legal-hold@1"@,
                        operation: authorization.operation,
                    },
                ),
                _ => step == AuthorizationStepModel::Refused(AuthorizationFailureModel::Forbidden),
            }
        }),
{
}

/// Only a subject of up to 512 bytes is taken for the actor; then the actor must be a
/// member of the organization, and then hold the permission there. A no forbids the
/// request, a failure of the Kernel is passed on, and anything else is a failure of the
/// Plugin that names the dependency.
pub proof fn grants_take_an_actor_a_membership_and_a_permission(
    authorization: AuthorizationModel,
    phase: AuthorizationPhaseModel,
    reply: DependencyReplyModel,
)
    ensures
        ({
            let step = authorization_next(authorization, phase, reply);
            let refused = |failure: AuthorizationFailureModel|
                step == AuthorizationStepModel::Refused(failure);
            let failed = |fault: RuntimeFaultModel|
                refused(AuthorizationFailureModel::Runtime(fault));
            match phase {
                AuthorizationPhaseModel::Authenticate { caller } => match reply {
                    DependencyReplyModel::Subject(Some(actor)) => {
                        &&& text_is_valid(actor, 512, false) ==> step
                            == AuthorizationStepModel::Ask(
                            AuthorizationPhaseModel::Membership(GrantModel { caller, actor }),
                            DependencyQueryModel::CheckMembership {
                                organization_id: authorization.organization_id,
                                subject: actor,
                            },
                        )
                        &&& !text_is_valid(actor, 512, false) ==> refused(
                            AuthorizationFailureModel::Unauthenticated,
                        )
                    },
                    _ => refused(AuthorizationFailureModel::Unauthenticated),
                },
                AuthorizationPhaseModel::Membership(grant) => match reply {
                    DependencyReplyModel::Answer(is_member) => {
                        &&& is_member ==> step == AuthorizationStepModel::Ask(
                            AuthorizationPhaseModel::Permission(grant),
                            DependencyQueryModel::CheckPermission {
                                subject: grant.actor,
                                scope_kind: "organization"@,
                                scope_id: authorization.organization_id,
                                permission: authorization.permission,
                            },
                        )
                        &&& !is_member ==> refused(AuthorizationFailureModel::Forbidden)
                    },
                    DependencyReplyModel::Failed(failure) => failed(
                        RuntimeFaultModel::Kernel(failure),
                    ),
                    _ => failed(
                        RuntimeFaultModel::PluginFailure {
                            detail:
                                "Organization Membership rejected a Legal Hold authorization query"@,
                        },
                    ),
                },
                AuthorizationPhaseModel::Permission(grant) => match reply {
                    DependencyReplyModel::Answer(holds_permission) => {
                        &&& holds_permission ==> step == AuthorizationStepModel::Granted(grant)
                        &&& !holds_permission ==> refused(AuthorizationFailureModel::Forbidden)
                    },
                    DependencyReplyModel::Failed(failure) => failed(
                        RuntimeFaultModel::Kernel(failure),
                    ),
                    _ => failed(
                        RuntimeFaultModel::PluginFailure {
                            detail: "Access Control rejected a Legal Hold authorization query"@,
                        },
                    ),
                },
            }
        }),
{
}

fn refuse_unanswered(reply: DependencyReply, detail: &str) -> (step: AuthorizationStep)
    ensures
        step@ == unanswered(reply@, detail@),
{
    AuthorizationStep::Refused(
        AuthorizationFailure::Runtime(
            match reply {
                DependencyReply::Failed(failure) => RuntimeFault::Kernel(failure),
                _ => RuntimeFault::PluginFailure { detail: text_of(detail) },
            },
        ),
    )
}

impl Authorization {
    /// Begins the authorization of a request.
    pub fn start(&self, config: &LegalHoldConfig, caller_instance: &Option<String>) -> (step:
        AuthorizationStep)
        ensures
            step@ == authorization_start(
                self@,
                optional_text(*caller_instance),
                texts(config.admin_callers@),
            ),
            step is Ask <==> (caller_instance matches Some(caller) && exists|i: int|
                0 <= i < config.admin_callers@.len() && (#[trigger] config.admin_callers@[i])@
                    == caller@),
    {
        match allowed_caller(caller_instance, &config.admin_callers) {
            Some(caller) => AuthorizationStep::Ask(
                AuthorizationPhase::Authenticate { caller },
                DependencyQuery::Authenticate {
                    capability_id: text_of(CAPABILITY_ID),
                    operation: self.operation.clone(),
                },
            ),
            None => AuthorizationStep::Refused(AuthorizationFailure::Forbidden),
        }
    }

    fn after_authentication(&self, caller: String, reply: DependencyReply) -> (step:
        AuthorizationStep)
        ensures
            step@ == authorization_next(
                self@,
                AuthorizationPhaseModel::Authenticate { caller: caller@ },
                reply@,
            ),
    {
        match reply {
            DependencyReply::Subject(Some(actor)) => if valid_id(actor.as_str()) {
                let query = DependencyQuery::CheckMembership {
                    organization_id: self.organization_id.clone(),
                    subject: actor.clone(),
                };
                AuthorizationStep::Ask(
                    AuthorizationPhase::Membership(Grant { caller, actor }),
                    query,
                )
            } else {
                AuthorizationStep::Refused(AuthorizationFailure::Unauthenticated)
            },
            _ => AuthorizationStep::Refused(AuthorizationFailure::Unauthenticated),
        }
    }

    /// Decides on the reply of a dependency what comes next.
    pub fn next(&self, phase: AuthorizationPhase, reply: DependencyReply) -> (step:
        AuthorizationStep)
        ensures
            step@ == authorization_next(self@, phase@, reply@),
    {
        match phase {
            AuthorizationPhase::Authenticate { caller } => self.after_authentication(caller, reply),
            AuthorizationPhase::Membership(grant) => match reply {
                DependencyReply::Answer(true) => {
                    let query = DependencyQuery::CheckPermission {
                        subject: grant.actor.clone(),
                        scope_kind: text_of(PERMISSION_SCOPE),
                        scope_id: self.organization_id.clone(),
                        permission: self.permission.clone(),
                    };
                    AuthorizationStep::Ask(AuthorizationPhase::Permission(grant), query)
                },
                DependencyReply::Answer(false) => AuthorizationStep::Refused(
                    AuthorizationFailure::Forbidden,
                ),
                reply => refuse_unanswered(
                    reply,
                    "Organization Membership rejected a Legal Hold authorization query",
                ),
            },
            AuthorizationPhase::Permission(grant) => match reply {
                DependencyReply::Answer(true) => AuthorizationStep::Granted(grant),
                DependencyReply::Answer(false) => AuthorizationStep::Refused(
                    AuthorizationFailure::Forbidden,
                ),
                reply => refuse_unanswered(
                    reply,
                    "Access Control rejected a Legal Hold authorization query",
                ),
            },
        }
    }
}

} // verus!
