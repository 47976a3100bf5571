//! Runs of administrative requests.
//!
//! A run first authorizes the request, then checks it, and only then works with
//! storage. It asks for one thing at a time, a dependency's answer or a storage
//! statement, and decides on what comes back what it does next.
use vstd::prelude::*;
use crate::authorization::{
    authorization_next, authorization_start, is_allowed, AuthorizationFailure,
    AuthorizationFailureModel, AuthorizationPhase, AuthorizationPhaseModel, AuthorizationStep,
    AuthorizationStepModel, DependencyQuery, DependencyQueryModel, DependencyReply,
    DependencyReplyModel, GrantModel,
};
use crate::command::{
    command_next, Command, CommandModel, CommandPhase, CommandPhaseModel, CommandStep,
    CommandStepModel,
};
use crate::config::LegalHoldConfig;
use crate::digest::sha256;
use crate::failure::{PluginError, PluginErrorModel, RuntimeFault, RuntimeFaultModel};
use crate::hold::{activity_models, ActivityModel, ActivityView, HoldModel, HoldView};
use crate::json::json_wire;
use crate::query::{
    get_hold_next, list_activity_next, list_holds_next, GetHold, GetHoldModel, GetHoldPhase,
    GetHoldPhaseModel, GetHoldStep, GetHoldStepModel, HoldPage, HoldPageModel, ListActivity,
    ListActivityModel, ListActivityPhase, ListActivityPhaseModel, ListActivityStep,
    ListActivityStepModel, ListHolds, ListHoldsModel, ListHoldsPhase, ListHoldsPhaseModel,
    ListHoldsStep, ListHoldsStepModel,
};
use crate::request::{
    prepared, AdminRequest, LegalHoldError, StorageOperation, StorageOperationModel,
};
use crate::statement::{
    DomainFailure, Reply, ReplyModel, Statement, StatementModel, StorageError, StorageErrorModel,
};
use crate::text::{decimal, decimal_text, id_is_valid, optional_text, texts, Text};

verus! {

/// What an administrative request is answered.
#[derive(Debug, PartialEq, Eq)]
pub enum AdminResponse {
    Hold(HoldView),
    Holds(HoldPage),
    Activity { events: Vec<ActivityView>, next_cursor: String },
}

/// What an [`AdminResponse`] says.
#[verifier::ext_equal]
pub enum AdminResponseModel {
    Hold(HoldModel),
    Holds(HoldPageModel),
    Activity { events: Seq<ActivityModel>, next_cursor: Text },
}

impl View for AdminResponse {
    type V = AdminResponseModel;

    open spec fn view(&self) -> AdminResponseModel {
        match *self {
            AdminResponse::Hold(hold) => AdminResponseModel::Hold(hold@),
            AdminResponse::Holds(page) => AdminResponseModel::Holds(page@),
            AdminResponse::Activity { events, next_cursor } => AdminResponseModel::Activity {
                events: activity_models(events@),
                next_cursor: next_cursor@,
            },
        }
    }
}

/// A storage operation, and how far it has come.
#[derive(Debug, PartialEq, Eq)]
pub enum StorageRun {
    Command(Command, CommandPhase),
    GetHold(GetHold, GetHoldPhase),
    ListHolds(ListHolds, ListHoldsPhase),
    ListActivity(ListActivity, ListActivityPhase),
}

/// What a [`StorageRun`] says.
#[verifier::ext_equal]
pub enum StorageRunModel {
    Command(CommandModel, CommandPhaseModel),
    GetHold(GetHoldModel, GetHoldPhaseModel),
    ListHolds(ListHoldsModel, ListHoldsPhaseModel),
    ListActivity(ListActivityModel, ListActivityPhaseModel),
}

impl View for StorageRun {
    type V = StorageRunModel;

    open spec fn view(&self) -> StorageRunModel {
        match *self {
            StorageRun::Command(command, phase) => StorageRunModel::Command(command@, phase@),
            StorageRun::GetHold(query, phase) => StorageRunModel::GetHold(query@, phase@),
            StorageRun::ListHolds(query, phase) => StorageRunModel::ListHolds(query@, phase@),
            StorageRun::ListActivity(query, phase) => StorageRunModel::ListActivity(query@, phase@),
        }
    }
}

/// How far the run of a request has come.
#[derive(Debug, PartialEq, Eq)]
pub enum AdminPhase {
    Authorize(AdminRequest, AuthorizationPhase),
    Storage(StorageRun),
}

/// What an [`AdminPhase`] says.
pub enum AdminPhaseModel {
    Authorize(AdminRequest, AuthorizationPhaseModel),
    Storage(StorageRunModel),
}

impl View for AdminPhase {
    type V = AdminPhaseModel;

    open spec fn view(&self) -> AdminPhaseModel {
        match *self {
            AdminPhase::Authorize(request, phase) => AdminPhaseModel::Authorize(request, phase@),
            AdminPhase::Storage(run) => AdminPhaseModel::Storage(run@),
        }
    }
}

/// What the run of a request asks for.
#[derive(Debug, PartialEq, Eq)]
pub enum AdminAction {
    Ask(DependencyQuery),
    Execute(Statement),
}

/// What an [`AdminAction`] says.
#[verifier::ext_equal]
pub enum AdminActionModel {
    Ask(DependencyQueryModel),
    Execute(StatementModel),
}

impl View for AdminAction {
    type V = AdminActionModel;

    open spec fn view(&self) -> AdminActionModel {
        match *self {
            AdminAction::Ask(query) => AdminActionModel::Ask(query@),
            AdminAction::Execute(statement) => AdminActionModel::Execute(statement@),
        }
    }
}

/// What comes back.
#[derive(Debug, PartialEq, Eq)]
pub enum AdminEvent {
    Dependency(DependencyReply),
    Storage(Reply),
}

/// What an [`AdminEvent`] says.
#[verifier::ext_equal]
pub enum AdminEventModel {
    Dependency(DependencyReplyModel),
    Storage(ReplyModel),
}

impl View for AdminEvent {
    type V = AdminEventModel;

    open spec fn view(&self) -> AdminEventModel {
        match *self {
            AdminEvent::Dependency(reply) => AdminEventModel::Dependency(reply@),
            AdminEvent::Storage(reply) => AdminEventModel::Storage(reply@),
        }
    }
}

/// What the outcome of a request says.
pub open spec fn admin_outcome(
    outcome: Result<AdminResponse, PluginError<LegalHoldError>>,
) -> Result<AdminResponseModel, PluginErrorModel<LegalHoldError>> {
    match outcome {
        Ok(response) => Ok(response@),
        Err(error) => Err(error@),
    }
}

/// What comes next in the run of a request.
#[derive(Debug, PartialEq, Eq)]
pub enum AdminStep {
    Continue(AdminPhase, AdminAction),
    Finished(Result<AdminResponse, PluginError<LegalHoldError>>),
}

/// What an [`AdminStep`] says.
pub enum AdminStepModel {
    Continue(AdminPhaseModel, AdminActionModel),
    Finished(Result<AdminResponseModel, PluginErrorModel<LegalHoldError>>),
}

impl View for AdminStep {
    type V = AdminStepModel;

    open spec fn view(&self) -> AdminStepModel {
        match *self {
            AdminStep::Continue(phase, action) => AdminStepModel::Continue(phase@, action@),
            AdminStep::Finished(outcome) => AdminStepModel::Finished(admin_outcome(outcome)),
        }
    }
}

/// The answer of an operation on an existing hold to a domain failure.
pub open spec fn domain_error(failure: DomainFailure) -> LegalHoldError {
    match failure {
        DomainFailure::NotFound => LegalHoldError::NotFound,
        DomainFailure::RevisionConflict => LegalHoldError::RevisionConflict,
        DomainFailure::IdempotencyConflict => LegalHoldError::IdempotencyConflict,
        DomainFailure::ScopeConflict => LegalHoldError::ScopeConflict,
        DomainFailure::HoldReleased => LegalHoldError::HoldReleased,
    }
}

/// The answer of the creation of a hold to a domain failure.
pub open spec fn create_domain_error(failure: DomainFailure) -> LegalHoldError {
    match failure {
        DomainFailure::IdempotencyConflict => LegalHoldError::IdempotencyConflict,
        _ => LegalHoldError::InvalidRequest,
    }
}

/// The answer to a storage operation that did not succeed.
pub open spec fn storage_failure(creates: bool, error: StorageErrorModel) -> PluginErrorModel<
    LegalHoldError,
> {
    match error {
        StorageErrorModel::Domain(failure) => PluginErrorModel::Domain(
            if creates {
                create_domain_error(failure)
            } else {
                domain_error(failure)
            },
        ),
        _ => PluginErrorModel::Runtime(RuntimeFaultModel::PluginFailure { detail: error.detail() }),
    }
}

/// The answer to a request that was not granted.
pub open spec fn authorization_error(failure: AuthorizationFailureModel) -> PluginErrorModel<
    LegalHoldError,
> {
    match failure {
        AuthorizationFailureModel::Unauthenticated => PluginErrorModel::Domain(
            LegalHoldError::Unauthenticated,
        ),
        AuthorizationFailureModel::Forbidden => PluginErrorModel::Domain(LegalHoldError::Forbidden),
        AuthorizationFailureModel::Runtime(fault) => PluginErrorModel::Runtime(fault),
    }
}

/// The dependency reply that an event carries: a storage reply is none.
pub open spec fn dependency_reply(event: AdminEventModel) -> DependencyReplyModel {
    match event {
        AdminEventModel::Dependency(reply) => reply,
        AdminEventModel::Storage(_) => DependencyReplyModel::Rejected,
    }
}

/// The storage reply that an event carries: a dependency reply is none.
pub open spec fn storage_reply(event: AdminEventModel) -> ReplyModel {
    match event {
        AdminEventModel::Dependency(_) => ReplyModel::Failed,
        AdminEventModel::Storage(reply) => reply,
    }
}

/// How a storage operation begins.
pub open spec fn storage_start(operation: StorageOperationModel) -> (
    StorageRunModel,
    StatementModel,
) {
    match operation {
        StorageOperationModel::Command(command) => (
            StorageRunModel::Command(command, CommandPhaseModel::Begin),
            StatementModel::Begin,
        ),
        StorageOperationModel::GetHold(query) => (
            StorageRunModel::GetHold(query, GetHoldPhaseModel::Begin),
            StatementModel::Begin,
        ),
        StorageOperationModel::ListHolds(query) => (
            StorageRunModel::ListHolds(query, ListHoldsPhaseModel::Ids),
            query.list_ids(),
        ),
        StorageOperationModel::ListActivity(query) => (
            StorageRunModel::ListActivity(
                query,
                ListActivityPhaseModel::Hold(GetHoldPhaseModel::Begin),
            ),
            StatementModel::Begin,
        ),
    }
}

/// One more statement of a storage operation.
pub open spec fn execute(run: StorageRunModel, statement: StatementModel) -> AdminStepModel {
    AdminStepModel::Continue(AdminPhaseModel::Storage(run), AdminActionModel::Execute(statement))
}

/// The end of a storage operation on one hold.
pub open spec fn answer_hold(
    creates: bool,
    outcome: Result<HoldModel, StorageErrorModel>,
) -> AdminStepModel {
    AdminStepModel::Finished(
        match outcome {
            Ok(hold) => Ok(AdminResponseModel::Hold(hold)),
            Err(error) => Err(storage_failure(creates, error)),
        },
    )
}

/// What a storage operation does on a reply.
pub open spec fn storage_next(run: StorageRunModel, reply: ReplyModel) -> AdminStepModel {
    match run {
        StorageRunModel::Command(command, phase) => match command_next(command, phase, reply) {
            CommandStepModel::Run(phase, statement) => execute(
                StorageRunModel::Command(command, phase),
                statement,
            ),
            CommandStepModel::Finished(outcome) => answer_hold(command is Create, outcome),
        },
        StorageRunModel::GetHold(query, phase) => match get_hold_next(query, phase, reply) {
            GetHoldStepModel::Run(phase, statement) => execute(
                StorageRunModel::GetHold(query, phase),
                statement,
            ),
            GetHoldStepModel::Finished(outcome) => answer_hold(false, outcome),
        },
        StorageRunModel::ListHolds(query, phase) => match list_holds_next(query, phase, reply) {
            ListHoldsStepModel::Run(phase, statement) => execute(
                StorageRunModel::ListHolds(query, phase),
                statement,
            ),
            ListHoldsStepModel::Finished(Ok(page)) => AdminStepModel::Finished(
                Ok(AdminResponseModel::Holds(page)),
            ),
            ListHoldsStepModel::Finished(Err(error)) => AdminStepModel::Finished(
                Err(storage_failure(false, error)),
            ),
        },
        StorageRunModel::ListActivity(query, phase) => match list_activity_next(
            query,
            phase,
            reply,
        ) {
            ListActivityStepModel::Run(phase, statement) => execute(
                StorageRunModel::ListActivity(query, phase),
                statement,
            ),
            ListActivityStepModel::Finished(Ok(page)) => AdminStepModel::Finished(
                Ok(
                    AdminResponseModel::Activity {
                        events: page.events,
                        next_cursor: decimal(page.next_cursor),
                    },
                ),
            ),
            ListActivityStepModel::Finished(Err(error)) => AdminStepModel::Finished(
                Err(storage_failure(false, error)),
            ),
        },
    }
}

/// What a step of the authorization means for the run of the request.
pub open spec fn authorized(request: AdminRequest, step: AuthorizationStepModel) -> AdminStepModel {
    match step {
        AuthorizationStepModel::Ask(phase, query) => AdminStepModel::Continue(
            AdminPhaseModel::Authorize(request, phase),
            AdminActionModel::Ask(query),
        ),
        AuthorizationStepModel::Refused(failure) => AdminStepModel::Finished(
            Err(authorization_error(failure)),
        ),
        AuthorizationStepModel::Granted(grant) => match prepared(request, grant) {
            Err(error) => AdminStepModel::Finished(Err(error)),
            Ok(operation) => {
                let (run, statement) = storage_start(operation);
                execute(run, statement)
            },
        },
    }
}

/// How the run of a request begins.
pub open spec fn admin_start(
    request: AdminRequest,
    caller_instance: Option<Text>,
    admin_callers: Seq<Text>,
) -> AdminStepModel {
    authorized(
        request,
        authorization_start(request.authorization(), caller_instance, admin_callers),
    )
}

/// What the run of a request does on an event.
pub open spec fn admin_next(phase: AdminPhaseModel, event: AdminEventModel) -> AdminStepModel {
    match phase {
        AdminPhaseModel::Authorize(request, phase) => authorized(
            request,
            authorization_next(request.authorization(), phase, dependency_reply(event)),
        ),
        AdminPhaseModel::Storage(run) => storage_next(run, storage_reply(event)),
    }
}

fn map_domain(creates: bool, failure: DomainFailure) -> (error: LegalHoldError)
    ensures
        error == if creates {
            create_domain_error(failure)
        } else {
            domain_error(failure)
        },
{
    match failure {
        DomainFailure::IdempotencyConflict => LegalHoldError::IdempotencyConflict,
        _ if creates => LegalHoldError::InvalidRequest,
        DomainFailure::NotFound => LegalHoldError::NotFound,
        DomainFailure::RevisionConflict => LegalHoldError::RevisionConflict,
        DomainFailure::ScopeConflict => LegalHoldError::ScopeConflict,
        DomainFailure::HoldReleased => LegalHoldError::HoldReleased,
    }
}

/// Answers a storage operation that did not succeed; `creates` tells the
/// creation of a hold from the other operations.
pub fn map_storage(creates: bool, error: StorageError) -> (answer: PluginError<LegalHoldError>)
    ensures
        answer@ == storage_failure(creates, error@),
{
    match error {
        StorageError::Domain(failure) => PluginError::Domain(map_domain(creates, failure)),
        error => PluginError::Runtime(RuntimeFault::PluginFailure { detail: error.detail() }),
    }
}

/// Answers a request that was not granted.
pub fn map_authorization(failure: AuthorizationFailure) -> (answer: PluginError<LegalHoldError>)
    ensures
        answer@ == authorization_error(failure@),
{
    match failure {
        AuthorizationFailure::Unauthenticated => PluginError::Domain(
            LegalHoldError::Unauthenticated,
        ),
        AuthorizationFailure::Forbidden => PluginError::Domain(LegalHoldError::Forbidden),
        AuthorizationFailure::Runtime(fault) => PluginError::Runtime(fault),
    }
}

fn finish_hold(creates: bool, outcome: Result<HoldView, StorageError>) -> (step: AdminStep)
    ensures
        step@ == answer_hold(
            creates,
            match outcome {
                Ok(hold) => Ok(hold@),
                Err(error) => Err(error@),
            },
        ),
{
    match outcome {
        Ok(hold) => AdminStep::Finished(Ok(AdminResponse::Hold(hold))),
        Err(error) => AdminStep::Finished(Err(map_storage(creates, error))),
    }
}

fn execute_statement(run: StorageRun, statement: Statement) -> (step: AdminStep)
    ensures
        step@ == execute(run@, statement@),
{
    AdminStep::Continue(AdminPhase::Storage(run), AdminAction::Execute(statement))
}

impl StorageRun {
    /// Begins a storage operation.
    pub fn start(operation: StorageOperation) -> (step: (StorageRun, Statement))
        ensures
            (step.0@, step.1@) == storage_start(operation@),
    {
        match operation {
            StorageOperation::Command(command) => {
                let (phase, statement) = command.start();
                (StorageRun::Command(command, phase), statement)
            },
            StorageOperation::GetHold(query) => (
                StorageRun::GetHold(query, GetHoldPhase::Begin),
                Statement::Begin,
            ),
            StorageOperation::ListHolds(query) => {
                let (phase, statement) = query.start();
                (StorageRun::ListHolds(query, phase), statement)
            },
            StorageOperation::ListActivity(query) => (
                StorageRun::ListActivity(query, ListActivityPhase::Hold(GetHoldPhase::Begin)),
                Statement::Begin,
            ),
        }
    }

    /// Decides on a reply what the operation does next.
    pub fn next(self, reply: Reply) -> (step: AdminStep)
        ensures
            step@ == storage_next(self@, reply@),
    {
        match self {
            StorageRun::Command(command, phase) => {
                let creates = match &command {
                    Command::Create(_) => true,
                    _ => false,
                };
                match command.next(phase, reply) {
                    CommandStep::Run(phase, statement) => execute_statement(
                        StorageRun::Command(command, phase),
                        statement,
                    ),
                    CommandStep::Finished(outcome) => finish_hold(creates, outcome),
                }
            },
            StorageRun::GetHold(query, phase) => match query.next(phase, reply) {
                GetHoldStep::Run(phase, statement) => execute_statement(
                    StorageRun::GetHold(query, phase),
                    statement,
                ),
                GetHoldStep::Finished(outcome) => finish_hold(false, outcome),
            },
            StorageRun::ListHolds(query, phase) => match query.next(phase, reply) {
                ListHoldsStep::Run(phase, statement) => execute_statement(
                    StorageRun::ListHolds(query, phase),
                    statement,
                ),
                ListHoldsStep::Finished(Ok(page)) => AdminStep::Finished(
                    Ok(AdminResponse::Holds(page)),
                ),
                ListHoldsStep::Finished(Err(error)) => AdminStep::Finished(
                    Err(map_storage(false, error)),
                ),
            },
            StorageRun::ListActivity(query, phase) => match query.next(phase, reply) {
                ListActivityStep::Run(phase, statement) => execute_statement(
                    StorageRun::ListActivity(query, phase),
                    statement,
                ),
                ListActivityStep::Finished(Ok(page)) => {
                    let next_cursor = decimal_text(page.next_cursor);
                    AdminStep::Finished(
                        Ok(AdminResponse::Activity { events: page.events, next_cursor }),
                    )
                },
                ListActivityStep::Finished(Err(error)) => AdminStep::Finished(
                    Err(map_storage(false, error)),
                ),
            },
        }
    }
}

impl AdminRequest {
    /// Begins the run of this request.
    pub fn start(self, config: &LegalHoldConfig, caller_instance: &Option<String>) -> (step:
        AdminStep)
        ensures
            step@ == admin_start(
                self,
                optional_text(*caller_instance),
                texts(config.admin_callers@),
            ),
            step is Continue <==> (caller_instance matches Some(caller) && exists|i: int|
                0 <= i < config.admin_callers@.len() && (#[trigger] config.admin_callers@[i])@
                    == caller@),
    {
        let required = self.required_authorization();
        let step = required.start(config, caller_instance);
        self.after_authorization(step)
    }

    fn after_authorization(self, step: AuthorizationStep) -> (next: AdminStep)
        ensures
            next@ == authorized(self, step@),
    {
        match step {
            AuthorizationStep::Ask(phase, query) => AdminStep::Continue(
                AdminPhase::Authorize(self, phase),
                AdminAction::Ask(query),
            ),
            AuthorizationStep::Refused(failure) => AdminStep::Finished(
                Err(map_authorization(failure)),
            ),
            AuthorizationStep::Granted(grant) => match self.prepare(grant) {
                Err(error) => AdminStep::Finished(Err(error)),
                Ok(operation) => {
                    let (run, statement) = StorageRun::start(operation);
                    execute_statement(run, statement)
                },
            },
        }
    }
}

impl AdminPhase {
    /// Decides on an event what the run does next.
    pub fn next(self, event: AdminEvent) -> (step: AdminStep)
        ensures
            step@ == admin_next(self@, event@),
    {
        match self {
            AdminPhase::Authorize(request, phase) => {
                let reply = match event {
                    AdminEvent::Dependency(reply) => reply,
                    AdminEvent::Storage(_) => DependencyReply::Rejected,
                };
                let step = request.required_authorization().next(phase, reply);
                request.after_authorization(step)
            },
            AdminPhase::Storage(run) => {
                let reply = match event {
                    AdminEvent::Dependency(_) => Reply::Failed,
                    AdminEvent::Storage(reply) => reply,
                };
                run.next(reply)
            },
        }
    }
}

/// Where the run of a request stands after events.
pub open spec fn admin_after(
    request: AdminRequest,
    caller_instance: Option<Text>,
    admin_callers: Seq<Text>,
    events: Seq<AdminEventModel>,
) -> AdminStepModel
    decreases events.len(),
{
    if events.len() == 0 {
        admin_start(request, caller_instance, admin_callers)
    } else {
        match admin_after(request, caller_instance, admin_callers, events.drop_last()) {
            AdminStepModel::Continue(phase, _) => admin_next(phase, events.last()),
            AdminStepModel::Finished(outcome) => AdminStepModel::Finished(outcome),
        }
    }
}

/// Whether a run works with storage, or has succeeded.
pub open spec fn has_reached_storage(step: AdminStepModel) -> bool {
    match step {
        AdminStepModel::Continue(phase, action) => phase is Storage || action is Execute,
        AdminStepModel::Finished(outcome) => outcome is Ok,
    }
}

/// Whether the first events are the answers that grant a request: a valid
/// subject, and twice yes.
pub open spec fn are_granting(events: Seq<AdminEventModel>, actor: Text) -> bool {
    &&& events.len() >= 3
    &&& events[0] == AdminEventModel::Dependency(DependencyReplyModel::Subject(Some(actor)))
    &&& id_is_valid(actor)
    &&& events[1] == AdminEventModel::Dependency(DependencyReplyModel::Answer(true))
    &&& events[2] == AdminEventModel::Dependency(DependencyReplyModel::Answer(true))
}

/// What is known of a run from where it stands.
spec fn stands(
    request: AdminRequest,
    caller_instance: Option<Text>,
    admin_callers: Seq<Text>,
    events: Seq<AdminEventModel>,
    step: AdminStepModel,
) -> bool {
    let first = events[0]->Dependency_0->Subject_0->0;
    match step {
        AdminStepModel::Continue(AdminPhaseModel::Authorize(asked, phase), action) => {
            &&& asked == request
            &&& is_allowed(caller_instance, admin_callers)
            &&& match phase {
                AuthorizationPhaseModel::Authenticate { caller } => {
                    &&& events.len() == 0
                    &&& caller_instance == Some(caller)
                    &&& action == AdminActionModel::Ask(request.authorization().authenticate())
                },
                AuthorizationPhaseModel::Membership(grant) => {
                    &&& events.len() == 1
                    &&& caller_instance == Some(grant.caller)
                    &&& events[0] == AdminEventModel::Dependency(
                        DependencyReplyModel::Subject(Some(grant.actor)),
                    )
                    &&& id_is_valid(grant.actor)
                    &&& action == AdminActionModel::Ask(
                        request.authorization().check_membership(grant.actor),
                    )
                },
                AuthorizationPhaseModel::Permission(grant) => {
                    &&& events.len() == 2
                    &&& caller_instance == Some(grant.caller)
                    &&& events[0] == AdminEventModel::Dependency(
                        DependencyReplyModel::Subject(Some(grant.actor)),
                    )
                    &&& id_is_valid(grant.actor)
                    &&& events[1] == AdminEventModel::Dependency(DependencyReplyModel::Answer(true))
                    &&& action == AdminActionModel::Ask(
                        request.authorization().check_permission(grant.actor),
                    )
                },
            }
        },
        AdminStepModel::Continue(AdminPhaseModel::Storage(run), action) => {
            &&& is_allowed(caller_instance, admin_callers)
            &&& are_granting(events, first)
            &&& request.is_valid()
            &&& run matches StorageRunModel::Command(command, _) ==> {
                &&& request.is_command()
                &&& json_wire(request.content()) matches Ok(wire) && request.storage_operation(
                    GrantModel { caller: caller_instance->0, actor: first },
                    sha256(wire),
                ) == StorageOperationModel::Command(command)
            }
        },
        AdminStepModel::Finished(Ok(_)) => {
            &&& is_allowed(caller_instance, admin_callers)
            &&& are_granting(events, first)
            &&& request.is_valid()
        },
        AdminStepModel::Finished(Err(_)) => true,
    }
}

proof fn lemma_runs_stand(
    request: AdminRequest,
    caller_instance: Option<Text>,
    admin_callers: Seq<Text>,
    events: Seq<AdminEventModel>,
)
    ensures
        stands(
            request,
            caller_instance,
            admin_callers,
            events,
            admin_after(request, caller_instance, admin_callers, events),
        ),
    decreases events.len(),
{
    if events.len() > 0 {
        let earlier = events.drop_last();
        lemma_runs_stand(request, caller_instance, admin_callers, earlier);
        match admin_after(request, caller_instance, admin_callers, earlier) {
            AdminStepModel::Continue(AdminPhaseModel::Authorize(_, phase), _) => {
                let reply = dependency_reply(events.last());
                let step = authorization_next(request.authorization(), phase, reply);
                if let AuthorizationStepModel::Granted(grant) = step {
                    assert(events[2] == events.last());
                    assert(events[0] == earlier[0] && events[1] == earlier[1]);
                }
            },
            AdminStepModel::Continue(AdminPhaseModel::Storage(_), _) => {
                assert(events[0] == earlier[0] && events[1] == earlier[1] && events[2]
                    == earlier[2]);
            },
            AdminStepModel::Finished(_) => {
                if earlier.len() >= 3 {
                    assert(events[0] == earlier[0] && events[1] == earlier[1] && events[2]
                        == earlier[2]);
                }
            },
        }
    }
}

/// Nothing is asked of storage, and nothing succeeds, for a request that was not
/// granted: the caller is configured, the actor is authenticated, is a member and
/// holds the permission, and the request is valid. A refusal or a failure of a
/// dependency is never taken for a yes.
pub proof fn storage_is_reached_only_by_granted_requests(
    request: AdminRequest,
    caller_instance: Option<Text>,
    admin_callers: Seq<Text>,
    events: Seq<AdminEventModel>,
)
    requires
        has_reached_storage(admin_after(request, caller_instance, admin_callers, events)),
    ensures
        is_allowed(caller_instance, admin_callers),
        exists|actor: Text| #[trigger] are_granting(events, actor),
        request.is_valid(),
{
    lemma_runs_stand(request, caller_instance, admin_callers, events);
}

/// The dependencies are asked about exactly this request: first for the actor of
/// its operation, then for that actor's membership in its organization, then for
/// the permission that it needs there.
pub proof fn dependencies_are_asked_about_the_request(
    request: AdminRequest,
    caller_instance: Option<Text>,
    admin_callers: Seq<Text>,
    events: Seq<AdminEventModel>,
    phase: AdminPhaseModel,
    query: DependencyQueryModel,
)
    requires
        admin_after(request, caller_instance, admin_callers, events) == AdminStepModel::Continue(
            phase,
            AdminActionModel::Ask(query),
        ),
    ensures
        events.len() < 3,
        events.len() == 0 ==> query == request.authorization().authenticate(),
        events.len() > 0 ==> {
            &&& events[0] matches AdminEventModel::Dependency(
                DependencyReplyModel::Subject(Some(actor)),
            )
            &&& query == if events.len() == 1 {
                request.authorization().check_membership(actor)
            } else {
                request.authorization().check_permission(actor)
            }
        },
{
    lemma_runs_stand(request, caller_instance, admin_callers, events);
    lemma_storage_asks_no_dependency(request, caller_instance, admin_callers, events);
}

proof fn lemma_storage_asks_no_dependency(
    request: AdminRequest,
    caller_instance: Option<Text>,
    admin_callers: Seq<Text>,
    events: Seq<AdminEventModel>,
)
    ensures
        match admin_after(request, caller_instance, admin_callers, events) {
            AdminStepModel::Continue(AdminPhaseModel::Storage(_), action) => action is Execute,
            _ => true,
        },
    decreases events.len(),
{
    if events.len() > 0 {
        lemma_storage_asks_no_dependency(
            request,
            caller_instance,
            admin_callers,
            events.drop_last(),
        );
    }
}

/// A command runs on behalf of the configured caller and the authenticated actor,
/// under the operation that was authorized, with the digest of the request.
pub proof fn commands_run_for_whom_they_were_granted(
    request: AdminRequest,
    caller_instance: Option<Text>,
    admin_callers: Seq<Text>,
    events: Seq<AdminEventModel>,
    command: CommandModel,
    phase: CommandPhaseModel,
    action: AdminActionModel,
)
    requires
        admin_after(request, caller_instance, admin_callers, events) == AdminStepModel::Continue(
            AdminPhaseModel::Storage(StorageRunModel::Command(command, phase)),
            action,
        ),
    ensures
        caller_instance == Some(command.caller()),
        are_granting(events, command.actor()),
        command.operation() == request.operation(),
        command.organization_id() == request.organization_id(),
        json_wire(request.content()) matches Ok(wire) && command.request_hash() == sha256(wire),
{
    lemma_runs_stand(request, caller_instance, admin_callers, events);
}

/// A domain failure is answered under its own name; one of a creation that is not a
/// conflict is answered as an invalid request. Any other failure of storage is a
/// failure of the Plugin with its detail.
pub proof fn storage_failures_are_answered_for_what_they_are(
    creates: bool,
    error: StorageErrorModel,
)
    ensures
        error matches StorageErrorModel::Domain(failure) ==> {
            let answered = |answer: LegalHoldError|
                storage_failure(creates, error) == PluginErrorModel::<LegalHoldError>::Domain(
                    answer,
                );
            match failure {
                DomainFailure::IdempotencyConflict => answered(LegalHoldError::IdempotencyConflict),
                DomainFailure::NotFound => answered(
                    if creates {
                        LegalHoldError::InvalidRequest
                    } else {
                        LegalHoldError::NotFound
                    },
                ),
                DomainFailure::RevisionConflict => answered(
                    if creates {
                        LegalHoldError::InvalidRequest
                    } else {
                        LegalHoldError::RevisionConflict
                    },
                ),
                DomainFailure::ScopeConflict => answered(
                    if creates {
                        LegalHoldError::InvalidRequest
                    } else {
                        LegalHoldError::ScopeConflict
                    },
                ),
                DomainFailure::HoldReleased => answered(
                    if creates {
                        LegalHoldError::InvalidRequest
                    } else {
                        LegalHoldError::HoldReleased
                    },
                ),
            }
        },
        !(error is Domain) ==> storage_failure(creates, error) == PluginErrorModel::<
            LegalHoldError,
        >::Runtime(RuntimeFaultModel::PluginFailure { detail: error.detail() }),
{
}

/// A request that was refused is answered for what it was refused for, and a failure of
/// a dependency is passed on; a granted one is answered that it is invalid, or goes to
/// storage with what was prepared.
pub proof fn authorizations_are_answered_for_what_they_are(
    request: AdminRequest,
    step: AuthorizationStepModel,
)
    ensures
        ({
            let next = authorized(request, step);
            let answered = |error: PluginErrorModel<LegalHoldError>|
                next == AdminStepModel::Finished(Err(error));
            match step {
                AuthorizationStepModel::Ask(phase, query) => next == AdminStepModel::Continue(
                    AdminPhaseModel::Authorize(request, phase),
                    AdminActionModel::Ask(query),
                ),
                AuthorizationStepModel::Refused(AuthorizationFailureModel::Unauthenticated) =>
                    answered(PluginErrorModel::Domain(LegalHoldError::Unauthenticated)),
                AuthorizationStepModel::Refused(AuthorizationFailureModel::Forbidden) => answered(
                    PluginErrorModel::Domain(LegalHoldError::Forbidden),
                ),
                AuthorizationStepModel::Refused(AuthorizationFailureModel::Runtime(fault)) =>
                    answered(PluginErrorModel::Runtime(fault)),
                AuthorizationStepModel::Granted(grant) => match prepared(request, grant) {
                    Err(error) => answered(error),
                    Ok(operation) => next matches AdminStepModel::Continue(
                        AdminPhaseModel::Storage(run),
                        AdminActionModel::Execute(statement),
                    ) && begins(operation, run, statement),
                },
            }
        }),
{
}

/// Whether a run and its first statement begin an operation: a listing of holds begins
/// with their identifiers, and everything else with a transaction.
pub open spec fn begins(
    operation: StorageOperationModel,
    run: StorageRunModel,
    statement: StatementModel,
) -> bool {
    match run {
        StorageRunModel::Command(command, phase) => {
            &&& operation == StorageOperationModel::Command(command)
            &&& phase is Begin
            &&& statement is Begin
        },
        StorageRunModel::GetHold(query, phase) => {
            &&& operation == StorageOperationModel::GetHold(query)
            &&& phase is Begin
            &&& statement is Begin
        },
        StorageRunModel::ListHolds(query, phase) => {
            &&& operation == StorageOperationModel::ListHolds(query)
            &&& phase is Ids
            &&& statement == query.list_ids()
        },
        StorageRunModel::ListActivity(query, phase) => {
            &&& operation == StorageOperationModel::ListActivity(query)
            &&& phase == ListActivityPhaseModel::Hold(GetHoldPhaseModel::Begin)
            &&& statement is Begin
        },
    }
}

/// A run goes on with what its operation asks for next, and is answered with what comes
/// of the operation: the hold, the page of holds, or the page of activity with its
/// cursor in decimal.
pub proof fn runs_are_answered_with_what_comes_of_them(run: StorageRunModel, reply: ReplyModel)
    ensures
        ({
            let next = storage_next(run, reply);
            let goes_on = |on: StorageRunModel, statement: StatementModel|
                next == AdminStepModel::Continue(
                    AdminPhaseModel::Storage(on),
                    AdminActionModel::Execute(statement),
                );
            let answered = |response: AdminResponseModel|
                next == AdminStepModel::Finished(Ok(response));
            let failed = |creates: bool, error: StorageErrorModel|
                next == AdminStepModel::Finished(Err(storage_failure(creates, error)));
            match run {
                StorageRunModel::Command(command, phase) => match command_next(
                    command,
                    phase,
                    reply,
                ) {
                    CommandStepModel::Run(phase, statement) => goes_on(
                        StorageRunModel::Command(command, phase),
                        statement,
                    ),
                    CommandStepModel::Finished(Ok(hold)) => answered(
                        AdminResponseModel::Hold(hold),
                    ),
                    CommandStepModel::Finished(Err(error)) => failed(command is Create, error),
                },
                StorageRunModel::GetHold(query, phase) => match get_hold_next(
                    query,
                    phase,
                    reply,
                ) {
                    GetHoldStepModel::Run(phase, statement) => goes_on(
                        StorageRunModel::GetHold(query, phase),
                        statement,
                    ),
                    GetHoldStepModel::Finished(Ok(hold)) => answered(
                        AdminResponseModel::Hold(hold),
                    ),
                    GetHoldStepModel::Finished(Err(error)) => failed(false, error),
                },
                StorageRunModel::ListHolds(query, phase) => match list_holds_next(
                    query,
                    phase,
                    reply,
                ) {
                    ListHoldsStepModel::Run(phase, statement) => goes_on(
                        StorageRunModel::ListHolds(query, phase),
                        statement,
                    ),
                    ListHoldsStepModel::Finished(Ok(page)) => answered(
                        AdminResponseModel::Holds(page),
                    ),
                    ListHoldsStepModel::Finished(Err(error)) => failed(false, error),
                },
                StorageRunModel::ListActivity(query, phase) => match list_activity_next(
                    query,
                    phase,
                    reply,
                ) {
                    ListActivityStepModel::Run(phase, statement) => goes_on(
                        StorageRunModel::ListActivity(query, phase),
                        statement,
                    ),
                    ListActivityStepModel::Finished(Ok(page)) => answered(
                        AdminResponseModel::Activity {
                            events: page.events,
                            next_cursor: decimal(page.next_cursor),
                        },
                    ),
                    ListActivityStepModel::Finished(Err(error)) => failed(false, error),
                },
            }
        }),
{
}

/// Whether a run is one of an operation.
pub open spec fn is_run_of(run: StorageRunModel, operation: StorageOperationModel) -> bool {
    match run {
        StorageRunModel::Command(command, _) => operation == StorageOperationModel::Command(
            command,
        ),
        StorageRunModel::GetHold(query, _) => operation == StorageOperationModel::GetHold(query),
        StorageRunModel::ListHolds(query, _) => operation == StorageOperationModel::ListHolds(
            query,
        ),
        StorageRunModel::ListActivity(query, _) => operation
            == StorageOperationModel::ListActivity(query),
    }
}

/// What runs in storage for a request is what was prepared for it, on behalf of the
/// caller that made it and of the actor that was authenticated, and stays so until the
/// run ends.
pub proof fn granted_requests_run_what_was_prepared(
    request: AdminRequest,
    caller_instance: Option<Text>,
    admin_callers: Seq<Text>,
    events: Seq<AdminEventModel>,
    run: StorageRunModel,
    action: AdminActionModel,
)
    requires
        admin_after(request, caller_instance, admin_callers, events) == AdminStepModel::Continue(
            AdminPhaseModel::Storage(run),
            action,
        ),
    ensures
        caller_instance matches Some(caller) && admin_callers.contains(caller),
        events.len() >= 3,
        events[0] matches AdminEventModel::Dependency(DependencyReplyModel::Subject(Some(actor)))
            && prepared(
            request,
            GrantModel { caller: caller_instance->0, actor },
        ) matches Ok(operation) && is_run_of(run, operation),
    decreases events.len(),
{
    lemma_runs_stand(request, caller_instance, admin_callers, events);
    let earlier = events.drop_last();
    assert(events.len() > 0);
    lemma_runs_stand(request, caller_instance, admin_callers, earlier);
    assert(events[0] == earlier[0]);
    match admin_after(request, caller_instance, admin_callers, earlier) {
        AdminStepModel::Continue(AdminPhaseModel::Storage(before), asked) => {
            granted_requests_run_what_was_prepared(
                request,
                caller_instance,
                admin_callers,
                earlier,
                before,
                asked,
            );
        },
        _ => {},
    }
}

/// Every dependency is asked, in turn, about the operation, the organization and the
/// permission of this request, and about the actor that was authenticated.
pub proof fn dependencies_are_asked_in_turn(
    request: AdminRequest,
    caller_instance: Option<Text>,
    admin_callers: Seq<Text>,
    events: Seq<AdminEventModel>,
    phase: AdminPhaseModel,
    query: DependencyQueryModel,
)
    requires
        admin_after(request, caller_instance, admin_callers, events) == AdminStepModel::Continue(
            phase,
            AdminActionModel::Ask(query),
        ),
    ensures
        events.len() == 0 ==> query == (DependencyQueryModel::Authenticate {
            capability_id: "lenso.legal-hold@1"@,
            operation: request.operation(),
        }),
        events.len() == 1 ==> (events[0] matches AdminEventModel::Dependency(
            DependencyReplyModel::Subject(Some(actor)),
        ) && query == (DependencyQueryModel::CheckMembership {
            organization_id: request.organization_id(),
            subject: actor,
        })),
        events.len() == 2 ==> (events[0] matches AdminEventModel::Dependency(
            DependencyReplyModel::Subject(Some(actor)),
        ) && query == (DependencyQueryModel::CheckPermission {
            subject: actor,
            scope_kind: "organization"@,
            scope_id: request.organization_id(),
            permission: request.permission(),
        })),
        events.len() < 3,
{
    dependencies_are_asked_about_the_request(
        request,
        caller_instance,
        admin_callers,
        events,
        phase,
        query,
    );
}

/// A run takes each event for what it is: while it is authorized it hears dependencies,
/// and in storage it hears storage. What comes from elsewhere is no answer.
pub proof fn events_are_heard_where_they_belong(phase: AdminPhaseModel, event: AdminEventModel)
    ensures
        match phase {
            AdminPhaseModel::Authorize(request, waits) => admin_next(phase, event) == authorized(
                request,
                authorization_next(
                    request.authorization(),
                    waits,
                    match event {
                        AdminEventModel::Dependency(reply) => reply,
                        AdminEventModel::Storage(_) => DependencyReplyModel::Rejected,
                    },
                ),
            ),
            AdminPhaseModel::Storage(run) => admin_next(phase, event) == storage_next(
                run,
                match event {
                    AdminEventModel::Dependency(_) => ReplyModel::Failed,
                    AdminEventModel::Storage(reply) => reply,
                },
            ),
        },
{
}

} // verus!
