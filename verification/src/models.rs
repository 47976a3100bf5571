//! What models say of values.
//!
//! Contracts speak of models. Here it is stated what a model says of its value, so
//! that what is proved of models holds of the values themselves.
use vstd::prelude::*;
use crate::administration::{
    admin_outcome, AdminAction, AdminActionModel, AdminEvent, AdminEventModel, AdminPhase,
    AdminPhaseModel, AdminResponse, AdminResponseModel, AdminStep, AdminStepModel, StorageRun,
    StorageRunModel,
};
use crate::authorization::{
    Authorization, AuthorizationFailure, AuthorizationFailureModel, AuthorizationModel,
    AuthorizationPhase, AuthorizationPhaseModel, AuthorizationStep, AuthorizationStepModel,
    DependencyQuery, DependencyQueryModel, DependencyReply, DependencyReplyModel, Grant, GrantModel,
};
use crate::command::{
    hold_outcome, Command, CommandModel, CommandPhase, CommandPhaseModel, CommandStep,
    CommandStepModel, CreateHold, CreateHoldModel, MutateScope, MutateScopeModel, ReleaseHold,
    ReleaseHoldModel,
};
use crate::failure::{PluginError, PluginErrorModel, RuntimeFault, RuntimeFaultModel};
use crate::guard::{
    guard_outcome, GuardDecision, GuardDecisionModel, GuardPhase, GuardPhaseModel, GuardStep,
    GuardStepModel, RetentionCheck, RetentionCheckModel,
};
use crate::hold::{
    activity_models, activity_rows, hold_models, optional_instant, scope_models, scope_rows,
    ActivityModel, ActivityRow, ActivityRowModel, ActivityView, HoldFault, HoldFaultModel,
    HoldModel, HoldRow, HoldRowModel, HoldView, ScopeModel, ScopeRow, ScopeRowModel, ScopeView,
    StoredHold, StoredHoldModel,
};
use crate::json::json_content;
use crate::query::{
    ActivityPage, ActivityPageModel, GetHold, GetHoldModel, GetHoldPhase, GetHoldPhaseModel,
    GetHoldStep, GetHoldStepModel, HoldPage, HoldPageModel, ListActivity, ListActivityModel,
    ListActivityPhase, ListActivityPhaseModel, ListActivityStep, ListActivityStepModel, ListHolds,
    ListHoldsModel, ListHoldsPhase, ListHoldsPhaseModel, ListHoldsStep, ListHoldsStepModel,
    PageProgress, PageProgressModel,
};
use crate::request::{preparation, LegalHoldError, StorageOperation, StorageOperationModel};
use crate::statement::{
    matching_models, LockedHold, LockedHoldModel, MatchingHold, MatchingHoldModel, Receipt,
    ReceiptModel, Reply, ReplyModel, ResponseFault, ResponseFaultModel, Statement, StatementModel,
    StorageError, StorageErrorModel,
};
use crate::text::{optional_text, optional_texts, texts};
use crate::tools::{
    execute_outcome, ExecuteError, ExecuteErrorModel, ExecuteResponse, ExecuteResponseModel,
    Invocation, InvocationModel, ToolDefinition, ToolDefinitionModel,
};

verus! {

/// The text of an optional string is the string's, and lists are modelled item by
/// item.
pub proof fn lists_are_modelled(
    text: Option<String>,
    strings: Seq<String>,
    ids: Seq<Option<String>>,
    rows: Seq<ScopeRow>,
    scopes: Seq<ScopeView>,
    holds: Seq<HoldView>,
    entries: Seq<ActivityRow>,
    events: Seq<ActivityView>,
    matches: Seq<MatchingHold>,
)
    ensures
        text matches Some(text) ==> optional_text(Some(text)) == Some(text@),
        text is None ==> optional_text(text) is None,
        texts(strings).len() == strings.len(),
        forall|i: int| 0 <= i < strings.len() ==> #[trigger] texts(strings)[i] == strings[i]@,
        optional_texts(ids).len() == ids.len(),
        forall|i: int|
            0 <= i < ids.len() ==> {
                &&& (#[trigger] optional_texts(ids)[i]) is Some == ids[i] is Some
                &&& ids[i] matches Some(id) ==> optional_texts(ids)[i] == Some(id@)
            },
        scope_rows(rows).len() == rows.len(),
        forall|i: int| 0 <= i < rows.len() ==> #[trigger] scope_rows(rows)[i] == rows[i]@,
        scope_models(scopes).len() == scopes.len(),
        forall|i: int| 0 <= i < scopes.len() ==> #[trigger] scope_models(scopes)[i] == scopes[i]@,
        hold_models(holds).len() == holds.len(),
        forall|i: int| 0 <= i < holds.len() ==> #[trigger] hold_models(holds)[i] == holds[i]@,
        activity_rows(entries).len() == entries.len(),
        forall|i: int|
            0 <= i < entries.len() ==> #[trigger] activity_rows(entries)[i] == entries[i]@,
        activity_models(events).len() == events.len(),
        forall|i: int|
            0 <= i < events.len() ==> #[trigger] activity_models(events)[i] == events[i]@,
        matching_models(matches).len() == matches.len(),
        forall|i: int|
            0 <= i < matches.len() ==> #[trigger] matching_models(matches)[i] == matches[i]@,
{
}

/// What operations come to is modelled as the success or the failure that it is.
pub proof fn outcomes_are_modelled(
    hold: Result<HoldView, StorageError>,
    decision: Result<GuardDecision, StorageError>,
    operation: Result<StorageOperation, PluginError<LegalHoldError>>,
    response: Result<AdminResponse, PluginError<LegalHoldError>>,
    answer: Result<ExecuteResponse, PluginError<ExecuteError>>,
)
    ensures
        hold matches Ok(held) ==> hold_outcome(hold) == Ok::<HoldModel, StorageErrorModel>(held@),
        hold matches Err(error) ==> hold_outcome(hold) == Err::<HoldModel, StorageErrorModel>(
            error@,
        ),
        decision matches Ok(decided) ==> guard_outcome(decision) == Ok::<
            GuardDecisionModel,
            StorageErrorModel,
        >(decided@),
        decision matches Err(error) ==> guard_outcome(decision) == Err::<
            GuardDecisionModel,
            StorageErrorModel,
        >(error@),
        operation matches Ok(prepared) ==> preparation(operation) == Ok::<
            StorageOperationModel,
            PluginErrorModel<LegalHoldError>,
        >(prepared@),
        operation matches Err(error) ==> preparation(operation) == Err::<
            StorageOperationModel,
            PluginErrorModel<LegalHoldError>,
        >(error@),
        response matches Ok(given) ==> admin_outcome(response) == Ok::<
            AdminResponseModel,
            PluginErrorModel<LegalHoldError>,
        >(given@),
        response matches Err(error) ==> admin_outcome(response) == Err::<
            AdminResponseModel,
            PluginErrorModel<LegalHoldError>,
        >(error@),
        answer matches Ok(given) ==> execute_outcome(answer) == Ok::<
            ExecuteResponseModel,
            PluginErrorModel<ExecuteErrorModel>,
        >(given@),
        answer matches Err(PluginError::Domain(error)) ==> execute_outcome(answer) == Err::<
            ExecuteResponseModel,
            PluginErrorModel<ExecuteErrorModel>,
        >(PluginErrorModel::Domain(error@)),
        answer matches Err(PluginError::Runtime(fault)) ==> execute_outcome(answer) == Err::<
            ExecuteResponseModel,
            PluginErrorModel<ExecuteErrorModel>,
        >(PluginErrorModel::Runtime(fault@)),
{
}

/// Rows and records are modelled field by field.
pub proof fn stored_values_are_modelled(
    hold_row: HoldRow,
    hold_fault: HoldFault,
    stored_hold: StoredHold,
    scope_row: ScopeRow,
    activity_row: ActivityRow,
)
    ensures
        hold_row@ == (HoldRowModel {
            organization_id: hold_row.organization_id@,
            hold_id: hold_row.hold_id@,
            title: hold_row.title@,
            reason: hold_row.reason@,
            legal_authority: hold_row.legal_authority@,
            status: hold_row.status@,
            revision: hold_row.revision as int,
            created_by: hold_row.created_by@,
            created_at: hold_row.created_at as int,
            released_by: optional_text(hold_row.released_by),
            released_at: optional_instant(hold_row.released_at),
            release_reason: optional_text(hold_row.release_reason),
        }),
        hold_fault@ == (HoldFaultModel {
            created_at: optional_instant(hold_fault.created_at),
            released_at: optional_instant(hold_fault.released_at),
            step: hold_fault.step@,
        }),
        stored_hold@ == match stored_hold {
            StoredHold::Decoded(row) => StoredHoldModel::Decoded(row@),
            StoredHold::Undecodable(fault) => StoredHoldModel::Undecodable(fault@),
        },
        scope_row@ == (ScopeRowModel {
            scope_kind: scope_row.scope_kind@,
            scope_id: scope_row.scope_id@,
            subject: optional_text(scope_row.subject),
            created_at: scope_row.created_at as int,
        }),
        activity_row@ == (ActivityRowModel {
            activity_id: activity_row.activity_id as int,
            kind: activity_row.kind@,
            actor_subject: activity_row.actor_subject@,
            payload: json_content(activity_row.payload),
            created_at: activity_row.created_at as int,
        }),
{
}

/// What responses carry is modelled field by field.
pub proof fn presented_values_are_modelled(
    scope_view: ScopeView,
    hold_view: HoldView,
    activity_view: ActivityView,
)
    ensures
        scope_view@ == (ScopeModel {
            scope_kind: scope_view.scope_kind@,
            scope_id: scope_view.scope_id@,
            subject: optional_text(scope_view.subject),
            created_at: scope_view.created_at@,
        }),
        hold_view@ == (HoldModel {
            organization_id: hold_view.organization_id@,
            hold_id: hold_view.hold_id@,
            title: hold_view.title@,
            reason: hold_view.reason@,
            legal_authority: hold_view.legal_authority@,
            status: hold_view.status@,
            revision: hold_view.revision@,
            created_by: hold_view.created_by@,
            created_at: hold_view.created_at@,
            released_by: optional_text(hold_view.released_by),
            released_at: optional_text(hold_view.released_at),
            release_reason: optional_text(hold_view.release_reason),
            scopes: scope_models(hold_view.scopes@),
        }),
        activity_view@ == (ActivityModel {
            activity_id: activity_view.activity_id@,
            kind: activity_view.kind@,
            actor_subject: activity_view.actor_subject@,
            payload: json_content(activity_view.payload),
            created_at: activity_view.created_at@,
        }),
{
}

/// Commands are modelled field by field.
pub proof fn commands_are_modelled(
    create_hold: CreateHold,
    mutate_scope: MutateScope,
    release_hold: ReleaseHold,
    command: Command,
)
    ensures
        create_hold@ == (CreateHoldModel {
            caller: create_hold.caller@,
            actor: create_hold.actor@,
            organization_id: create_hold.organization_id@,
            hold_id: create_hold.hold_id@,
            title: create_hold.title@,
            reason: create_hold.reason@,
            legal_authority: create_hold.legal_authority@,
            idempotency_key: create_hold.idempotency_key@,
            request_hash: create_hold.request_hash@,
        }),
        mutate_scope@ == (MutateScopeModel {
            caller: mutate_scope.caller@,
            actor: mutate_scope.actor@,
            operation: mutate_scope.operation@,
            organization_id: mutate_scope.organization_id@,
            hold_id: mutate_scope.hold_id@,
            scope_kind: mutate_scope.scope_kind@,
            scope_id: mutate_scope.scope_id@,
            subject: optional_text(mutate_scope.subject),
            expected_revision: mutate_scope.expected_revision as int,
            idempotency_key: mutate_scope.idempotency_key@,
            request_hash: mutate_scope.request_hash@,
            add: mutate_scope.add,
        }),
        release_hold@ == (ReleaseHoldModel {
            caller: release_hold.caller@,
            actor: release_hold.actor@,
            organization_id: release_hold.organization_id@,
            hold_id: release_hold.hold_id@,
            expected_revision: release_hold.expected_revision as int,
            reason: release_hold.reason@,
            idempotency_key: release_hold.idempotency_key@,
            request_hash: release_hold.request_hash@,
        }),
        command@ == match command {
            Command::Create(command) => CommandModel::Create(command@),
            Command::Scope(command) => CommandModel::Scope(command@),
            Command::Release(command) => CommandModel::Release(command@),
        },
{
}

/// Reads and their pages are modelled field by field.
pub proof fn reads_are_modelled(
    get_hold: GetHold,
    list_holds: ListHolds,
    hold_page: HoldPage,
    list_activity: ListActivity,
    activity_page: ActivityPage,
    storage_operation: StorageOperation,
)
    ensures
        get_hold@ == (GetHoldModel {
            organization_id: get_hold.organization_id@,
            hold_id: get_hold.hold_id@,
        }),
        list_holds@ == (ListHoldsModel {
            organization_id: list_holds.organization_id@,
            status: optional_text(list_holds.status),
            cursor: optional_text(list_holds.cursor),
            limit: list_holds.limit@,
        }),
        hold_page@ == (HoldPageModel {
            holds: hold_models(hold_page.holds@),
            next_cursor: optional_text(hold_page.next_cursor),
        }),
        list_activity@ == (ListActivityModel {
            organization_id: list_activity.organization_id@,
            hold_id: list_activity.hold_id@,
            after: list_activity.after as int,
            limit: list_activity.limit@,
        }),
        activity_page@ == (ActivityPageModel {
            events: activity_models(activity_page.events@),
            next_cursor: activity_page.next_cursor as int,
        }),
        storage_operation@ == match storage_operation {
            StorageOperation::Command(command) => StorageOperationModel::Command(command@),
            StorageOperation::GetHold(query) => StorageOperationModel::GetHold(query@),
            StorageOperation::ListHolds(query) => StorageOperationModel::ListHolds(query@),
            StorageOperation::ListActivity(query) => StorageOperationModel::ListActivity(query@),
        },
{
}

/// Statements are modelled field by field.
pub proof fn statements_are_modelled(
    statement: Statement,
)
    ensures
        statement@ == match statement {
            Statement::Begin => StatementModel::Begin,
            Statement::ReadReceipt { caller, actor, operation, idempotency_key } =>
                StatementModel::ReadReceipt {
                caller: caller@,
                actor: actor@,
                operation: operation@,
                idempotency_key: idempotency_key@,
            },
            Statement::InsertHold {
                hold_id,
                organization_id,
                title,
                reason,
                legal_authority,
                created_by,
            } => StatementModel::InsertHold {
                hold_id: hold_id@,
                organization_id: organization_id@,
                title: title@,
                reason: reason@,
                legal_authority: legal_authority@,
                created_by: created_by@,
            },
            Statement::LockHold { organization_id, hold_id } => StatementModel::LockHold {
                organization_id: organization_id@,
                hold_id: hold_id@,
            },
            Statement::InsertScope { hold_id, scope_kind, scope_id, subject, created_by } =>
                StatementModel::InsertScope {
                hold_id: hold_id@,
                scope_kind: scope_kind@,
                scope_id: scope_id@,
                subject: optional_text(subject),
                created_by: created_by@,
            },
            Statement::DeleteScope { hold_id, scope_kind, scope_id, subject } =>
                StatementModel::DeleteScope {
                hold_id: hold_id@,
                scope_kind: scope_kind@,
                scope_id: scope_id@,
                subject: optional_text(subject),
            },
            Statement::AdvanceRevision { hold_id } => StatementModel::AdvanceRevision {
                hold_id: hold_id@,
            },
            Statement::MarkReleased { hold_id, released_by, release_reason } =>
                StatementModel::MarkReleased {
                hold_id: hold_id@,
                released_by: released_by@,
                release_reason: release_reason@,
            },
            Statement::AppendActivity { organization_id, hold_id, kind, actor_subject, payload } =>
                StatementModel::AppendActivity {
                organization_id: organization_id@,
                hold_id: hold_id@,
                kind: kind@,
                actor_subject: actor_subject@,
                payload: json_content(payload),
            },
            Statement::ReadHold { organization_id, hold_id } => StatementModel::ReadHold {
                organization_id: organization_id@,
                hold_id: hold_id@,
            },
            Statement::ReadScopes { hold_id } => StatementModel::ReadScopes {
                hold_id: hold_id@,
            },
            Statement::StoreReceipt {
                caller,
                actor,
                operation,
                idempotency_key,
                request_hash,
                response,
            } => StatementModel::StoreReceipt {
                caller: caller@,
                actor: actor@,
                operation: operation@,
                idempotency_key: idempotency_key@,
                request_hash: request_hash@,
                response: response@,
            },
            Statement::Commit => StatementModel::Commit,
            Statement::ListHoldIds { organization_id, status, cursor, limit } =>
                StatementModel::ListHoldIds {
                organization_id: organization_id@,
                status: optional_text(status),
                cursor: optional_text(cursor),
                limit: limit as int,
            },
            Statement::ListActivity { organization_id, hold_id, after, limit } =>
                StatementModel::ListActivity {
                organization_id: organization_id@,
                hold_id: hold_id@,
                after: after as int,
                limit: limit as int,
            },
            Statement::MatchHolds { scope_kind, scope_id, subject } => StatementModel::MatchHolds {
                scope_kind: scope_kind@,
                scope_id: scope_id@,
                subject: subject@,
            },
            Statement::StoreDecision {
                decision_id,
                action_id,
                caller_instance,
                request_hash,
                allowed,
                reason_code,
                matching_holds,
            } => StatementModel::StoreDecision {
                decision_id: decision_id@,
                action_id: action_id@,
                caller_instance: caller_instance@,
                request_hash: request_hash@,
                allowed,
                reason_code: optional_text(reason_code),
                matching_holds: json_content(matching_holds),
            },
        },
{
}

/// Replies are modelled field by field.
pub proof fn replies_are_modelled(
    response_fault: ResponseFault,
    receipt: Receipt,
    locked_hold: LockedHold,
    matching_hold: MatchingHold,
    reply: Reply,
)
    ensures
        response_fault@ == match response_fault {
            ResponseFault::Undecodable => ResponseFaultModel::Undecodable,
            ResponseFault::Unreadable(message) => ResponseFaultModel::Unreadable(message@),
        },
        receipt@ == (ReceiptModel {
            request_hash: receipt.request_hash@,
            response: match receipt.response {
                Ok(hold) => Ok(hold@),
                Err(fault) => Err(fault@),
            },
        }),
        locked_hold@ == (LockedHoldModel {
            status: locked_hold.status@,
            revision: locked_hold.revision as int,
        }),
        matching_hold@ == (MatchingHoldModel {
            hold_id: matching_hold.hold_id@,
            revision: matching_hold.revision as int,
        }),
        reply@ == match reply {
            Reply::Done => ReplyModel::Done,
            Reply::Affected(rows) => ReplyModel::Affected(rows as int),
            Reply::Receipt(receipt) => ReplyModel::Receipt(
                match receipt {
                    Some(receipt) => Some(receipt@),
                    None => None,
                },
            ),
            Reply::Locked(locked) => ReplyModel::Locked(
                match locked {
                    Some(locked) => Some(locked@),
                    None => None,
                },
            ),
            Reply::Hold(row) => ReplyModel::Hold(
                match row {
                    Some(row) => Some(row@),
                    None => None,
                },
            ),
            Reply::Scopes(rows, fault) => ReplyModel::Scopes(
                scope_rows(rows@),
                optional_text(fault),
            ),
            Reply::HoldIds(ids) => ReplyModel::HoldIds(optional_texts(ids@)),
            Reply::Activity(rows, fault) => ReplyModel::Activity(
                activity_rows(rows@),
                optional_text(fault),
            ),
            Reply::Matches(holds) => ReplyModel::Matches(matching_models(holds@)),
            Reply::NotPrepared => ReplyModel::NotPrepared,
            Reply::Failed => ReplyModel::Failed,
            Reply::Undecodable(step) => ReplyModel::Undecodable(step@),
            Reply::Unserializable(message) => ReplyModel::Unserializable(message@),
        },
{
}

/// Failures are modelled field by field.
pub proof fn failures_are_modelled(
    storage_error: StorageError,
    runtime_fault: RuntimeFault,
    plugin_error: PluginError<LegalHoldError>,
    authorization_failure: AuthorizationFailure,
)
    ensures
        storage_error@ == match storage_error {
            StorageError::Domain(failure) => StorageErrorModel::Domain(failure),
            StorageError::NotPrepared => StorageErrorModel::NotPrepared,
            StorageError::Database { operation } => StorageErrorModel::Database {
                operation: operation@,
            },
            StorageError::InvalidStored(message) => StorageErrorModel::InvalidStored(message@),
            StorageError::Serialization(message) => StorageErrorModel::Serialization(message@),
        },
        runtime_fault@ == match runtime_fault {
            RuntimeFault::InvalidResolvedPlan { detail } =>
                RuntimeFaultModel::InvalidResolvedPlan { detail: detail@ },
            RuntimeFault::Internal { detail } => RuntimeFaultModel::Internal {
                detail: detail@,
            },
            RuntimeFault::PluginFailure { detail } => RuntimeFaultModel::PluginFailure {
                detail: detail@,
            },
            RuntimeFault::Kernel(failure) => RuntimeFaultModel::Kernel(failure),
        },
        plugin_error@ == match plugin_error {
            PluginError::Domain(error) => PluginErrorModel::Domain(error),
            PluginError::Runtime(fault) => PluginErrorModel::Runtime(fault@),
        },
        authorization_failure@ == match authorization_failure {
            AuthorizationFailure::Unauthenticated => AuthorizationFailureModel::Unauthenticated,
            AuthorizationFailure::Forbidden => AuthorizationFailureModel::Forbidden,
            AuthorizationFailure::Runtime(fault) => AuthorizationFailureModel::Runtime(fault@),
        },
{
}

/// Checks of the guard and their decisions are modelled field by field.
pub proof fn checks_are_modelled(
    retention_check: RetentionCheck,
    guard_decision: GuardDecision,
)
    ensures
        retention_check@ == (RetentionCheckModel {
            caller: retention_check.caller@,
            action_id: retention_check.action_id@,
            scope_kind: retention_check.scope_kind@,
            scope_id: retention_check.scope_id@,
            subject: retention_check.subject@,
            mode: retention_check.mode@,
            reason: retention_check.reason@,
        }),
        guard_decision@ == (GuardDecisionModel {
            allowed: guard_decision.allowed,
            decision_id: guard_decision.decision_id@,
            reason_code: optional_text(guard_decision.reason_code),
        }),
{
}

/// Authorizations, and what is asked and answered in them, are modelled field by
/// field.
pub proof fn authorizations_are_modelled(
    authorization: Authorization,
    dependency_query: DependencyQuery,
    dependency_reply: DependencyReply,
    grant: Grant,
)
    ensures
        authorization@ == (AuthorizationModel {
            operation: authorization.operation@,
            organization_id: authorization.organization_id@,
            permission: authorization.permission@,
        }),
        dependency_query@ == match dependency_query {
            DependencyQuery::Authenticate { capability_id, operation } =>
                DependencyQueryModel::Authenticate {
                capability_id: capability_id@,
                operation: operation@,
            },
            DependencyQuery::CheckMembership { organization_id, subject } =>
                DependencyQueryModel::CheckMembership {
                organization_id: organization_id@,
                subject: subject@,
            },
            DependencyQuery::CheckPermission { subject, scope_kind, scope_id, permission } =>
                DependencyQueryModel::CheckPermission {
                subject: subject@,
                scope_kind: scope_kind@,
                scope_id: scope_id@,
                permission: permission@,
            },
        },
        dependency_reply@ == match dependency_reply {
            DependencyReply::Subject(subject) => DependencyReplyModel::Subject(
                optional_text(subject),
            ),
            DependencyReply::Answer(answer) => DependencyReplyModel::Answer(answer),
            DependencyReply::Rejected => DependencyReplyModel::Rejected,
            DependencyReply::Failed(failure) => DependencyReplyModel::Failed(failure),
        },
        grant@ == (GrantModel { caller: grant.caller@, actor: grant.actor@ }),
{
}

/// How far runs have come is modelled part by part.
pub proof fn phases_are_modelled(
    command_phase: CommandPhase,
    get_hold_phase: GetHoldPhase,
    page_progress: PageProgress,
    list_holds_phase: ListHoldsPhase,
    list_activity_phase: ListActivityPhase,
    guard_phase: GuardPhase,
    authorization_phase: AuthorizationPhase,
    storage_run: StorageRun,
    admin_phase: AdminPhase,
)
    ensures
        command_phase@ == match command_phase {
            CommandPhase::Begin => CommandPhaseModel::Begin,
            CommandPhase::Receipt => CommandPhaseModel::Receipt,
            CommandPhase::Lock => CommandPhaseModel::Lock,
            CommandPhase::Change => CommandPhaseModel::Change,
            CommandPhase::Advance => CommandPhaseModel::Advance,
            CommandPhase::Activity => CommandPhaseModel::Activity,
            CommandPhase::Hold => CommandPhaseModel::Hold,
            CommandPhase::Scopes(stored) => CommandPhaseModel::Scopes(stored@),
            CommandPhase::Store(hold) => CommandPhaseModel::Store(hold@),
            CommandPhase::Commit(hold) => CommandPhaseModel::Commit(hold@),
        },
        get_hold_phase@ == match get_hold_phase {
            GetHoldPhase::Begin => GetHoldPhaseModel::Begin,
            GetHoldPhase::Hold => GetHoldPhaseModel::Hold,
            GetHoldPhase::Scopes(stored) => GetHoldPhaseModel::Scopes(stored@),
            GetHoldPhase::Commit(hold) => GetHoldPhaseModel::Commit(hold@),
        },
        page_progress@ == (PageProgressModel {
            ids: optional_texts(page_progress.ids@),
            has_more: page_progress.has_more,
            loaded: hold_models(page_progress.loaded@),
            read: page_progress.read@,
        }),
        list_holds_phase@ == match list_holds_phase {
            ListHoldsPhase::Ids => ListHoldsPhaseModel::Ids,
            ListHoldsPhase::Holds(progress) => ListHoldsPhaseModel::Holds(progress@),
        },
        list_activity_phase@ == match list_activity_phase {
            ListActivityPhase::Hold(phase) => ListActivityPhaseModel::Hold(phase@),
            ListActivityPhase::Events => ListActivityPhaseModel::Events,
        },
        guard_phase@ == match guard_phase {
            GuardPhase::Match => GuardPhaseModel::Match,
            GuardPhase::Store(decision) => GuardPhaseModel::Store(decision@),
        },
        authorization_phase@ == match authorization_phase {
            AuthorizationPhase::Authenticate { caller } => AuthorizationPhaseModel::Authenticate {
                caller: caller@,
            },
            AuthorizationPhase::Membership(grant) => AuthorizationPhaseModel::Membership(grant@),
            AuthorizationPhase::Permission(grant) => AuthorizationPhaseModel::Permission(grant@),
        },
        storage_run@ == match storage_run {
            StorageRun::Command(command, phase) => StorageRunModel::Command(command@, phase@),
            StorageRun::GetHold(query, phase) => StorageRunModel::GetHold(query@, phase@),
            StorageRun::ListHolds(query, phase) => StorageRunModel::ListHolds(query@, phase@),
            StorageRun::ListActivity(query, phase) => StorageRunModel::ListActivity(query@, phase@),
        },
        admin_phase@ == match admin_phase {
            AdminPhase::Authorize(request, phase) => AdminPhaseModel::Authorize(request, phase@),
            AdminPhase::Storage(run) => AdminPhaseModel::Storage(run@),
        },
{
}

/// What comes next in a run is modelled part by part.
pub proof fn steps_are_modelled(
    command_step: CommandStep,
    get_hold_step: GetHoldStep,
    list_holds_step: ListHoldsStep,
    list_activity_step: ListActivityStep,
    guard_step: GuardStep,
    authorization_step: AuthorizationStep,
    admin_step: AdminStep,
)
    ensures
        command_step@ == match command_step {
            CommandStep::Run(phase, statement) => CommandStepModel::Run(phase@, statement@),
            CommandStep::Finished(outcome) => CommandStepModel::Finished(hold_outcome(outcome)),
        },
        get_hold_step@ == match get_hold_step {
            GetHoldStep::Run(phase, statement) => GetHoldStepModel::Run(phase@, statement@),
            GetHoldStep::Finished(outcome) => GetHoldStepModel::Finished(hold_outcome(outcome)),
        },
        list_holds_step@ == match list_holds_step {
            ListHoldsStep::Run(phase, statement) => ListHoldsStepModel::Run(phase@, statement@),
            ListHoldsStep::Finished(Ok(page)) => ListHoldsStepModel::Finished(Ok(page@)),
            ListHoldsStep::Finished(Err(error)) => ListHoldsStepModel::Finished(Err(error@)),
        },
        list_activity_step@ == match list_activity_step {
            ListActivityStep::Run(phase, statement) => ListActivityStepModel::Run(
                phase@,
                statement@,
            ),
            ListActivityStep::Finished(Ok(page)) => ListActivityStepModel::Finished(Ok(page@)),
            ListActivityStep::Finished(Err(error)) => ListActivityStepModel::Finished(Err(error@)),
        },
        guard_step@ == match guard_step {
            GuardStep::Run(phase, statement) => GuardStepModel::Run(phase@, statement@),
            GuardStep::Finished(outcome) => GuardStepModel::Finished(guard_outcome(outcome)),
        },
        authorization_step@ == match authorization_step {
            AuthorizationStep::Ask(phase, query) => AuthorizationStepModel::Ask(phase@, query@),
            AuthorizationStep::Granted(grant) => AuthorizationStepModel::Granted(grant@),
            AuthorizationStep::Refused(failure) => AuthorizationStepModel::Refused(failure@),
        },
        admin_step@ == match admin_step {
            AdminStep::Continue(phase, action) => AdminStepModel::Continue(phase@, action@),
            AdminStep::Finished(outcome) => AdminStepModel::Finished(admin_outcome(outcome)),
        },
{
}

/// What a request of an administrator exchanges and is answered is modelled part by
/// part.
pub proof fn administration_is_modelled(
    admin_response: AdminResponse,
    admin_action: AdminAction,
    admin_event: AdminEvent,
)
    ensures
        admin_response@ == match admin_response {
            AdminResponse::Hold(hold) => AdminResponseModel::Hold(hold@),
            AdminResponse::Holds(page) => AdminResponseModel::Holds(page@),
            AdminResponse::Activity { events, next_cursor } => AdminResponseModel::Activity {
                events: activity_models(events@),
                next_cursor: next_cursor@,
            },
        },
        admin_action@ == match admin_action {
            AdminAction::Ask(query) => AdminActionModel::Ask(query@),
            AdminAction::Execute(statement) => AdminActionModel::Execute(statement@),
        },
        admin_event@ == match admin_event {
            AdminEvent::Dependency(reply) => AdminEventModel::Dependency(reply@),
            AdminEvent::Storage(reply) => AdminEventModel::Storage(reply@),
        },
{
}

/// Tools and what their calls are answered are modelled field by field.
pub proof fn tools_are_modelled(
    tool_definition: ToolDefinition,
    execute_error: ExecuteError,
    execute_response: ExecuteResponse,
    invocation: Invocation,
)
    ensures
        tool_definition@ == (ToolDefinitionModel {
            name: tool_definition.name@,
            description: tool_definition.description@,
            input_schema_json: tool_definition.input_schema_json@,
            execution: tool_definition.execution,
        }),
        execute_error@ == match execute_error {
            ExecuteError::NotFound => ExecuteErrorModel::NotFound,
            ExecuteError::InvalidArguments => ExecuteErrorModel::InvalidArguments,
            ExecuteError::PermissionDenied => ExecuteErrorModel::PermissionDenied,
            ExecuteError::ExecutionFailed { reason_code, message, details_json } =>
                ExecuteErrorModel::ExecutionFailed {
                reason_code: reason_code@,
                message: message@,
                details_json: details_json@,
            },
        },
        execute_response@ == (ExecuteResponseModel {
            content_type: execute_response.content_type,
            content: execute_response.content@,
            content_blocks: match execute_response.content_blocks {
                Some(blocks) => Some(blocks@),
                None => None,
            },
            metadata_json: execute_response.metadata_json@,
        }),
        invocation@ == match invocation {
            Invocation::Answered(Ok(response)) => InvocationModel::Answered(
                Ok(json_content(response)),
            ),
            Invocation::Answered(Err(message)) => InvocationModel::Answered(Err(message@)),
            Invocation::Ended(error) => InvocationModel::Ended(error@),
        },
{
}

} // verus!
