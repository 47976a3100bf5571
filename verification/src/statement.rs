//! What storage is asked to do, and what it answers.
//!
//! A run of an operation alternates between the two: it asks for one
//! [`Statement`] at a time and decides on the [`Reply`] what comes next.
use vstd::prelude::*;
use vstd::string::*;
use crate::hold::{
    activity_rows, scope_rows, ActivityRow, ActivityRowModel, HoldModel, HoldView, ScopeRow,
    ScopeRowModel, StoredHold, StoredHoldModel,
};
use crate::json::{json_content, Json};
use crate::text::{optional_text, optional_texts, text_of, Text};

verus! {

/// One thing that storage is asked to do.
#[allow(inconsistent_fields)]
#[derive(Debug, PartialEq, Eq)]
pub enum Statement {
    /// Opens a transaction.
    Begin,
    /// Reads the receipt of an earlier command, if there is one.
    ReadReceipt {
        caller: String,
        actor: String,
        operation: String,
        idempotency_key: String,
    },
    /// Inserts an active hold at revision 1 unless its identifier is taken.
    InsertHold {
        hold_id: String,
        organization_id: String,
        title: String,
        reason: String,
        legal_authority: String,
        created_by: String,
    },
    /// Locks the row of a hold and reads its status and revision.
    LockHold {
        organization_id: String,
        hold_id: String,
    },
    /// Adds a scope to a hold unless the hold already has it.
    InsertScope {
        hold_id: String,
        scope_kind: String,
        scope_id: String,
        subject: Option<String>,
        created_by: String,
    },
    /// Removes a scope from a hold, if the hold has it.
    DeleteScope {
        hold_id: String,
        scope_kind: String,
        scope_id: String,
        subject: Option<String>,
    },
    /// Adds one to the revision of a hold.
    AdvanceRevision {
        hold_id: String,
    },
    /// Releases a hold and adds one to its revision.
    MarkReleased {
        hold_id: String,
        released_by: String,
        release_reason: String,
    },
    /// Appends an activity event to a hold.
    AppendActivity {
        organization_id: String,
        hold_id: String,
        kind: String,
        actor_subject: String,
        payload: serde_json::Value,
    },
    /// Reads the row of a hold.
    ReadHold {
        organization_id: String,
        hold_id: String,
    },
    /// Reads the scopes of a hold in order.
    ReadScopes {
        hold_id: String,
    },
    /// Stores the receipt of a command.
    StoreReceipt {
        caller: String,
        actor: String,
        operation: String,
        idempotency_key: String,
        request_hash: Vec<u8>,
        response: HoldView,
    },
    /// Commits the open transaction.
    Commit,
    /// Lists hold identifiers after a cursor, in order.
    ListHoldIds {
        organization_id: String,
        status: Option<String>,
        cursor: Option<String>,
        limit: i64,
    },
    /// Lists the activity of a hold after a cursor, in order.
    ListActivity {
        organization_id: String,
        hold_id: String,
        after: i64,
        limit: i64,
    },
    /// Lists the active holds with a scope that covers a subject, in order.
    MatchHolds {
        scope_kind: String,
        scope_id: String,
        subject: String,
    },
    /// Stores a guard decision unless it is already stored.
    StoreDecision {
        decision_id: String,
        action_id: String,
        caller_instance: String,
        request_hash: Vec<u8>,
        allowed: bool,
        reason_code: Option<String>,
        matching_holds: serde_json::Value,
    },
}

/// What a [`Statement`] says.
#[allow(inconsistent_fields)]
#[verifier::ext_equal]
pub enum StatementModel {
    Begin,
    ReadReceipt {
        caller: Text,
        actor: Text,
        operation: Text,
        idempotency_key: Text,
    },
    InsertHold {
        hold_id: Text,
        organization_id: Text,
        title: Text,
        reason: Text,
        legal_authority: Text,
        created_by: Text,
    },
    LockHold {
        organization_id: Text,
        hold_id: Text,
    },
    InsertScope {
        hold_id: Text,
        scope_kind: Text,
        scope_id: Text,
        subject: Option<Text>,
        created_by: Text,
    },
    DeleteScope {
        hold_id: Text,
        scope_kind: Text,
        scope_id: Text,
        subject: Option<Text>,
    },
    AdvanceRevision {
        hold_id: Text,
    },
    MarkReleased {
        hold_id: Text,
        released_by: Text,
        release_reason: Text,
    },
    AppendActivity {
        organization_id: Text,
        hold_id: Text,
        kind: Text,
        actor_subject: Text,
        payload: Json,
    },
    ReadHold {
        organization_id: Text,
        hold_id: Text,
    },
    ReadScopes {
        hold_id: Text,
    },
    StoreReceipt {
        caller: Text,
        actor: Text,
        operation: Text,
        idempotency_key: Text,
        request_hash: Seq<u8>,
        response: HoldModel,
    },
    Commit,
    ListHoldIds {
        organization_id: Text,
        status: Option<Text>,
        cursor: Option<Text>,
        limit: int,
    },
    ListActivity {
        organization_id: Text,
        hold_id: Text,
        after: int,
        limit: int,
    },
    MatchHolds {
        scope_kind: Text,
        scope_id: Text,
        subject: Text,
    },
    StoreDecision {
        decision_id: Text,
        action_id: Text,
        caller_instance: Text,
        request_hash: Seq<u8>,
        allowed: bool,
        reason_code: Option<Text>,
        matching_holds: Json,
    },
}

impl View for Statement {
    type V = StatementModel;

    open spec fn view(&self) -> StatementModel {
        match *self {
            Statement::Begin => StatementModel::Begin,
            Statement::ReadReceipt { caller, actor, operation, idempotency_key } =>
                StatementModel::ReadReceipt {
                caller: caller@,
                actor: actor@,
                operation: operation@,
                idempotency_key: idempotency_key@,
            },
            Statement::InsertHold {
                hold_id,
                organization_id,
                title,
                reason,
                legal_authority,
                created_by,
            } => StatementModel::InsertHold {
                hold_id: hold_id@,
                organization_id: organization_id@,
                title: title@,
                reason: reason@,
                legal_authority: legal_authority@,
                created_by: created_by@,
            },
            Statement::LockHold { organization_id, hold_id } => StatementModel::LockHold {
                organization_id: organization_id@,
                hold_id: hold_id@,
            },
            Statement::InsertScope { hold_id, scope_kind, scope_id, subject, created_by } =>
                StatementModel::InsertScope {
                hold_id: hold_id@,
                scope_kind: scope_kind@,
                scope_id: scope_id@,
                subject: optional_text(subject),
                created_by: created_by@,
            },
            Statement::DeleteScope { hold_id, scope_kind, scope_id, subject } =>
                StatementModel::DeleteScope {
                hold_id: hold_id@,
                scope_kind: scope_kind@,
                scope_id: scope_id@,
                subject: optional_text(subject),
            },
            Statement::AdvanceRevision { hold_id } => StatementModel::AdvanceRevision {
                hold_id: hold_id@,
            },
            Statement::MarkReleased { hold_id, released_by, release_reason } =>
                StatementModel::MarkReleased {
                hold_id: hold_id@,
                released_by: released_by@,
                release_reason: release_reason@,
            },
            Statement::AppendActivity { organization_id, hold_id, kind, actor_subject, payload } =>
                StatementModel::AppendActivity {
                organization_id: organization_id@,
                hold_id: hold_id@,
                kind: kind@,
                actor_subject: actor_subject@,
                payload: json_content(payload),
            },
            Statement::ReadHold { organization_id, hold_id } => StatementModel::ReadHold {
                organization_id: organization_id@,
                hold_id: hold_id@,
            },
            Statement::ReadScopes { hold_id } => StatementModel::ReadScopes {
                hold_id: hold_id@,
            },
            Statement::StoreReceipt {
                caller,
                actor,
                operation,
                idempotency_key,
                request_hash,
                response,
            } => StatementModel::StoreReceipt {
                caller: caller@,
                actor: actor@,
                operation: operation@,
                idempotency_key: idempotency_key@,
                request_hash: request_hash@,
                response: response@,
            },
            Statement::Commit => StatementModel::Commit,
            Statement::ListHoldIds { organization_id, status, cursor, limit } =>
                StatementModel::ListHoldIds {
                organization_id: organization_id@,
                status: optional_text(status),
                cursor: optional_text(cursor),
                limit: limit as int,
            },
            Statement::ListActivity { organization_id, hold_id, after, limit } =>
                StatementModel::ListActivity {
                organization_id: organization_id@,
                hold_id: hold_id@,
                after: after as int,
                limit: limit as int,
            },
            Statement::MatchHolds { scope_kind, scope_id, subject } => StatementModel::MatchHolds {
                scope_kind: scope_kind@,
                scope_id: scope_id@,
                subject: subject@,
            },
            Statement::StoreDecision {
                decision_id,
                action_id,
                caller_instance,
                request_hash,
                allowed,
                reason_code,
                matching_holds,
            } => StatementModel::StoreDecision {
                decision_id: decision_id@,
                action_id: action_id@,
                caller_instance: caller_instance@,
                request_hash: request_hash@,
                allowed,
                reason_code: optional_text(reason_code),
                matching_holds: json_content(matching_holds),
            },
        }
    }
}

/// Why the response in a receipt cannot be used.
#[derive(Debug, PartialEq, Eq)]
pub enum ResponseFault {
    /// The stored column could not be decoded.
    Undecodable,
    /// The stored JSON is not a response; the text says why.
    Unreadable(String),
}

/// What a [`ResponseFault`] says.
#[verifier::ext_equal]
pub enum ResponseFaultModel {
    Undecodable,
    Unreadable(Text),
}

impl View for ResponseFault {
    type V = ResponseFaultModel;

    open spec fn view(&self) -> ResponseFaultModel {
        match *self {
            ResponseFault::Undecodable => ResponseFaultModel::Undecodable,
            ResponseFault::Unreadable(message) => ResponseFaultModel::Unreadable(message@),
        }
    }
}

/// The stored receipt of a command: the digest of the request that it answered,
/// and the response, or why the stored response cannot be used.
#[derive(Debug, PartialEq, Eq)]
pub struct Receipt {
    pub request_hash: Vec<u8>,
    pub response: Result<HoldView, ResponseFault>,
}

/// What a [`Receipt`] holds.
#[verifier::ext_equal]
pub struct ReceiptModel {
    pub request_hash: Seq<u8>,
    pub response: Result<HoldModel, ResponseFaultModel>,
}

impl View for Receipt {
    type V = ReceiptModel;

    open spec fn view(&self) -> ReceiptModel {
        ReceiptModel {
            request_hash: self.request_hash@,
            response: match self.response {
                Ok(hold) => Ok(hold@),
                Err(fault) => Err(fault@),
            },
        }
    }
}

/// The part of a locked hold row on which a change is decided.
#[derive(Debug, PartialEq, Eq)]
pub struct LockedHold {
    pub status: String,
    pub revision: i64,
}

/// What a [`LockedHold`] holds.
#[verifier::ext_equal]
pub struct LockedHoldModel {
    pub status: Text,
    pub revision: int,
}

impl View for LockedHold {
    type V = LockedHoldModel;

    open spec fn view(&self) -> LockedHoldModel {
        LockedHoldModel { status: self.status@, revision: self.revision as int }
    }
}

/// An active hold that covers a subject, at the revision that was seen.
#[derive(Debug, PartialEq, Eq)]
pub struct MatchingHold {
    pub hold_id: String,
    pub revision: i64,
}

/// What a [`MatchingHold`] holds.
#[verifier::ext_equal]
pub struct MatchingHoldModel {
    pub hold_id: Text,
    pub revision: int,
}

impl View for MatchingHold {
    type V = MatchingHoldModel;

    open spec fn view(&self) -> MatchingHoldModel {
        MatchingHoldModel { hold_id: self.hold_id@, revision: self.revision as int }
    }
}

/// What a list of matching holds holds.
pub open spec fn matching_models(holds: Seq<MatchingHold>) -> Seq<MatchingHoldModel> {
    Seq::new(holds.len(), |i: int| holds[i]@)
}

/// What storage answers to a statement.
#[derive(Debug, PartialEq, Eq)]
pub enum Reply {
    /// A transaction was opened or committed.
    Done,
    /// A change was made to so many rows.
    Affected(u64),
    Receipt(Option<Receipt>),
    Locked(Option<LockedHold>),
    /// The row of a hold, decoded or not, where there is one.
    Hold(Option<StoredHold>),
    /// Scopes up to the first that could not be decoded, and the step that names it.
    Scopes(Vec<ScopeRow>, Option<String>),
    /// Identifiers of holds, each where it could be decoded.
    HoldIds(Vec<Option<String>>),
    /// Events up to the first that could not be decoded, and the step that names it.
    Activity(Vec<ActivityRow>, Option<String>),
    Matches(Vec<MatchingHold>),
    /// The Plugin has no prepared storage.
    NotPrepared,
    /// The statement failed.
    Failed,
    /// A row came back that could not be decoded; the text names the step.
    Undecodable(String),
    /// The statement could not be made because its response has no JSON form.
    Unserializable(String),
}

/// What a [`Reply`] says.
#[verifier::ext_equal]
pub enum ReplyModel {
    Done,
    Affected(int),
    Receipt(Option<ReceiptModel>),
    Locked(Option<LockedHoldModel>),
    Hold(Option<StoredHoldModel>),
    Scopes(Seq<ScopeRowModel>, Option<Text>),
    HoldIds(Seq<Option<Text>>),
    Activity(Seq<ActivityRowModel>, Option<Text>),
    Matches(Seq<MatchingHoldModel>),
    NotPrepared,
    Failed,
    Undecodable(Text),
    Unserializable(Text),
}

impl View for Reply {
    type V = ReplyModel;

    open spec fn view(&self) -> ReplyModel {
        match *self {
            Reply::Done => ReplyModel::Done,
            Reply::Affected(rows) => ReplyModel::Affected(rows as int),
            Reply::Receipt(receipt) => ReplyModel::Receipt(
                match receipt {
                    Some(receipt) => Some(receipt@),
                    None => None,
                },
            ),
            Reply::Locked(locked) => ReplyModel::Locked(
                match locked {
                    Some(locked) => Some(locked@),
                    None => None,
                },
            ),
            Reply::Hold(row) => ReplyModel::Hold(
                match row {
                    Some(row) => Some(row@),
                    None => None,
                },
            ),
            Reply::Scopes(rows, fault) => ReplyModel::Scopes(
                scope_rows(rows@),
                optional_text(fault),
            ),
            Reply::HoldIds(ids) => ReplyModel::HoldIds(optional_texts(ids@)),
            Reply::Activity(rows, fault) => ReplyModel::Activity(
                activity_rows(rows@),
                optional_text(fault),
            ),
            Reply::Matches(holds) => ReplyModel::Matches(matching_models(holds@)),
            Reply::NotPrepared => ReplyModel::NotPrepared,
            Reply::Failed => ReplyModel::Failed,
            Reply::Undecodable(step) => ReplyModel::Undecodable(step@),
            Reply::Unserializable(message) => ReplyModel::Unserializable(message@),
        }
    }
}

/// A domain answer that is not a success.
#[derive(Clone, Copy, Debug, PartialEq, Eq, Structural)]
pub enum DomainFailure {
    NotFound,
    RevisionConflict,
    IdempotencyConflict,
    ScopeConflict,
    HoldReleased,
}

/// Why a run of a storage operation did not succeed.
#[derive(Debug, PartialEq, Eq)]
pub enum StorageError {
    /// The domain refuses the operation.
    Domain(DomainFailure),
    /// The Plugin has no prepared storage.
    NotPrepared,
    /// A named database step failed.
    Database { operation: String },
    /// A stored value cannot be presented.
    InvalidStored(String),
    /// A stored or new response has no JSON form.
    Serialization(String),
}

/// What a [`StorageError`] says.
#[verifier::ext_equal]
pub enum StorageErrorModel {
    Domain(DomainFailure),
    NotPrepared,
    Database { operation: Text },
    InvalidStored(Text),
    Serialization(Text),
}

impl View for StorageError {
    type V = StorageErrorModel;

    open spec fn view(&self) -> StorageErrorModel {
        match *self {
            StorageError::Domain(failure) => StorageErrorModel::Domain(failure),
            StorageError::NotPrepared => StorageErrorModel::NotPrepared,
            StorageError::Database { operation } => StorageErrorModel::Database {
                operation: operation@,
            },
            StorageError::InvalidStored(message) => StorageErrorModel::InvalidStored(message@),
            StorageError::Serialization(message) => StorageErrorModel::Serialization(message@),
        }
    }
}

/// The name of a domain failure, as failure details write it.
pub open spec fn domain_failure_name(failure: DomainFailure) -> Text {
    match failure {
        DomainFailure::NotFound => "NotFound"@,
        DomainFailure::RevisionConflict => "RevisionConflict"@,
        DomainFailure::IdempotencyConflict => "IdempotencyConflict"@,
        DomainFailure::ScopeConflict => "ScopeConflict"@,
        DomainFailure::HoldReleased => "HoldReleased"@,
    }
}

impl StorageErrorModel {
    /// The detail with which a failed storage operation is reported.
    pub open spec fn detail(self) -> Text {
        match self {
            StorageErrorModel::Domain(failure) => "legal hold domain failure: "@
                + domain_failure_name(failure),
            StorageErrorModel::NotPrepared => "Legal Hold Plugin is not prepared"@,
            StorageErrorModel::Database { operation } => "PostgreSQL operation `"@ + operation
                + "` failed"@,
            StorageErrorModel::InvalidStored(message) => "stored Legal Hold value is invalid: "@
                + message,
            StorageErrorModel::Serialization(_) => "Legal Hold response serialization failed"@,
        }
    }
}

impl DomainFailure {
    /// The name of this failure.
    pub fn name(&self) -> (name: &'static str)
        ensures
            name@ == domain_failure_name(*self),
    {
        match self {
            DomainFailure::NotFound => "NotFound",
            DomainFailure::RevisionConflict => "RevisionConflict",
            DomainFailure::IdempotencyConflict => "IdempotencyConflict",
            DomainFailure::ScopeConflict => "ScopeConflict",
            DomainFailure::HoldReleased => "HoldReleased",
        }
    }
}

impl StorageError {
    /// The detail with which this failure is reported.
    pub fn detail(&self) -> (detail: String)
        ensures
            detail@ == self@.detail(),
    {
        match self {
            StorageError::Domain(failure) => {
                let mut detail = text_of("legal hold domain failure: ");
                detail.append(failure.name());
                detail
            },
            StorageError::NotPrepared => text_of("Legal Hold Plugin is not prepared"),
            StorageError::Database { operation } => {
                let mut detail = text_of("PostgreSQL operation `");
                detail.append(operation.as_str());
                detail.append("` failed");
                detail
            },
            StorageError::InvalidStored(message) => {
                let mut detail = text_of("stored Legal Hold value is invalid: ");
                detail.append(message.as_str());
                detail
            },
            StorageError::Serialization(_) => text_of("Legal Hold response serialization failed"),
        }
    }
}

/// The detail of a failure says what failed: the domain failure by its name, the
/// database step, or the message about the stored value. What could not be serialized
/// is not repeated.
pub proof fn failure_details_say_what_failed(error: StorageErrorModel)
    ensures
        match error {
            StorageErrorModel::Domain(failure) => error.detail() == "legal hold domain failure: "@
                + match failure {
                DomainFailure::NotFound => "NotFound"@,
                DomainFailure::RevisionConflict => "RevisionConflict"@,
                DomainFailure::IdempotencyConflict => "IdempotencyConflict"@,
                DomainFailure::ScopeConflict => "ScopeConflict"@,
                DomainFailure::HoldReleased => "HoldReleased"@,
            },
            StorageErrorModel::NotPrepared => error.detail()
                == "Legal Hold Plugin is not prepared"@,
            StorageErrorModel::Database { operation } => error.detail()
                == "PostgreSQL operation `"@ + operation + "` failed"@,
            StorageErrorModel::InvalidStored(message) => error.detail()
                == "stored Legal Hold value is invalid: "@ + message,
            StorageErrorModel::Serialization(_) => error.detail()
                == "Legal Hold response serialization failed"@,
        },
{
}

} // verus!
