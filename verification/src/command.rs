//! Commands that change a hold: creation, scope changes and release.
//!
//! A run replays the receipt of an earlier identical command, or locks the hold,
//! compares its revision, makes one change, records activity, and stores a
//! receipt with the response, all in one transaction. The transaction is rolled
//! back whenever a run finishes before its commit.
use vstd::prelude::*;
use crate::hold::{scope_rows, HoldModel, HoldView, ScopeRow, StoredHold, StoredHoldModel};
use crate::json::{
    json_content, keys_are_distinct, members_content, nullable, nullable_member, object_value,
    text_member, Json,
};
use crate::query::{load_hold, loaded_hold};
use crate::statement::{
    DomainFailure, LockedHold, LockedHoldModel, Receipt, ReceiptModel, Reply, ReplyModel,
    ResponseFault, ResponseFaultModel, Statement, StatementModel, StorageError, StorageErrorModel,
};
use crate::text::{copy_optional, optional_text, text_of, Text};

verus! {

/// The operation under which receipts of created holds are kept.
pub const CREATE_HOLD: &'static str = "create_hold";

/// The operation under which receipts of released holds are kept.
pub const RELEASE_HOLD: &'static str = "release_hold";

/// The status of a hold that preserves what its scopes cover.
pub const ACTIVE: &'static str = "active";

/// The status of a hold that no longer preserves anything.
pub const RELEASED: &'static str = "released";

/// Creates a hold.
#[derive(Debug, PartialEq, Eq)]
pub struct CreateHold {
    pub caller: String,
    pub actor: String,
    pub organization_id: String,
    pub hold_id: String,
    pub title: String,
    pub reason: String,
    pub legal_authority: String,
    pub idempotency_key: String,
    pub request_hash: Vec<u8>,
}

/// What a [`CreateHold`] says.
#[verifier::ext_equal]
pub struct CreateHoldModel {
    pub caller: Text,
    pub actor: Text,
    pub organization_id: Text,
    pub hold_id: Text,
    pub title: Text,
    pub reason: Text,
    pub legal_authority: Text,
    pub idempotency_key: Text,
    pub request_hash: Seq<u8>,
}

impl View for CreateHold {
    type V = CreateHoldModel;

    open spec fn view(&self) -> CreateHoldModel {
        CreateHoldModel {
            caller: self.caller@,
            actor: self.actor@,
            organization_id: self.organization_id@,
            hold_id: self.hold_id@,
            title: self.title@,
            reason: self.reason@,
            legal_authority: self.legal_authority@,
            idempotency_key: self.idempotency_key@,
            request_hash: self.request_hash@,
        }
    }
}

/// Adds a scope to a hold or removes one from it.
#[derive(Debug, PartialEq, Eq)]
pub struct MutateScope {
    pub caller: String,
    pub actor: String,
    pub operation: String,
    pub organization_id: String,
    pub hold_id: String,
    pub scope_kind: String,
    pub scope_id: String,
    pub subject: Option<String>,
    pub expected_revision: i64,
    pub idempotency_key: String,
    pub request_hash: Vec<u8>,
    pub add: bool,
}

/// What a [`MutateScope`] says.
#[verifier::ext_equal]
pub struct MutateScopeModel {
    pub caller: Text,
    pub actor: Text,
    pub operation: Text,
    pub organization_id: Text,
    pub hold_id: Text,
    pub scope_kind: Text,
    pub scope_id: Text,
    pub subject: Option<Text>,
    pub expected_revision: int,
    pub idempotency_key: Text,
    pub request_hash: Seq<u8>,
    pub add: bool,
}

impl View for MutateScope {
    type V = MutateScopeModel;

    open spec fn view(&self) -> MutateScopeModel {
        MutateScopeModel {
            caller: self.caller@,
            actor: self.actor@,
            operation: self.operation@,
            organization_id: self.organization_id@,
            hold_id: self.hold_id@,
            scope_kind: self.scope_kind@,
            scope_id: self.scope_id@,
            subject: optional_text(self.subject),
            expected_revision: self.expected_revision as int,
            idempotency_key: self.idempotency_key@,
            request_hash: self.request_hash@,
            add: self.add,
        }
    }
}

/// Releases a hold.
#[derive(Debug, PartialEq, Eq)]
pub struct ReleaseHold {
    pub caller: String,
    pub actor: String,
    pub organization_id: String,
    pub hold_id: String,
    pub expected_revision: i64,
    pub reason: String,
    pub idempotency_key: String,
    pub request_hash: Vec<u8>,
}

/// What a [`ReleaseHold`] says.
#[verifier::ext_equal]
pub struct ReleaseHoldModel {
    pub caller: Text,
    pub actor: Text,
    pub organization_id: Text,
    pub hold_id: Text,
    pub expected_revision: int,
    pub reason: Text,
    pub idempotency_key: Text,
    pub request_hash: Seq<u8>,
}

impl View for ReleaseHold {
    type V = ReleaseHoldModel;

    open spec fn view(&self) -> ReleaseHoldModel {
        ReleaseHoldModel {
            caller: self.caller@,
            actor: self.actor@,
            organization_id: self.organization_id@,
            hold_id: self.hold_id@,
            expected_revision: self.expected_revision as int,
            reason: self.reason@,
            idempotency_key: self.idempotency_key@,
            request_hash: self.request_hash@,
        }
    }
}

/// A command that changes a hold.
#[derive(Debug, PartialEq, Eq)]
pub enum Command {
    Create(CreateHold),
    Scope(MutateScope),
    Release(ReleaseHold),
}

/// What a [`Command`] says.
#[verifier::ext_equal]
pub enum CommandModel {
    Create(CreateHoldModel),
    Scope(MutateScopeModel),
    Release(ReleaseHoldModel),
}

impl View for Command {
    type V = CommandModel;

    open spec fn view(&self) -> CommandModel {
        match *self {
            Command::Create(command) => CommandModel::Create(command@),
            Command::Scope(command) => CommandModel::Scope(command@),
            Command::Release(command) => CommandModel::Release(command@),
        }
    }
}

impl CommandModel {
    /// The Instance on whose behalf the command runs.
    pub open spec fn caller(self) -> Text {
        match self {
            CommandModel::Create(command) => command.caller,
            CommandModel::Scope(command) => command.caller,
            CommandModel::Release(command) => command.caller,
        }
    }

    /// The authenticated subject who issued the command.
    pub open spec fn actor(self) -> Text {
        match self {
            CommandModel::Create(command) => command.actor,
            CommandModel::Scope(command) => command.actor,
            CommandModel::Release(command) => command.actor,
        }
    }

    /// The operation under which the receipt is kept.
    pub open spec fn operation(self) -> Text {
        match self {
            CommandModel::Create(command) => CREATE_HOLD@,
            CommandModel::Scope(command) => command.operation,
            CommandModel::Release(command) => RELEASE_HOLD@,
        }
    }

    /// The key that makes a repeated command idempotent.
    pub open spec fn idempotency_key(self) -> Text {
        match self {
            CommandModel::Create(command) => command.idempotency_key,
            CommandModel::Scope(command) => command.idempotency_key,
            CommandModel::Release(command) => command.idempotency_key,
        }
    }

    /// The digest of the request.
    pub open spec fn request_hash(self) -> Seq<u8> {
        match self {
            CommandModel::Create(command) => command.request_hash,
            CommandModel::Scope(command) => command.request_hash,
            CommandModel::Release(command) => command.request_hash,
        }
    }

    /// The organization of the hold.
    pub open spec fn organization_id(self) -> Text {
        match self {
            CommandModel::Create(command) => command.organization_id,
            CommandModel::Scope(command) => command.organization_id,
            CommandModel::Release(command) => command.organization_id,
        }
    }

    /// The hold that the command changes.
    pub open spec fn hold_id(self) -> Text {
        match self {
            CommandModel::Create(command) => command.hold_id,
            CommandModel::Scope(command) => command.hold_id,
            CommandModel::Release(command) => command.hold_id,
        }
    }

    /// The name of the activity that the command records.
    pub open spec fn activity_kind(self) -> Text {
        match self {
            CommandModel::Create(command) => "hold_created"@,
            CommandModel::Scope(command) => if command.add {
                "scope_added"@
            } else {
                "scope_removed"@
            },
            CommandModel::Release(command) => "hold_released"@,
        }
    }

    /// The details of the activity that the command records.
    pub open spec fn activity_payload(self) -> Json {
        match self {
            CommandModel::Create(command) => Json::Object(
                seq![
                    ("title"@, Json::Text(command.title)),
                    ("legal_authority"@, Json::Text(command.legal_authority)),
                ],
            ),
            CommandModel::Scope(command) => Json::Object(
                seq![
                    ("scope_kind"@, Json::Text(command.scope_kind)),
                    ("scope_id"@, Json::Text(command.scope_id)),
                    ("subject"@, nullable(command.subject)),
                ],
            ),
            CommandModel::Release(command) => Json::Object(
                seq![("reason"@, Json::Text(command.reason))],
            ),
        }
    }

    /// Looks for the receipt of an earlier command with the same key.
    pub open spec fn read_receipt(self) -> StatementModel {
        StatementModel::ReadReceipt {
            caller: self.caller(),
            actor: self.actor(),
            operation: self.operation(),
            idempotency_key: self.idempotency_key(),
        }
    }

    /// The one change that the command makes.
    pub open spec fn change(self) -> StatementModel {
        match self {
            CommandModel::Create(command) => StatementModel::InsertHold {
                hold_id: command.hold_id,
                organization_id: command.organization_id,
                title: command.title,
                reason: command.reason,
                legal_authority: command.legal_authority,
                created_by: command.actor,
            },
            CommandModel::Scope(command) => if command.add {
                StatementModel::InsertScope {
                    hold_id: command.hold_id,
                    scope_kind: command.scope_kind,
                    scope_id: command.scope_id,
                    subject: command.subject,
                    created_by: command.actor,
                }
            } else {
                StatementModel::DeleteScope {
                    hold_id: command.hold_id,
                    scope_kind: command.scope_kind,
                    scope_id: command.scope_id,
                    subject: command.subject,
                }
            },
            CommandModel::Release(command) => StatementModel::MarkReleased {
                hold_id: command.hold_id,
                released_by: command.actor,
                release_reason: command.reason,
            },
        }
    }

    /// Records what the command did.
    pub open spec fn append_activity(self) -> StatementModel {
        StatementModel::AppendActivity {
            organization_id: self.organization_id(),
            hold_id: self.hold_id(),
            kind: self.activity_kind(),
            actor_subject: self.actor(),
            payload: self.activity_payload(),
        }
    }

    /// Keeps the response for a repeated command.
    pub open spec fn store_receipt(self, response: HoldModel) -> StatementModel {
        StatementModel::StoreReceipt {
            caller: self.caller(),
            actor: self.actor(),
            operation: self.operation(),
            idempotency_key: self.idempotency_key(),
            request_hash: self.request_hash(),
            response,
        }
    }

    /// The revision at which the hold is expected to be; a new hold has none yet.
    pub open spec fn expected_revision(self) -> int {
        match self {
            CommandModel::Create(command) => 0,
            CommandModel::Scope(command) => command.expected_revision,
            CommandModel::Release(command) => command.expected_revision,
        }
    }

    /// Why the command may not change the locked hold, if it may not.
    pub open spec fn objection(self, locked: Option<LockedHoldModel>) -> Option<DomainFailure> {
        match locked {
            None => Some(DomainFailure::NotFound),
            Some(hold) => if hold.status != ACTIVE@ {
                Some(DomainFailure::HoldReleased)
            } else if hold.revision != self.expected_revision() {
                Some(DomainFailure::RevisionConflict)
            } else {
                None
            },
        }
    }
}

/// How far the run of a command has come: what it waits for.
#[derive(Debug, PartialEq, Eq)]
pub enum CommandPhase {
    Begin,
    Receipt,
    Lock,
    Change,
    Advance,
    Activity,
    Hold,
    Scopes(StoredHold),
    Store(HoldView),
    Commit(HoldView),
}

/// What a [`CommandPhase`] says.
#[verifier::ext_equal]
pub enum CommandPhaseModel {
    Begin,
    Receipt,
    Lock,
    Change,
    Advance,
    Activity,
    Hold,
    Scopes(StoredHoldModel),
    Store(HoldModel),
    Commit(HoldModel),
}

impl View for CommandPhase {
    type V = CommandPhaseModel;

    open spec fn view(&self) -> CommandPhaseModel {
        match *self {
            CommandPhase::Begin => CommandPhaseModel::Begin,
            CommandPhase::Receipt => CommandPhaseModel::Receipt,
            CommandPhase::Lock => CommandPhaseModel::Lock,
            CommandPhase::Change => CommandPhaseModel::Change,
            CommandPhase::Advance => CommandPhaseModel::Advance,
            CommandPhase::Activity => CommandPhaseModel::Activity,
            CommandPhase::Hold => CommandPhaseModel::Hold,
            CommandPhase::Scopes(stored) => CommandPhaseModel::Scopes(stored@),
            CommandPhase::Store(hold) => CommandPhaseModel::Store(hold@),
            CommandPhase::Commit(hold) => CommandPhaseModel::Commit(hold@),
        }
    }
}

/// The name of the database step that a command waits for.
pub open spec fn command_step_name(command: CommandModel, phase: CommandPhaseModel) -> Text {
    match phase {
        CommandPhaseModel::Begin => match command {
            CommandModel::Create(_) => "begin create hold"@,
            CommandModel::Scope(_) => "begin mutate hold scope"@,
            CommandModel::Release(_) => "begin release hold"@,
        },
        CommandPhaseModel::Receipt => "read legal hold command"@,
        CommandPhaseModel::Lock => "lock legal hold"@,
        CommandPhaseModel::Change => match command {
            CommandModel::Create(_) => "insert legal hold"@,
            CommandModel::Scope(command) => if command.add {
                "add legal hold scope"@
            } else {
                "remove legal hold scope"@
            },
            CommandModel::Release(_) => "release legal hold"@,
        },
        CommandPhaseModel::Advance => "advance legal hold revision"@,
        CommandPhaseModel::Activity => "append legal hold activity"@,
        CommandPhaseModel::Hold => "read legal hold"@,
        CommandPhaseModel::Scopes(_) => "read legal hold scopes"@,
        CommandPhaseModel::Store(_) => "store legal hold command"@,
        CommandPhaseModel::Commit(_) => match command {
            CommandModel::Create(_) => "commit create hold"@,
            CommandModel::Scope(_) => "commit mutate hold scope"@,
            CommandModel::Release(_) => "commit release hold"@,
        },
    }
}

/// What the outcome of a storage operation on one hold says.
pub open spec fn hold_outcome(outcome: Result<HoldView, StorageError>) -> Result<
    HoldModel,
    StorageErrorModel,
> {
    match outcome {
        Ok(hold) => Ok(hold@),
        Err(error) => Err(error@),
    }
}

/// What comes after a reply in the run of a command.
#[derive(Debug, PartialEq, Eq)]
pub enum CommandStep {
    /// Execute the statement and come back with its reply.
    Run(CommandPhase, Statement),
    /// The run is over.
    Finished(Result<HoldView, StorageError>),
}

/// What a [`CommandStep`] says.
#[verifier::ext_equal]
pub enum CommandStepModel {
    Run(CommandPhaseModel, StatementModel),
    Finished(Result<HoldModel, StorageErrorModel>),
}

impl View for CommandStep {
    type V = CommandStepModel;

    open spec fn view(&self) -> CommandStepModel {
        match *self {
            CommandStep::Run(phase, statement) => CommandStepModel::Run(phase@, statement@),
            CommandStep::Finished(outcome) => CommandStepModel::Finished(hold_outcome(outcome)),
        }
    }
}

/// The answer that a receipt gives to a repeated command: the response that it
/// holds where the digests agree, and a conflict where they do not.
pub open spec fn replayed(receipt: ReceiptModel, request_hash: Seq<u8>) -> Result<
    HoldModel,
    StorageErrorModel,
> {
    if receipt.request_hash != request_hash {
        Err(StorageErrorModel::Domain(DomainFailure::IdempotencyConflict))
    } else {
        match receipt.response {
            Ok(hold) => Ok(hold),
            Err(ResponseFaultModel::Undecodable) => Err(
                StorageErrorModel::Database { operation: "decode command response"@ },
            ),
            Err(ResponseFaultModel::Unreadable(message)) => Err(
                StorageErrorModel::Serialization(message),
            ),
        }
    }
}

/// What the run of a command does on a reply.
pub open spec fn command_next(
    command: CommandModel,
    phase: CommandPhaseModel,
    reply: ReplyModel,
) -> CommandStepModel {
    match (phase, reply) {
        (_, ReplyModel::Undecodable(operation)) => CommandStepModel::Finished(
            Err(StorageErrorModel::Database { operation }),
        ),
        (_, ReplyModel::NotPrepared) => CommandStepModel::Finished(
            Err(StorageErrorModel::NotPrepared),
        ),
        (CommandPhaseModel::Begin, ReplyModel::Done) => CommandStepModel::Run(
            CommandPhaseModel::Receipt,
            command.read_receipt(),
        ),
        (CommandPhaseModel::Receipt, ReplyModel::Receipt(Some(receipt))) =>
            CommandStepModel::Finished(replayed(receipt, command.request_hash())),
        (CommandPhaseModel::Receipt, ReplyModel::Receipt(None)) => if command is Create {
            CommandStepModel::Run(CommandPhaseModel::Change, command.change())
        } else {
            CommandStepModel::Run(
                CommandPhaseModel::Lock,
                StatementModel::LockHold {
                    organization_id: command.organization_id(),
                    hold_id: command.hold_id(),
                },
            )
        },
        (CommandPhaseModel::Lock, ReplyModel::Locked(locked)) => match command.objection(locked) {
            Some(failure) => CommandStepModel::Finished(Err(StorageErrorModel::Domain(failure))),
            None => CommandStepModel::Run(CommandPhaseModel::Change, command.change()),
        },
        (CommandPhaseModel::Change, ReplyModel::Affected(rows)) => match command {
            CommandModel::Create(_) => if rows != 1 {
                CommandStepModel::Finished(
                    Err(StorageErrorModel::Domain(DomainFailure::IdempotencyConflict)),
                )
            } else {
                CommandStepModel::Run(CommandPhaseModel::Activity, command.append_activity())
            },
            CommandModel::Scope(_) => if rows != 1 {
                CommandStepModel::Finished(
                    Err(StorageErrorModel::Domain(DomainFailure::ScopeConflict)),
                )
            } else {
                CommandStepModel::Run(
                    CommandPhaseModel::Advance,
                    StatementModel::AdvanceRevision { hold_id: command.hold_id() },
                )
            },
            CommandModel::Release(_) => CommandStepModel::Run(
                CommandPhaseModel::Activity,
                command.append_activity(),
            ),
        },
        (CommandPhaseModel::Advance, ReplyModel::Affected(_)) => CommandStepModel::Run(
            CommandPhaseModel::Activity,
            command.append_activity(),
        ),
        (CommandPhaseModel::Activity, ReplyModel::Affected(_)) => CommandStepModel::Run(
            CommandPhaseModel::Hold,
            StatementModel::ReadHold {
                organization_id: command.organization_id(),
                hold_id: command.hold_id(),
            },
        ),
        (CommandPhaseModel::Hold, ReplyModel::Hold(None)) => CommandStepModel::Finished(
            Err(StorageErrorModel::Domain(DomainFailure::NotFound)),
        ),
        (CommandPhaseModel::Hold, ReplyModel::Hold(Some(stored))) => CommandStepModel::Run(
            CommandPhaseModel::Scopes(stored),
            StatementModel::ReadScopes { hold_id: command.hold_id() },
        ),
        (CommandPhaseModel::Scopes(stored), ReplyModel::Scopes(rows, fault)) => match loaded_hold(
            stored,
            rows,
            fault,
        ) {
            Ok(hold) => CommandStepModel::Run(
                CommandPhaseModel::Store(hold),
                command.store_receipt(hold),
            ),
            Err(error) => CommandStepModel::Finished(Err(error)),
        },
        (CommandPhaseModel::Store(hold), ReplyModel::Affected(_)) => CommandStepModel::Run(
            CommandPhaseModel::Commit(hold),
            StatementModel::Commit,
        ),
        (CommandPhaseModel::Store(_), ReplyModel::Unserializable(message)) =>
            CommandStepModel::Finished(Err(StorageErrorModel::Serialization(message))),
        (CommandPhaseModel::Commit(hold), ReplyModel::Done) => CommandStepModel::Finished(Ok(hold)),
        (_, _) => CommandStepModel::Finished(
            Err(StorageErrorModel::Database { operation: command_step_name(command, phase) }),
        ),
    }
}

/// Whether two digests are the same.
fn same_bytes(left: &Vec<u8>, right: &Vec<u8>) -> (answer: bool)
    ensures
        answer == (left@ == right@),
{
    if left.len() != right.len() {
        return false;
    }
    let mut i: usize = 0;
    while i < left.len()
        invariant
            i <= left.len(),
            left.len() == right.len(),
            forall|j: int| 0 <= j < i ==> left@[j] == right@[j],
        decreases left.len() - i,
    {
        if left[i] != right[i] {
            return false;
        }
        i += 1;
    }
    assert(left@ == right@);
    true
}

/// Answers a repeated command from the receipt of the first.
pub fn replay(receipt: Receipt, request_hash: &Vec<u8>) -> (outcome: Result<HoldView, StorageError>)
    ensures
        hold_outcome(outcome) == replayed(receipt@, request_hash@),
{
    if !same_bytes(&receipt.request_hash, request_hash) {
        return Err(StorageError::Domain(DomainFailure::IdempotencyConflict));
    }
    match receipt.response {
        Ok(hold) => Ok(hold),
        Err(ResponseFault::Undecodable) => Err(
            StorageError::Database { operation: text_of("decode command response") },
        ),
        Err(ResponseFault::Unreadable(message)) => Err(StorageError::Serialization(message)),
    }
}

impl Command {
    fn caller(&self) -> (text: String)
        ensures
            text@ == self@.caller(),
    {
        match self {
            Command::Create(command) => command.caller.clone(),
            Command::Scope(command) => command.caller.clone(),
            Command::Release(command) => command.caller.clone(),
        }
    }

    fn actor(&self) -> (text: String)
        ensures
            text@ == self@.actor(),
    {
        match self {
            Command::Create(command) => command.actor.clone(),
            Command::Scope(command) => command.actor.clone(),
            Command::Release(command) => command.actor.clone(),
        }
    }

    fn operation(&self) -> (text: String)
        ensures
            text@ == self@.operation(),
    {
        match self {
            Command::Create(_) => text_of(CREATE_HOLD),
            Command::Scope(command) => command.operation.clone(),
            Command::Release(_) => text_of(RELEASE_HOLD),
        }
    }

    fn idempotency_key(&self) -> (text: String)
        ensures
            text@ == self@.idempotency_key(),
    {
        match self {
            Command::Create(command) => command.idempotency_key.clone(),
            Command::Scope(command) => command.idempotency_key.clone(),
            Command::Release(command) => command.idempotency_key.clone(),
        }
    }

    fn request_hash(&self) -> (hash: &Vec<u8>)
        ensures
            hash@ == self@.request_hash(),
    {
        match self {
            Command::Create(command) => &command.request_hash,
            Command::Scope(command) => &command.request_hash,
            Command::Release(command) => &command.request_hash,
        }
    }

    fn organization_id(&self) -> (text: String)
        ensures
            text@ == self@.organization_id(),
    {
        match self {
            Command::Create(command) => command.organization_id.clone(),
            Command::Scope(command) => command.organization_id.clone(),
            Command::Release(command) => command.organization_id.clone(),
        }
    }

    fn hold_id(&self) -> (text: String)
        ensures
            text@ == self@.hold_id(),
    {
        match self {
            Command::Create(command) => command.hold_id.clone(),
            Command::Scope(command) => command.hold_id.clone(),
            Command::Release(command) => command.hold_id.clone(),
        }
    }

    fn activity_kind(&self) -> (kind: &'static str)
        ensures
            kind@ == self@.activity_kind(),
    {
        match self {
            Command::Create(_) => "hold_created",
            Command::Scope(command) => if command.add {
                "scope_added"
            } else {
                "scope_removed"
            },
            Command::Release(_) => "hold_released",
        }
    }

    fn activity_payload(&self) -> (payload: serde_json::Value)
        ensures
            json_content(payload) == self@.activity_payload(),
    {
        let mut members: Vec<(String, serde_json::Value)> = Vec::new();
        match self {
            Command::Create(command) => {
                members.push(text_member("title", command.title.as_str()));
                members.push(text_member("legal_authority", command.legal_authority.as_str()));
                proof {
                    reveal_strlit("title");
                    reveal_strlit("legal_authority");
                    assert("title"@.len() < "legal_authority"@.len());
                    assert(keys_are_distinct(members@));
                }
            },
            Command::Scope(command) => {
                members.push(text_member("scope_kind", command.scope_kind.as_str()));
                members.push(text_member("scope_id", command.scope_id.as_str()));
                members.push(nullable_member("subject", &command.subject));
                proof {
                    reveal_strlit("scope_kind");
                    reveal_strlit("scope_id");
                    reveal_strlit("subject");
                    assert("subject"@.len() < "scope_id"@.len() < "scope_kind"@.len());
                    assert(keys_are_distinct(members@));
                }
            },
            Command::Release(command) => {
                members.push(text_member("reason", command.reason.as_str()));
            },
        }
        assert(keys_are_distinct(members@));
        let ghost expected = self@.activity_payload()->Object_0;
        assert(members_content(members@) == expected);
        object_value(members)
    }

    fn read_receipt(&self) -> (statement: Statement)
        ensures
            statement@ == self@.read_receipt(),
    {
        Statement::ReadReceipt {
            caller: self.caller(),
            actor: self.actor(),
            operation: self.operation(),
            idempotency_key: self.idempotency_key(),
        }
    }

    fn change(&self) -> (statement: Statement)
        ensures
            statement@ == self@.change(),
    {
        match self {
            Command::Create(command) => Statement::InsertHold {
                hold_id: command.hold_id.clone(),
                organization_id: command.organization_id.clone(),
                title: command.title.clone(),
                reason: command.reason.clone(),
                legal_authority: command.legal_authority.clone(),
                created_by: command.actor.clone(),
            },
            Command::Scope(command) => if command.add {
                Statement::InsertScope {
                    hold_id: command.hold_id.clone(),
                    scope_kind: command.scope_kind.clone(),
                    scope_id: command.scope_id.clone(),
                    subject: copy_optional(&command.subject),
                    created_by: command.actor.clone(),
                }
            } else {
                Statement::DeleteScope {
                    hold_id: command.hold_id.clone(),
                    scope_kind: command.scope_kind.clone(),
                    scope_id: command.scope_id.clone(),
                    subject: copy_optional(&command.subject),
                }
            },
            Command::Release(command) => Statement::MarkReleased {
                hold_id: command.hold_id.clone(),
                released_by: command.actor.clone(),
                release_reason: command.reason.clone(),
            },
        }
    }

    fn append_activity(&self) -> (statement: Statement)
        ensures
            statement@ == self@.append_activity(),
    {
        Statement::AppendActivity {
            organization_id: self.organization_id(),
            hold_id: self.hold_id(),
            kind: text_of(self.activity_kind()),
            actor_subject: self.actor(),
            payload: self.activity_payload(),
        }
    }

    fn store_receipt(&self, response: HoldView) -> (statement: Statement)
        ensures
            statement@ == self@.store_receipt(response@),
    {
        let mut request_hash: Vec<u8> = Vec::new();
        request_hash.extend_from_slice(self.request_hash().as_slice());
        assert(request_hash@ == self@.request_hash());
        Statement::StoreReceipt {
            caller: self.caller(),
            actor: self.actor(),
            operation: self.operation(),
            idempotency_key: self.idempotency_key(),
            request_hash,
            response,
        }
    }

    /// Why the command may not change the locked hold, if it may not: there is
    /// no such hold, the hold is released, or its revision is not the expected
    /// one.
    pub fn objection(&self, locked: Option<LockedHold>) -> (objection: Option<DomainFailure>)
        ensures
            objection == self@.objection(
                match locked {
                    Some(hold) => Some(hold@),
                    None => None,
                },
            ),
    {
        let expected: i64 = match self {
            Command::Create(_) => 0,
            Command::Scope(command) => command.expected_revision,
            Command::Release(command) => command.expected_revision,
        };
        match locked {
            None => Some(DomainFailure::NotFound),
            Some(hold) => if hold.status != text_of(ACTIVE) {
                Some(DomainFailure::HoldReleased)
            } else if hold.revision != expected {
                Some(DomainFailure::RevisionConflict)
            } else {
                None
            },
        }
    }

    fn step_name(&self, phase: &CommandPhase) -> (name: &'static str)
        ensures
            name@ == command_step_name(self@, phase@),
    {
        match phase {
            CommandPhase::Begin => match self {
                Command::Create(_) => "begin create hold",
                Command::Scope(_) => "begin mutate hold scope",
                Command::Release(_) => "begin release hold",
            },
            CommandPhase::Receipt => "read legal hold command",
            CommandPhase::Lock => "lock legal hold",
            CommandPhase::Change => match self {
                Command::Create(_) => "insert legal hold",
                Command::Scope(command) => if command.add {
                    "add legal hold scope"
                } else {
                    "remove legal hold scope"
                },
                Command::Release(_) => "release legal hold",
            },
            CommandPhase::Advance => "advance legal hold revision",
            CommandPhase::Activity => "append legal hold activity",
            CommandPhase::Hold => "read legal hold",
            CommandPhase::Scopes(_) => "read legal hold scopes",
            CommandPhase::Store(_) => "store legal hold command",
            CommandPhase::Commit(_) => match self {
                Command::Create(_) => "commit create hold",
                Command::Scope(_) => "commit mutate hold scope",
                Command::Release(_) => "commit release hold",
            },
        }
    }

    fn after_change(&self, rows: u64) -> (step: CommandStep)
        ensures
            step@ == command_next(
                self@,
                CommandPhaseModel::Change,
                ReplyModel::Affected(rows as int),
            ),
    {
        match self {
            Command::Create(_) => if rows != 1 {
                CommandStep::Finished(Err(StorageError::Domain(DomainFailure::IdempotencyConflict)))
            } else {
                CommandStep::Run(CommandPhase::Activity, self.append_activity())
            },
            Command::Scope(_) => if rows != 1 {
                CommandStep::Finished(Err(StorageError::Domain(DomainFailure::ScopeConflict)))
            } else {
                CommandStep::Run(
                    CommandPhase::Advance,
                    Statement::AdvanceRevision { hold_id: self.hold_id() },
                )
            },
            Command::Release(_) => CommandStep::Run(CommandPhase::Activity, self.append_activity()),
        }
    }

    fn after_scopes(
        &self,
        stored: StoredHold,
        rows: Vec<ScopeRow>,
        fault: Option<String>,
    ) -> (step: CommandStep)
        ensures
            step@ == command_next(
                self@,
                CommandPhaseModel::Scopes(stored@),
                ReplyModel::Scopes(scope_rows(rows@), optional_text(fault)),
            ),
    {
        match load_hold(stored, rows, fault) {
            Ok(hold) => {
                let response = hold.copy();
                CommandStep::Run(CommandPhase::Store(hold), self.store_receipt(response))
            },
            Err(error) => CommandStep::Finished(Err(error)),
        }
    }

    /// Opens the run of the command.
    pub fn start(&self) -> (step: (CommandPhase, Statement))
        ensures
            step.0@ == CommandPhaseModel::Begin,
            step.1@ == StatementModel::Begin,
    {
        (CommandPhase::Begin, Statement::Begin)
    }

    /// Decides on a reply what the run does next.
    pub fn next(&self, phase: CommandPhase, reply: Reply) -> (step: CommandStep)
        ensures
            step@ == command_next(self@, phase@, reply@),
    {
        match reply {
            Reply::Undecodable(operation) => CommandStep::Finished(
                Err(StorageError::Database { operation }),
            ),
            Reply::NotPrepared => CommandStep::Finished(Err(StorageError::NotPrepared)),
            reply => match (phase, reply) {
                (CommandPhase::Begin, Reply::Done) => CommandStep::Run(
                    CommandPhase::Receipt,
                    self.read_receipt(),
                ),
                (CommandPhase::Receipt, Reply::Receipt(Some(receipt))) => CommandStep::Finished(
                    replay(receipt, self.request_hash()),
                ),
                (CommandPhase::Receipt, Reply::Receipt(None)) => match self {
                    Command::Create(_) => CommandStep::Run(CommandPhase::Change, self.change()),
                    _ => CommandStep::Run(
                        CommandPhase::Lock,
                        Statement::LockHold {
                            organization_id: self.organization_id(),
                            hold_id: self.hold_id(),
                        },
                    ),
                },
                (CommandPhase::Lock, Reply::Locked(locked)) => match self.objection(locked) {
                    Some(failure) => CommandStep::Finished(Err(StorageError::Domain(failure))),
                    None => CommandStep::Run(CommandPhase::Change, self.change()),
                },
                (CommandPhase::Change, Reply::Affected(rows)) => self.after_change(rows),
                (CommandPhase::Advance, Reply::Affected(_)) => CommandStep::Run(
                    CommandPhase::Activity,
                    self.append_activity(),
                ),
                (CommandPhase::Activity, Reply::Affected(_)) => CommandStep::Run(
                    CommandPhase::Hold,
                    Statement::ReadHold {
                        organization_id: self.organization_id(),
                        hold_id: self.hold_id(),
                    },
                ),
                (CommandPhase::Hold, Reply::Hold(None)) => CommandStep::Finished(
                    Err(StorageError::Domain(DomainFailure::NotFound)),
                ),
                (CommandPhase::Hold, Reply::Hold(Some(stored))) => CommandStep::Run(
                    CommandPhase::Scopes(stored),
                    Statement::ReadScopes { hold_id: self.hold_id() },
                ),
                (CommandPhase::Scopes(stored), Reply::Scopes(rows, fault)) => self.after_scopes(
                    stored,
                    rows,
                    fault,
                ),
                (CommandPhase::Store(hold), Reply::Affected(_)) => CommandStep::Run(
                    CommandPhase::Commit(hold),
                    Statement::Commit,
                ),
                (CommandPhase::Store(_), Reply::Unserializable(message)) => CommandStep::Finished(
                    Err(StorageError::Serialization(message)),
                ),
                (CommandPhase::Commit(hold), Reply::Done) => CommandStep::Finished(Ok(hold)),
                (phase, _) => CommandStep::Finished(
                    Err(StorageError::Database { operation: text_of(self.step_name(&phase)) }),
                ),
            },
        }
    }
}

/// A command that gets no answer to what it asked fails, and names the step at which it
/// failed, or passes on what could not be decoded or serialized, or that storage is not
/// prepared.
pub proof fn failed_commands_name_their_step(
    command: CommandModel,
    phase: CommandPhaseModel,
    reply: ReplyModel,
)
    ensures
        ({
            let failed = |error: StorageErrorModel|
                command_next(command, phase, reply) == CommandStepModel::Finished(Err(error));
            let is_awaited = match phase {
                CommandPhaseModel::Begin => reply is Done,
                CommandPhaseModel::Receipt => reply is Receipt,
                CommandPhaseModel::Lock => reply is Locked,
                CommandPhaseModel::Change => reply is Affected,
                CommandPhaseModel::Advance => reply is Affected,
                CommandPhaseModel::Activity => reply is Affected,
                CommandPhaseModel::Hold => reply is Hold,
                CommandPhaseModel::Scopes(_) => reply is Scopes,
                CommandPhaseModel::Store(_) => reply is Affected,
                CommandPhaseModel::Commit(_) => reply is Done,
            };
            &&& reply is NotPrepared ==> failed(StorageErrorModel::NotPrepared)
            &&& reply matches ReplyModel::Undecodable(operation) ==> failed(
                StorageErrorModel::Database { operation },
            )
            &&& phase is Store ==> (reply matches ReplyModel::Unserializable(message) ==> failed(
                StorageErrorModel::Serialization(message),
            ))
            &&& !(reply is NotPrepared || reply is Undecodable) && !(phase is Store
                && reply is Unserializable) && !is_awaited ==> failed(
                StorageErrorModel::Database {
                    operation: match (phase, command) {
                        (CommandPhaseModel::Begin, CommandModel::Create(_)) =>
                            "begin create hold"@,
                        (CommandPhaseModel::Begin, CommandModel::Scope(_)) =>
                            "begin mutate hold scope"@,
                        (CommandPhaseModel::Begin, CommandModel::Release(_)) =>
                            "begin release hold"@,
                        (CommandPhaseModel::Receipt, _) => "read legal hold command"@,
                        (CommandPhaseModel::Lock, _) => "lock legal hold"@,
                        (CommandPhaseModel::Change, CommandModel::Create(_)) =>
                            "insert legal hold"@,
                        (CommandPhaseModel::Change, CommandModel::Scope(change)) => if change.add {
                            "add legal hold scope"@
                        } else {
                            "remove legal hold scope"@
                        },
                        (CommandPhaseModel::Change, CommandModel::Release(_)) =>
                            "release legal hold"@,
                        (CommandPhaseModel::Advance, _) => "advance legal hold revision"@,
                        (CommandPhaseModel::Activity, _) => "append legal hold activity"@,
                        (CommandPhaseModel::Hold, _) => "read legal hold"@,
                        (CommandPhaseModel::Scopes(_), _) => "read legal hold scopes"@,
                        (CommandPhaseModel::Store(_), _) => "store legal hold command"@,
                        (CommandPhaseModel::Commit(_), CommandModel::Create(_)) =>
                            "commit create hold"@,
                        (CommandPhaseModel::Commit(_), CommandModel::Scope(_)) =>
                            "commit mutate hold scope"@,
                        (CommandPhaseModel::Commit(_), CommandModel::Release(_)) =>
                            "commit release hold"@,
                    },
                },
            )
        }),
{
}

/// A change that did not touch exactly one row is a conflict: over the identifier of a
/// new hold, or over a scope. A hold that is gone when it is read back is not found.
pub proof fn changes_that_miss_are_conflicts(command: CommandModel, rows: int)
    requires
        rows != 1,
    ensures
        ({
            let step = command_next(command, CommandPhaseModel::Change, ReplyModel::Affected(rows));
            let refused = |failure: DomainFailure|
                step == CommandStepModel::Finished(Err(StorageErrorModel::Domain(failure)));
            &&& command is Create ==> refused(DomainFailure::IdempotencyConflict)
            &&& command is Scope ==> refused(DomainFailure::ScopeConflict)
        }),
        command_next(command, CommandPhaseModel::Hold, ReplyModel::Hold(None))
            == CommandStepModel::Finished(
            Err(StorageErrorModel::Domain(DomainFailure::NotFound)),
        ),
{
}

/// A receipt answers a command of the same digest with the response that it keeps, or
/// says why that cannot be read; a command of another digest is a conflict.
pub proof fn receipts_answer_only_the_same_request(
    command: CommandModel,
    receipt: ReceiptModel,
)
    ensures
        ({
            let step = command_next(
                command,
                CommandPhaseModel::Receipt,
                ReplyModel::Receipt(Some(receipt)),
            );
            let hash = match command {
                CommandModel::Create(creation) => creation.request_hash,
                CommandModel::Scope(change) => change.request_hash,
                CommandModel::Release(release) => release.request_hash,
            };
            let failed = |error: StorageErrorModel| step == CommandStepModel::Finished(Err(error));
            if receipt.request_hash != hash {
                failed(StorageErrorModel::Domain(DomainFailure::IdempotencyConflict))
            } else {
                match receipt.response {
                    Ok(hold) => step == CommandStepModel::Finished(Ok(hold)),
                    Err(ResponseFaultModel::Undecodable) => failed(
                        StorageErrorModel::Database { operation: "decode command response"@ },
                    ),
                    Err(ResponseFaultModel::Unreadable(message)) => failed(
                        StorageErrorModel::Serialization(message),
                    ),
                }
            }
        }),
{
}

} // verus!
