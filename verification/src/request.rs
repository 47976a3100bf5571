//! Administrative requests, and the storage operations that they ask for.
use vstd::prelude::*;
use vstd::string::*;
use crate::authorization::{Authorization, AuthorizationModel, Grant, GrantModel};
use crate::command::{
    Command, CommandModel, CreateHold, CreateHoldModel, MutateScope, MutateScopeModel, ReleaseHold,
    ReleaseHoldModel, ACTIVE, CREATE_HOLD, RELEASED, RELEASE_HOLD,
};
use crate::digest::{digests_collide, sha256, sha256_digest};
use crate::failure::{PluginError, PluginErrorModel, RuntimeFault, RuntimeFaultModel};
use crate::json::{
    is_written, json_content, json_wire, keys_are_distinct, lemma_short_keys_are_plain,
    members_content, nests_within, nullable, nullable_member, object_value, reads_back, text_member,
    wire_bytes, Json,
};
use crate::query::{
    page_size_is_valid, GetHold, GetHoldModel, ListActivity, ListActivityModel, ListHolds,
    ListHoldsModel, PageLimit,
};
use crate::text::{
    decimal, decimal_tells_integers_apart, decimal_text, id_is_valid, idempotency_key_is_valid,
    optional_text, parse_cursor, parse_revision, parsed_cursor, parsed_integer, parsed_revision,
    text_is_valid, text_of, valid_id, valid_idempotency_key, valid_text, MAX_REASON_BYTES,
    MAX_SCOPE_KIND_BYTES, MAX_SHORT_TEXT_BYTES, Text,
};

verus! {

/// The operation that reads a hold.
pub const GET_HOLD: &'static str = "get_hold";

/// The operation that lists holds.
pub const LIST_HOLDS: &'static str = "list_holds";

/// The operation that adds a scope, and under which its receipts are kept.
pub const ADD_SCOPE: &'static str = "add_scope";

/// The operation that removes a scope, and under which its receipts are kept.
pub const REMOVE_SCOPE: &'static str = "remove_scope";

/// The operation that lists the activity of a hold.
pub const LIST_ACTIVITY: &'static str = "list_activity";

/// The permission to read holds.
pub const LEGAL_HOLD_READ: &'static str = "legal-hold.read";

/// The permission to create holds and to change their scopes.
pub const LEGAL_HOLD_WRITE: &'static str = "legal-hold.write";

/// The permission to release holds.
pub const LEGAL_HOLD_RELEASE: &'static str = "legal-hold.release";

/// Asks for a new hold.
#[derive(Debug, PartialEq, Eq)]
pub struct CreateHoldRequest {
    pub organization_id: String,
    pub hold_id: String,
    pub title: String,
    pub reason: String,
    pub legal_authority: String,
    pub idempotency_key: String,
}

/// Asks for one hold.
#[derive(Debug, PartialEq, Eq)]
pub struct GetHoldRequest {
    pub organization_id: String,
    pub hold_id: String,
}

/// The status by which a listing of holds may be narrowed.
#[derive(Clone, Copy, Debug, PartialEq, Eq, Structural)]
pub enum ListHoldsRequestStatus {
    Active,
    Released,
}

/// Asks for a page of holds.
#[derive(Debug, PartialEq, Eq)]
pub struct ListHoldsRequest {
    pub organization_id: String,
    pub status: Option<ListHoldsRequestStatus>,
    pub cursor: Option<String>,
    pub limit: i64,
}

/// Asks for a scope to be added or removed.
#[derive(Debug, PartialEq, Eq)]
pub struct MutateScopeRequest {
    pub organization_id: String,
    pub hold_id: String,
    pub scope_kind: String,
    pub scope_id: String,
    pub subject: Option<String>,
    pub expected_revision: String,
    pub idempotency_key: String,
}

/// Asks for a hold to be released.
#[derive(Debug, PartialEq, Eq)]
pub struct ReleaseHoldRequest {
    pub organization_id: String,
    pub hold_id: String,
    pub expected_revision: String,
    pub reason: String,
    pub idempotency_key: String,
}

/// Asks for a page of the activity of a hold.
#[derive(Debug, PartialEq, Eq)]
pub struct ListActivityRequest {
    pub organization_id: String,
    pub hold_id: String,
    pub after: Option<String>,
    pub limit: i64,
}

/// One of the seven administrative requests.
#[derive(Debug, PartialEq, Eq)]
pub enum AdminRequest {
    CreateHold(CreateHoldRequest),
    GetHold(GetHoldRequest),
    ListHolds(ListHoldsRequest),
    AddScope(MutateScopeRequest),
    RemoveScope(MutateScopeRequest),
    ReleaseHold(ReleaseHoldRequest),
    ListActivity(ListActivityRequest),
}

/// A domain answer to an administrative request that is not a success.
#[derive(Clone, Copy, Debug, PartialEq, Eq, Structural)]
pub enum LegalHoldError {
    InvalidRequest,
    NotFound,
    Forbidden,
    Unauthenticated,
    HoldReleased,
    IdempotencyConflict,
    RevisionConflict,
    ScopeConflict,
    /// An answer that only a later contract knows: it may be received from a
    /// provider, and is never given by this one.
    Unknown,
}

/// A storage operation that an administrative request asks for.
#[derive(Debug, PartialEq, Eq)]
pub enum StorageOperation {
    Command(Command),
    GetHold(GetHold),
    ListHolds(ListHolds),
    ListActivity(ListActivity),
}

/// What a [`StorageOperation`] says.
#[verifier::ext_equal]
pub enum StorageOperationModel {
    Command(CommandModel),
    GetHold(GetHoldModel),
    ListHolds(ListHoldsModel),
    ListActivity(ListActivityModel),
}

impl View for StorageOperation {
    type V = StorageOperationModel;

    open spec fn view(&self) -> StorageOperationModel {
        match *self {
            StorageOperation::Command(command) => StorageOperationModel::Command(command@),
            StorageOperation::GetHold(query) => StorageOperationModel::GetHold(query@),
            StorageOperation::ListHolds(query) => StorageOperationModel::ListHolds(query@),
            StorageOperation::ListActivity(query) => StorageOperationModel::ListActivity(query@),
        }
    }
}

/// The name of a status, as storage keeps it.
pub open spec fn status_name(status: ListHoldsRequestStatus) -> Text {
    match status {
        ListHoldsRequestStatus::Active => ACTIVE@,
        ListHoldsRequestStatus::Released => RELEASED@,
    }
}

/// The cursor from which a listing of activity starts: the beginning, where the
/// request names none.
pub open spec fn starting_cursor(after: Option<Text>) -> Option<int> {
    match after {
        Some(after) => parsed_cursor(after),
        None => Some(0),
    }
}

impl CreateHoldRequest {
    /// Whether every field of the request is within bounds.
    pub open spec fn is_valid(self) -> bool {
        &&& id_is_valid(self.organization_id@)
        &&& id_is_valid(self.hold_id@)
        &&& text_is_valid(self.title@, MAX_SHORT_TEXT_BYTES as nat, false)
        &&& text_is_valid(self.reason@, MAX_REASON_BYTES as nat, false)
        &&& text_is_valid(self.legal_authority@, MAX_SHORT_TEXT_BYTES as nat, false)
        &&& idempotency_key_is_valid(self.idempotency_key@)
    }

    /// What the digest of the request covers.
    pub open spec fn content(self) -> Json {
        Json::Object(
            seq![
                ("hold_id"@, Json::Text(self.hold_id@)),
                ("idempotency_key"@, Json::Text(self.idempotency_key@)),
                ("legal_authority"@, Json::Text(self.legal_authority@)),
                ("organization_id"@, Json::Text(self.organization_id@)),
                ("reason"@, Json::Text(self.reason@)),
                ("title"@, Json::Text(self.title@)),
            ],
        )
    }

    /// The command that the request asks for.
    pub open spec fn command(self, grant: GrantModel, request_hash: Seq<u8>) -> CommandModel {
        CommandModel::Create(
            CreateHoldModel {
                caller: grant.caller,
                actor: grant.actor,
                organization_id: self.organization_id@,
                hold_id: self.hold_id@,
                title: self.title@,
                reason: self.reason@,
                legal_authority: self.legal_authority@,
                idempotency_key: self.idempotency_key@,
                request_hash,
            },
        )
    }
}

impl GetHoldRequest {
    /// Whether every field of the request is within bounds.
    pub open spec fn is_valid(self) -> bool {
        &&& id_is_valid(self.organization_id@)
        &&& id_is_valid(self.hold_id@)
    }
}

impl ListHoldsRequest {
    /// Whether every field of the request is within bounds.
    pub open spec fn is_valid(self) -> bool {
        &&& id_is_valid(self.organization_id@)
        &&& page_size_is_valid(self.limit as int)
        &&& self.cursor matches Some(cursor) ==> id_is_valid(cursor@)
    }
}

impl MutateScopeRequest {
    /// Whether every field of the request is within bounds.
    pub open spec fn is_valid(self) -> bool {
        &&& parsed_revision(self.expected_revision@) is Some
        &&& id_is_valid(self.organization_id@)
        &&& id_is_valid(self.hold_id@)
        &&& text_is_valid(self.scope_kind@, MAX_SCOPE_KIND_BYTES as nat, false)
        &&& id_is_valid(self.scope_id@)
        &&& self.subject matches Some(subject) ==> id_is_valid(subject@)
        &&& idempotency_key_is_valid(self.idempotency_key@)
    }

    /// The revision at which the hold is expected to be.
    pub open spec fn revision(self) -> int {
        parsed_revision(self.expected_revision@)->0
    }

    /// Whether two requests are for the same scope of the same hold, at the same
    /// revision and under the same key.
    pub open spec fn agrees(self, other: MutateScopeRequest) -> bool {
        &&& self.organization_id@ == other.organization_id@
        &&& self.hold_id@ == other.hold_id@
        &&& self.scope_kind@ == other.scope_kind@
        &&& self.scope_id@ == other.scope_id@
        &&& optional_text(self.subject) == optional_text(other.subject)
        &&& self.revision() == other.revision()
        &&& self.idempotency_key@ == other.idempotency_key@
    }

    /// What the digest of the request covers.
    pub open spec fn content(self) -> Json {
        Json::Object(
            seq![
                ("organization_id"@, Json::Text(self.organization_id@)),
                ("hold_id"@, Json::Text(self.hold_id@)),
                ("scope_kind"@, Json::Text(self.scope_kind@)),
                ("scope_id"@, Json::Text(self.scope_id@)),
                ("subject"@, nullable(optional_text(self.subject))),
                ("expected_revision"@, Json::Text(decimal(self.revision()))),
                ("idempotency_key"@, Json::Text(self.idempotency_key@)),
            ],
        )
    }

    /// The command that the request asks for.
    pub open spec fn command(
        self,
        add: bool,
        grant: GrantModel,
        request_hash: Seq<u8>,
    ) -> CommandModel {
        CommandModel::Scope(
            MutateScopeModel {
                caller: grant.caller,
                actor: grant.actor,
                operation: if add {
                    ADD_SCOPE@
                } else {
                    REMOVE_SCOPE@
                },
                organization_id: self.organization_id@,
                hold_id: self.hold_id@,
                scope_kind: self.scope_kind@,
                scope_id: self.scope_id@,
                subject: optional_text(self.subject),
                expected_revision: self.revision(),
                idempotency_key: self.idempotency_key@,
                request_hash,
                add,
            },
        )
    }
}

impl ReleaseHoldRequest {
    /// Whether every field of the request is within bounds.
    pub open spec fn is_valid(self) -> bool {
        &&& parsed_revision(self.expected_revision@) is Some
        &&& id_is_valid(self.organization_id@)
        &&& id_is_valid(self.hold_id@)
        &&& text_is_valid(self.reason@, MAX_REASON_BYTES as nat, false)
        &&& idempotency_key_is_valid(self.idempotency_key@)
    }

    /// What the digest of the request covers.
    pub open spec fn content(self) -> Json {
        Json::Object(
            seq![
                ("expected_revision"@, Json::Text(self.expected_revision@)),
                ("hold_id"@, Json::Text(self.hold_id@)),
                ("idempotency_key"@, Json::Text(self.idempotency_key@)),
                ("organization_id"@, Json::Text(self.organization_id@)),
                ("reason"@, Json::Text(self.reason@)),
            ],
        )
    }

    /// The command that the request asks for.
    pub open spec fn command(self, grant: GrantModel, request_hash: Seq<u8>) -> CommandModel {
        CommandModel::Release(
            ReleaseHoldModel {
                caller: grant.caller,
                actor: grant.actor,
                organization_id: self.organization_id@,
                hold_id: self.hold_id@,
                expected_revision: parsed_revision(self.expected_revision@)->0,
                reason: self.reason@,
                idempotency_key: self.idempotency_key@,
                request_hash,
            },
        )
    }
}

impl ListActivityRequest {
    /// Whether every field of the request is within bounds.
    pub open spec fn is_valid(self) -> bool {
        &&& id_is_valid(self.organization_id@)
        &&& id_is_valid(self.hold_id@)
        &&& page_size_is_valid(self.limit as int)
        &&& starting_cursor(optional_text(self.after)) is Some
    }
}

impl AdminRequest {
    /// The operation that the request names.
    pub open spec fn operation(self) -> Text {
        match self {
            AdminRequest::CreateHold(_) => CREATE_HOLD@,
            AdminRequest::GetHold(_) => GET_HOLD@,
            AdminRequest::ListHolds(_) => LIST_HOLDS@,
            AdminRequest::AddScope(_) => ADD_SCOPE@,
            AdminRequest::RemoveScope(_) => REMOVE_SCOPE@,
            AdminRequest::ReleaseHold(_) => RELEASE_HOLD@,
            AdminRequest::ListActivity(_) => LIST_ACTIVITY@,
        }
    }

    /// The organization that the request is about.
    pub open spec fn organization_id(self) -> Text {
        match self {
            AdminRequest::CreateHold(request) => request.organization_id@,
            AdminRequest::GetHold(request) => request.organization_id@,
            AdminRequest::ListHolds(request) => request.organization_id@,
            AdminRequest::AddScope(request) => request.organization_id@,
            AdminRequest::RemoveScope(request) => request.organization_id@,
            AdminRequest::ReleaseHold(request) => request.organization_id@,
            AdminRequest::ListActivity(request) => request.organization_id@,
        }
    }

    /// The permission that the request needs.
    pub open spec fn permission(self) -> Text {
        match self {
            AdminRequest::CreateHold(_) => LEGAL_HOLD_WRITE@,
            AdminRequest::GetHold(_) => LEGAL_HOLD_READ@,
            AdminRequest::ListHolds(_) => LEGAL_HOLD_READ@,
            AdminRequest::AddScope(_) => LEGAL_HOLD_WRITE@,
            AdminRequest::RemoveScope(_) => LEGAL_HOLD_WRITE@,
            AdminRequest::ReleaseHold(_) => LEGAL_HOLD_RELEASE@,
            AdminRequest::ListActivity(_) => LEGAL_HOLD_READ@,
        }
    }

    /// What the request must be granted.
    pub open spec fn authorization(self) -> AuthorizationModel {
        AuthorizationModel {
            operation: self.operation(),
            organization_id: self.organization_id(),
            permission: self.permission(),
        }
    }

    /// Whether every field of the request is within bounds.
    pub open spec fn is_valid(self) -> bool {
        match self {
            AdminRequest::CreateHold(request) => request.is_valid(),
            AdminRequest::GetHold(request) => request.is_valid(),
            AdminRequest::ListHolds(request) => request.is_valid(),
            AdminRequest::AddScope(request) => request.is_valid(),
            AdminRequest::RemoveScope(request) => request.is_valid(),
            AdminRequest::ReleaseHold(request) => request.is_valid(),
            AdminRequest::ListActivity(request) => request.is_valid(),
        }
    }

    /// Whether the request changes a hold.
    pub open spec fn is_command(self) -> bool {
        self is CreateHold || self is AddScope || self is RemoveScope || self is ReleaseHold
    }

    /// What the digest of a request that changes a hold covers.
    pub open spec fn content(self) -> Json {
        match self {
            AdminRequest::CreateHold(request) => request.content(),
            AdminRequest::AddScope(request) => request.content(),
            AdminRequest::RemoveScope(request) => request.content(),
            AdminRequest::ReleaseHold(request) => request.content(),
            _ => Json::Null,
        }
    }

    /// The key under which a request that changes a hold is remembered.
    pub open spec fn idempotency_key(self) -> Text {
        match self {
            AdminRequest::CreateHold(request) => request.idempotency_key@,
            AdminRequest::AddScope(request) => request.idempotency_key@,
            AdminRequest::RemoveScope(request) => request.idempotency_key@,
            AdminRequest::ReleaseHold(request) => request.idempotency_key@,
            _ => Seq::empty(),
        }
    }

    /// Whether two requests change a hold in the same way, in every field of them;
    /// a scope change expects a revision by its number.
    pub open spec fn agrees(self, other: AdminRequest) -> bool {
        match (self, other) {
            (AdminRequest::CreateHold(left), AdminRequest::CreateHold(right)) => {
                &&& left.organization_id@ == right.organization_id@
                &&& left.hold_id@ == right.hold_id@
                &&& left.title@ == right.title@
                &&& left.reason@ == right.reason@
                &&& left.legal_authority@ == right.legal_authority@
                &&& left.idempotency_key@ == right.idempotency_key@
            },
            (AdminRequest::AddScope(left), AdminRequest::AddScope(right)) => left.agrees(right),
            (AdminRequest::RemoveScope(left), AdminRequest::RemoveScope(right)) => left.agrees(
                right,
            ),
            (AdminRequest::ReleaseHold(left), AdminRequest::ReleaseHold(right)) => {
                &&& left.organization_id@ == right.organization_id@
                &&& left.hold_id@ == right.hold_id@
                &&& left.expected_revision@ == right.expected_revision@
                &&& left.reason@ == right.reason@
                &&& left.idempotency_key@ == right.idempotency_key@
            },
            _ => false,
        }
    }

    /// The storage operation that a valid request asks for; the digest is that
    /// of a request that changes a hold, and does not matter for another.
    pub open spec fn storage_operation(
        self,
        grant: GrantModel,
        request_hash: Seq<u8>,
    ) -> StorageOperationModel {
        match self {
            AdminRequest::CreateHold(request) => StorageOperationModel::Command(
                request.command(grant, request_hash),
            ),
            AdminRequest::GetHold(request) => StorageOperationModel::GetHold(
                GetHoldModel {
                    organization_id: request.organization_id@,
                    hold_id: request.hold_id@,
                },
            ),
            AdminRequest::ListHolds(request) => StorageOperationModel::ListHolds(
                ListHoldsModel {
                    organization_id: request.organization_id@,
                    status: match request.status {
                        Some(status) => Some(status_name(status)),
                        None => None,
                    },
                    cursor: optional_text(request.cursor),
                    limit: request.limit as int,
                },
            ),
            AdminRequest::AddScope(request) => StorageOperationModel::Command(
                request.command(true, grant, request_hash),
            ),
            AdminRequest::RemoveScope(request) => StorageOperationModel::Command(
                request.command(false, grant, request_hash),
            ),
            AdminRequest::ReleaseHold(request) => StorageOperationModel::Command(
                request.command(grant, request_hash),
            ),
            AdminRequest::ListActivity(request) => StorageOperationModel::ListActivity(
                ListActivityModel {
                    organization_id: request.organization_id@,
                    hold_id: request.hold_id@,
                    after: starting_cursor(optional_text(request.after))->0,
                    limit: request.limit as int,
                },
            ),
        }
    }
}

/// The detail with which a value that has no wire form is reported.
pub open spec fn serialization_detail(message: Text) -> Text {
    "Legal Hold wire serialization failed: "@ + message
}

/// What becomes of a request that changes a hold, once the wire form of its
/// content is known.
pub open spec fn prepared_command(
    request: AdminRequest,
    grant: GrantModel,
    wire: Result<Seq<u8>, Text>,
) -> Result<StorageOperationModel, PluginErrorModel<LegalHoldError>> {
    if !request.is_valid() {
        Err(PluginErrorModel::Domain(LegalHoldError::InvalidRequest))
    } else {
        match wire {
            Ok(wire) => Ok(request.storage_operation(grant, sha256(wire))),
            Err(message) => Err(
                PluginErrorModel::Runtime(
                    RuntimeFaultModel::Internal { detail: serialization_detail(message) },
                ),
            ),
        }
    }
}

/// What becomes of a granted request: an invalid one is refused, and a valid one
/// asks for a storage operation.
pub open spec fn prepared(request: AdminRequest, grant: GrantModel) -> Result<
    StorageOperationModel,
    PluginErrorModel<LegalHoldError>,
> {
    if !request.is_valid() {
        Err(PluginErrorModel::Domain(LegalHoldError::InvalidRequest))
    } else if request.is_command() {
        prepared_command(request, grant, json_wire(request.content()))
    } else {
        Ok(request.storage_operation(grant, Seq::empty()))
    }
}

/// What the preparation of a request says.
pub open spec fn preparation(
    outcome: Result<StorageOperation, PluginError<LegalHoldError>>,
) -> Result<StorageOperationModel, PluginErrorModel<LegalHoldError>> {
    match outcome {
        Ok(operation) => Ok(operation@),
        Err(error) => Err(error@),
    }
}

/// The fault that reports a value that has no wire form.
pub fn serialization_fault(message: &str) -> (fault: RuntimeFault)
    ensures
        fault@ == (RuntimeFaultModel::Internal { detail: serialization_detail(message@) }),
{
    let mut detail = text_of("Legal Hold wire serialization failed: ");
    detail.append(message);
    RuntimeFault::Internal { detail }
}

impl ListHoldsRequestStatus {
    /// The name of this status.
    pub fn name(&self) -> (name: &'static str)
        ensures
            name@ == status_name(*self),
    {
        match self {
            ListHoldsRequestStatus::Active => ACTIVE,
            ListHoldsRequestStatus::Released => RELEASED,
        }
    }
}

impl CreateHoldRequest {
    fn within_bounds(&self) -> (answer: bool)
        ensures
            answer == self.is_valid(),
    {
        valid_id(self.organization_id.as_str()) && valid_id(self.hold_id.as_str()) && valid_text(
            self.title.as_str(),
            MAX_SHORT_TEXT_BYTES,
            false,
        ) && valid_text(self.reason.as_str(), MAX_REASON_BYTES, false) && valid_text(
            self.legal_authority.as_str(),
            MAX_SHORT_TEXT_BYTES,
            false,
        ) && valid_idempotency_key(self.idempotency_key.as_str())
    }

    fn content_value(&self) -> (value: serde_json::Value)
        ensures
            json_content(value) == self.content(),
    {
        let mut members: Vec<(String, serde_json::Value)> = Vec::new();
        members.push(text_member("hold_id", self.hold_id.as_str()));
        members.push(text_member("idempotency_key", self.idempotency_key.as_str()));
        members.push(text_member("legal_authority", self.legal_authority.as_str()));
        members.push(text_member("organization_id", self.organization_id.as_str()));
        members.push(text_member("reason", self.reason.as_str()));
        members.push(text_member("title", self.title.as_str()));
        proof {
            reveal_strlit("hold_id");
            reveal_strlit("idempotency_key");
            reveal_strlit("legal_authority");
            reveal_strlit("organization_id");
            reveal_strlit("reason");
            reveal_strlit("title");
            assert("idempotency_key"@[0] == 'i' && "legal_authority"@[0] == 'l'
                && "organization_id"@[0] == 'o');
            assert("title"@.len() < "reason"@.len() < "hold_id"@.len()
                < "idempotency_key"@.len());
            assert(keys_are_distinct(members@));
            assert(members_content(members@) == self.content()->Object_0);
        }
        object_value(members)
    }
}

impl MutateScopeRequest {
    fn within_bounds(&self) -> (answer: bool)
        ensures
            answer == self.is_valid(),
    {
        if parse_revision(self.expected_revision.as_str()).is_none() {
            return false;
        }
        let subject_is_valid = match &self.subject {
            Some(subject) => valid_id(subject.as_str()),
            None => true,
        };
        valid_id(self.organization_id.as_str()) && valid_id(self.hold_id.as_str()) && valid_text(
            self.scope_kind.as_str(),
            MAX_SCOPE_KIND_BYTES,
            false,
        ) && valid_id(self.scope_id.as_str()) && subject_is_valid && valid_idempotency_key(
            self.idempotency_key.as_str(),
        )
    }

    fn content_value(&self, expected_revision: i64) -> (value: serde_json::Value)
        requires
            parsed_revision(self.expected_revision@) == Some(expected_revision as int),
        ensures
            json_content(value) == self.content(),
    {
        let mut members: Vec<(String, serde_json::Value)> = Vec::new();
        members.push(text_member("organization_id", self.organization_id.as_str()));
        members.push(text_member("hold_id", self.hold_id.as_str()));
        members.push(text_member("scope_kind", self.scope_kind.as_str()));
        members.push(text_member("scope_id", self.scope_id.as_str()));
        members.push(nullable_member("subject", &self.subject));
        members.push(text_member("expected_revision", decimal_text(expected_revision).as_str()));
        members.push(text_member("idempotency_key", self.idempotency_key.as_str()));
        proof {
            reveal_strlit("organization_id");
            reveal_strlit("hold_id");
            reveal_strlit("scope_kind");
            reveal_strlit("scope_id");
            reveal_strlit("subject");
            reveal_strlit("expected_revision");
            reveal_strlit("idempotency_key");
            assert("idempotency_key"@[0] == 'i' && "organization_id"@[0] == 'o');
            assert("hold_id"@[0] == 'h' && "subject"@[0] == 's');
            assert("hold_id"@.len() == "subject"@.len() < "scope_id"@.len() < "scope_kind"@.len()
                < "organization_id"@.len() == "idempotency_key"@.len()
                < "expected_revision"@.len());
            assert(keys_are_distinct(members@));
            assert(members_content(members@) == self.content()->Object_0);
        }
        object_value(members)
    }
}

impl ReleaseHoldRequest {
    fn within_bounds(&self) -> (answer: bool)
        ensures
            answer == self.is_valid(),
    {
        if parse_revision(self.expected_revision.as_str()).is_none() {
            return false;
        }
        valid_id(self.organization_id.as_str()) && valid_id(self.hold_id.as_str()) && valid_text(
            self.reason.as_str(),
            MAX_REASON_BYTES,
            false,
        ) && valid_idempotency_key(self.idempotency_key.as_str())
    }

    fn content_value(&self) -> (value: serde_json::Value)
        ensures
            json_content(value) == self.content(),
    {
        let mut members: Vec<(String, serde_json::Value)> = Vec::new();
        members.push(text_member("expected_revision", self.expected_revision.as_str()));
        members.push(text_member("hold_id", self.hold_id.as_str()));
        members.push(text_member("idempotency_key", self.idempotency_key.as_str()));
        members.push(text_member("organization_id", self.organization_id.as_str()));
        members.push(text_member("reason", self.reason.as_str()));
        proof {
            reveal_strlit("expected_revision");
            reveal_strlit("hold_id");
            reveal_strlit("idempotency_key");
            reveal_strlit("organization_id");
            reveal_strlit("reason");
            assert("idempotency_key"@[0] == 'i' && "organization_id"@[0] == 'o');
            assert("reason"@.len() < "hold_id"@.len() < "idempotency_key"@.len()
                == "organization_id"@.len() < "expected_revision"@.len());
            assert(keys_are_distinct(members@));
            assert(members_content(members@) == self.content()->Object_0);
        }
        object_value(members)
    }
}

fn parse_starting_cursor(after: &Option<String>) -> (cursor: Option<i64>)
    ensures
        cursor is Some == starting_cursor(optional_text(*after)) is Some,
        cursor matches Some(number) ==> starting_cursor(optional_text(*after)) == Some(
            number as int,
        ),
{
    match after {
        Some(after) => parse_cursor(after.as_str()),
        None => Some(0),
    }
}

fn invalid_request() -> (refusal: Result<StorageOperation, PluginError<LegalHoldError>>)
    ensures
        preparation(refusal) == Err::<StorageOperationModel, PluginErrorModel<LegalHoldError>>(
            PluginErrorModel::Domain(LegalHoldError::InvalidRequest),
        ),
{
    Err(PluginError::Domain(LegalHoldError::InvalidRequest))
}

impl AdminRequest {
    /// What this request must be granted.
    pub fn required_authorization(&self) -> (required: Authorization)
        ensures
            required@ == self.authorization(),
    {
        let (operation, organization_id, permission) = match self {
            AdminRequest::CreateHold(request) => (
                CREATE_HOLD,
                &request.organization_id,
                LEGAL_HOLD_WRITE,
            ),
            AdminRequest::GetHold(request) => (GET_HOLD, &request.organization_id, LEGAL_HOLD_READ),
            AdminRequest::ListHolds(request) => (
                LIST_HOLDS,
                &request.organization_id,
                LEGAL_HOLD_READ,
            ),
            AdminRequest::AddScope(request) => (
                ADD_SCOPE,
                &request.organization_id,
                LEGAL_HOLD_WRITE,
            ),
            AdminRequest::RemoveScope(request) => (
                REMOVE_SCOPE,
                &request.organization_id,
                LEGAL_HOLD_WRITE,
            ),
            AdminRequest::ReleaseHold(request) => (
                RELEASE_HOLD,
                &request.organization_id,
                LEGAL_HOLD_RELEASE,
            ),
            AdminRequest::ListActivity(request) => (
                LIST_ACTIVITY,
                &request.organization_id,
                LEGAL_HOLD_READ,
            ),
        };
        Authorization {
            operation: text_of(operation),
            organization_id: organization_id.clone(),
            permission: text_of(permission),
        }
    }

    fn within_bounds(&self) -> (answer: bool)
        ensures
            answer == self.is_valid(),
    {
        match self {
            AdminRequest::CreateHold(request) => request.within_bounds(),
            AdminRequest::GetHold(request) => valid_id(request.organization_id.as_str())
                && valid_id(request.hold_id.as_str()),
            AdminRequest::ListHolds(request) => {
                let cursor_is_valid = match &request.cursor {
                    Some(cursor) => valid_id(cursor.as_str()),
                    None => true,
                };
                valid_id(request.organization_id.as_str()) && PageLimit::new(
                    request.limit,
                ).is_some() && cursor_is_valid
            },
            AdminRequest::AddScope(request) => request.within_bounds(),
            AdminRequest::RemoveScope(request) => request.within_bounds(),
            AdminRequest::ReleaseHold(request) => request.within_bounds(),
            AdminRequest::ListActivity(request) => valid_id(request.organization_id.as_str())
                && valid_id(request.hold_id.as_str()) && PageLimit::new(request.limit).is_some()
                && parse_starting_cursor(&request.after).is_some(),
        }
    }

    fn content_value(&self) -> (value: Option<serde_json::Value>)
        requires
            self.is_valid(),
        ensures
            value is Some == self.is_command(),
            value matches Some(value) ==> json_content(value) == self.content(),
    {
        match self {
            AdminRequest::CreateHold(request) => Some(request.content_value()),
            AdminRequest::AddScope(request) | AdminRequest::RemoveScope(request) =>
                match parse_revision(request.expected_revision.as_str()) {
                Some(expected_revision) => Some(request.content_value(expected_revision)),
                None => None,
            },
            AdminRequest::ReleaseHold(request) => Some(request.content_value()),
            _ => None,
        }
    }

    /// The storage operation that this request asks for on behalf of the grant;
    /// none, where the request is not valid.
    pub fn operation_for(self, grant: Grant, request_hash: Vec<u8>) -> (operation: Option<
        StorageOperation,
    >)
        ensures
            operation is Some == self.is_valid(),
            operation matches Some(operation) ==> operation@ == self.storage_operation(
                grant@,
                request_hash@,
            ),
            operation matches Some(operation) ==> (self matches AdminRequest::CreateHold(request)
                ==> operation matches StorageOperation::Command(Command::Create(creation)) && {
                &&& creation.caller == grant.caller
                &&& creation.actor == grant.actor
                &&& creation.organization_id == request.organization_id
                &&& creation.hold_id == request.hold_id
                &&& creation.title == request.title
                &&& creation.reason == request.reason
                &&& creation.legal_authority == request.legal_authority
                &&& creation.idempotency_key == request.idempotency_key
                &&& creation.request_hash == request_hash
            }),
            operation matches Some(operation) ==> (self matches AdminRequest::ReleaseHold(request)
                ==> operation matches StorageOperation::Command(Command::Release(release)) && {
                &&& release.caller == grant.caller
                &&& release.actor == grant.actor
                &&& release.organization_id == request.organization_id
                &&& release.hold_id == request.hold_id
                &&& release.reason == request.reason
                &&& release.idempotency_key == request.idempotency_key
                &&& parsed_revision(request.expected_revision@) == Some(
                    release.expected_revision as int,
                )
                &&& release.request_hash == request_hash
            }),
            operation matches Some(operation) ==> self is AddScope ==> (operation matches
                StorageOperation::Command(Command::Scope(change)) && change.add),
            operation matches Some(operation) ==> self is RemoveScope ==> (operation matches
                StorageOperation::Command(Command::Scope(change)) && !change.add),
    {
        if !self.within_bounds() {
            return None;
        }
        let Grant { caller, actor } = grant;
        match self {
            AdminRequest::CreateHold(request) => Some(
                StorageOperation::Command(
                    Command::Create(
                        CreateHold {
                            caller,
                            actor,
                            organization_id: request.organization_id,
                            hold_id: request.hold_id,
                            title: request.title,
                            reason: request.reason,
                            legal_authority: request.legal_authority,
                            idempotency_key: request.idempotency_key,
                            request_hash,
                        },
                    ),
                ),
            ),
            AdminRequest::GetHold(request) => Some(
                StorageOperation::GetHold(
                    GetHold { organization_id: request.organization_id, hold_id: request.hold_id },
                ),
            ),
            AdminRequest::ListHolds(request) => match PageLimit::new(request.limit) {
                Some(limit) => Some(
                    StorageOperation::ListHolds(
                        ListHolds {
                            organization_id: request.organization_id,
                            status: match request.status {
                                Some(status) => Some(text_of(status.name())),
                                None => None,
                            },
                            cursor: request.cursor,
                            limit,
                        },
                    ),
                ),
                None => None,
            },
            AdminRequest::AddScope(request) => scope_operation(
                request,
                true,
                caller,
                actor,
                request_hash,
            ),
            AdminRequest::RemoveScope(request) => scope_operation(
                request,
                false,
                caller,
                actor,
                request_hash,
            ),
            AdminRequest::ReleaseHold(request) => match parse_revision(
                request.expected_revision.as_str(),
            ) {
                Some(expected_revision) => Some(
                    StorageOperation::Command(
                        Command::Release(
                            ReleaseHold {
                                caller,
                                actor,
                                organization_id: request.organization_id,
                                hold_id: request.hold_id,
                                expected_revision,
                                reason: request.reason,
                                idempotency_key: request.idempotency_key,
                                request_hash,
                            },
                        ),
                    ),
                ),
                None => None,
            },
            AdminRequest::ListActivity(request) => match (
                parse_starting_cursor(&request.after),
                PageLimit::new(request.limit),
            ) {
                (Some(after), Some(limit)) => Some(
                    StorageOperation::ListActivity(
                        ListActivity {
                            organization_id: request.organization_id,
                            hold_id: request.hold_id,
                            after,
                            limit,
                        },
                    ),
                ),
                _ => None,
            },
        }
    }

    /// Prepares a granted request that changes a hold, on the wire form of its
    /// content.
    pub fn prepare_command(self, grant: Grant, wire: Result<Vec<u8>, String>) -> (outcome: Result<
        StorageOperation,
        PluginError<LegalHoldError>,
    >)
        ensures
            preparation(outcome) == prepared_command(
                self,
                grant@,
                match wire {
                    Ok(bytes) => Ok(bytes@),
                    Err(message) => Err(message@),
                },
            ),
    {
        if !self.within_bounds() {
            return invalid_request();
        }
        match wire {
            Ok(bytes) => match self.operation_for(grant, sha256_digest(&bytes)) {
                Some(operation) => Ok(operation),
                None => invalid_request(),
            },
            Err(message) => Err(PluginError::Runtime(serialization_fault(message.as_str()))),
        }
    }

    /// Prepares a granted request for storage. What the digest of one that changes
    /// a hold covers can be read from what was digested.
    pub fn prepare(self, grant: Grant) -> (outcome: Result<
        StorageOperation,
        PluginError<LegalHoldError>,
    >)
        ensures
            preparation(outcome) == prepared(self, grant@),
            self.is_valid() && self.is_command() ==> (json_wire(self.content()) matches Ok(wire)
                ==> is_written(self.content(), wire)),
    {
        if !self.within_bounds() {
            return invalid_request();
        }
        match self.content_value() {
            Some(content) => {
                proof {
                    lemma_contents_read_back(self);
                }
                let wire = wire_bytes(&content);
                self.prepare_command(grant, wire)
            },
            None => {
                let request_hash: Vec<u8> = Vec::new();
                assert(request_hash@ == Seq::<u8>::empty());
                match self.operation_for(grant, request_hash) {
                    Some(operation) => Ok(operation),
                    None => invalid_request(),
                }
            },
        }
    }
}

proof fn lemma_contents_read_back(request: AdminRequest)
    requires
        request.is_command(),
    ensures
        reads_back(request.content()),
{
    reveal_with_fuel(nests_within, 2);
    reveal_strlit("hold_id");
    reveal_strlit("organization_id");
    reveal_strlit("expected_revision");
    lemma_short_keys_are_plain("hold_id"@);
    lemma_short_keys_are_plain("organization_id"@);
    lemma_short_keys_are_plain("expected_revision"@);
}

/// Requests that agree are prepared alike: for the same operation, under the same
/// digest.
pub proof fn agreeing_requests_are_prepared_alike(
    left: AdminRequest,
    right: AdminRequest,
    grant: GrantModel,
)
    requires
        left.is_valid(),
        right.is_valid(),
        left.agrees(right),
    ensures
        left.operation() == right.operation(),
        left.content() == right.content(),
        prepared(left, grant) == prepared(right, grant),
{
}

/// What is digested of a request tells it from others of its kind.
pub proof fn contents_tell_requests_apart(left: AdminRequest, right: AdminRequest)
    requires
        left.is_command(),
        right.is_command(),
        left.operation() == right.operation(),
        left.content() == right.content(),
    ensures
        left.agrees(right),
{
    reveal_strlit("create_hold");
    reveal_strlit("add_scope");
    reveal_strlit("remove_scope");
    reveal_strlit("release_hold");
    assert("add_scope"@.len() < "create_hold"@.len() < "remove_scope"@.len());
    assert("remove_scope"@[2] == 'm' && "release_hold"@[2] == 'l');
    let members = left.content()->Object_0;
    let theirs = right.content()->Object_0;
    assert(members[0] == theirs[0] && members[1] == theirs[1] && members[2] == theirs[2]
        && members[3] == theirs[3] && members[4] == theirs[4]);
    match (left, right) {
        (AdminRequest::CreateHold(_), AdminRequest::CreateHold(_)) => {
            assert(members[5] == theirs[5]);
        },
        (AdminRequest::AddScope(ours), AdminRequest::AddScope(other)) => {
            assert(members[5] == theirs[5] && members[6] == theirs[6]);
            decimal_tells_integers_apart(ours.revision(), other.revision());
        },
        (AdminRequest::RemoveScope(ours), AdminRequest::RemoveScope(other)) => {
            assert(members[5] == theirs[5] && members[6] == theirs[6]);
            decimal_tells_integers_apart(ours.revision(), other.revision());
        },
        _ => {},
    }
}

/// Requests for the same operation that were written share a digest only where they
/// agree in every field, unless two wire forms share a digest.
pub proof fn digests_tell_requests_apart(
    left: AdminRequest,
    right: AdminRequest,
    left_wire: Seq<u8>,
    right_wire: Seq<u8>,
)
    requires
        left.is_command(),
        right.is_command(),
        left.operation() == right.operation(),
        is_written(left.content(), left_wire),
        is_written(right.content(), right_wire),
        sha256(left_wire) == sha256(right_wire),
    ensures
        left.agrees(right) || digests_collide(left_wire, right_wire),
{
    if left_wire == right_wire {
        contents_tell_requests_apart(left, right);
    }
}

/// A request asks for the operation that it is named for, and needs its permission:
/// one for reads, one for creations and scope changes, and one for releases.
pub proof fn requests_need_the_permission_of_their_operation(request: AdminRequest)
    ensures
        ({
            let needs = |operation: Text, permission: Text|
                request.operation() == operation && request.permission() == permission;
            match request {
                AdminRequest::CreateHold(_) => needs("create_hold"@, "legal-hold.write"@),
                AdminRequest::GetHold(_) => needs("get_hold"@, "legal-hold.read"@),
                AdminRequest::ListHolds(_) => needs("list_holds"@, "legal-hold.read"@),
                AdminRequest::AddScope(_) => needs("add_scope"@, "legal-hold.write"@),
                AdminRequest::RemoveScope(_) => needs("remove_scope"@, "legal-hold.write"@),
                AdminRequest::ReleaseHold(_) => needs("release_hold"@, "legal-hold.release"@),
                AdminRequest::ListActivity(_) => needs("list_activity"@, "legal-hold.read"@),
            }
        }),
        request.organization_id() == match request {
            AdminRequest::CreateHold(creation) => creation.organization_id@,
            AdminRequest::GetHold(read) => read.organization_id@,
            AdminRequest::ListHolds(listing) => listing.organization_id@,
            AdminRequest::AddScope(change) => change.organization_id@,
            AdminRequest::RemoveScope(change) => change.organization_id@,
            AdminRequest::ReleaseHold(release) => release.organization_id@,
            AdminRequest::ListActivity(listing) => listing.organization_id@,
        },
        request.authorization().operation == request.operation(),
        request.authorization().organization_id == request.organization_id(),
        request.authorization().permission == request.permission(),
{
}

/// A creation carries the organization, the identifier, the title, the reason, the
/// legal authority and the key of its request, each as what it is, on behalf of
/// whom it was granted to.
pub proof fn creations_carry_what_was_requested(
    request: CreateHoldRequest,
    grant: GrantModel,
    operation: StorageOperationModel,
)
    requires
        prepared(AdminRequest::CreateHold(request), grant) == Ok::<
            StorageOperationModel,
            PluginErrorModel<LegalHoldError>,
        >(operation),
    ensures
        operation matches StorageOperationModel::Command(CommandModel::Create(creation)) && {
            &&& creation.caller == grant.caller
            &&& creation.actor == grant.actor
            &&& creation.organization_id == request.organization_id@
            &&& creation.hold_id == request.hold_id@
            &&& creation.title == request.title@
            &&& creation.reason == request.reason@
            &&& creation.legal_authority == request.legal_authority@
            &&& creation.idempotency_key == request.idempotency_key@
            &&& json_wire(AdminRequest::CreateHold(request).content()) matches Ok(wire)
                && creation.request_hash == sha256(wire)
        },
{
}

/// A request to add a scope becomes a command that adds, and one to remove a scope
/// a command that removes, the scope that the request names, at the revision that
/// it expects, on behalf of whom it was granted to.
pub proof fn scope_changes_carry_what_was_requested(
    request: MutateScopeRequest,
    adds: bool,
    grant: GrantModel,
    operation: StorageOperationModel,
)
    requires
        prepared(
            if adds {
                AdminRequest::AddScope(request)
            } else {
                AdminRequest::RemoveScope(request)
            },
            grant,
        ) == Ok::<StorageOperationModel, PluginErrorModel<LegalHoldError>>(operation),
    ensures
        operation matches StorageOperationModel::Command(CommandModel::Scope(change)) && {
            &&& change.add == adds
            &&& change.operation == if adds {
                "add_scope"@
            } else {
                "remove_scope"@
            }
            &&& change.caller == grant.caller
            &&& change.actor == grant.actor
            &&& change.organization_id == request.organization_id@
            &&& change.hold_id == request.hold_id@
            &&& change.scope_kind == request.scope_kind@
            &&& change.scope_id == request.scope_id@
            &&& change.subject is Some == request.subject is Some
            &&& request.subject matches Some(subject) ==> change.subject == Some(subject@)
            &&& parsed_revision(request.expected_revision@) == Some(change.expected_revision)
            &&& change.idempotency_key == request.idempotency_key@
            &&& json_wire(AdminRequest::AddScope(request).content()) matches Ok(wire)
                && change.request_hash == sha256(wire)
        },
{
}

/// A release carries the organization, the identifier, the expected revision, the
/// reason and the key of its request, on behalf of whom it was granted to.
pub proof fn releases_carry_what_was_requested(
    request: ReleaseHoldRequest,
    grant: GrantModel,
    operation: StorageOperationModel,
)
    requires
        prepared(AdminRequest::ReleaseHold(request), grant) == Ok::<
            StorageOperationModel,
            PluginErrorModel<LegalHoldError>,
        >(operation),
    ensures
        operation matches StorageOperationModel::Command(CommandModel::Release(release)) && {
            &&& release.caller == grant.caller
            &&& release.actor == grant.actor
            &&& release.organization_id == request.organization_id@
            &&& release.hold_id == request.hold_id@
            &&& parsed_revision(request.expected_revision@) == Some(release.expected_revision)
            &&& release.reason == request.reason@
            &&& release.idempotency_key == request.idempotency_key@
            &&& json_wire(AdminRequest::ReleaseHold(request).content()) matches Ok(wire)
                && release.request_hash == sha256(wire)
        },
{
}

/// Reads are of what their requests name: the hold, the organization, the status,
/// the cursor and the page size. A listing of activity without a cursor starts at
/// the beginning.
pub proof fn reads_carry_what_was_requested(
    request: AdminRequest,
    grant: GrantModel,
    operation: StorageOperationModel,
)
    requires
        prepared(request, grant) == Ok::<
            StorageOperationModel,
            PluginErrorModel<LegalHoldError>,
        >(operation),
    ensures
        request matches AdminRequest::GetHold(asked) ==> {
            &&& operation matches StorageOperationModel::GetHold(read)
            &&& read.organization_id == asked.organization_id@
            &&& read.hold_id == asked.hold_id@
        },
        request matches AdminRequest::ListHolds(asked) ==> {
            &&& operation matches StorageOperationModel::ListHolds(listing)
            &&& listing.organization_id == asked.organization_id@
            &&& asked.status is None ==> listing.status is None
            &&& asked.status == Some(ListHoldsRequestStatus::Active) ==> listing.status == Some(
                "active"@,
            )
            &&& asked.status == Some(ListHoldsRequestStatus::Released) ==> listing.status == Some(
                "released"@,
            )
            &&& listing.cursor is Some == asked.cursor is Some
            &&& asked.cursor matches Some(cursor) ==> listing.cursor == Some(cursor@)
            &&& listing.limit == asked.limit
        },
        request matches AdminRequest::ListActivity(asked) ==> {
            &&& operation matches StorageOperationModel::ListActivity(listing)
            &&& listing.organization_id == asked.organization_id@
            &&& listing.hold_id == asked.hold_id@
            &&& asked.after is None ==> listing.after == 0
            &&& asked.after matches Some(after) ==> parsed_cursor(after@) == Some(listing.after)
            &&& listing.limit == asked.limit
        },
{
}

/// A request is refused as invalid exactly when one of its fields is out of bounds:
/// an identifier beyond 512 bytes, a title or a legal authority beyond 1,000, a
/// reason beyond 20,000, a scope kind beyond 128, a key beyond 200, any of them
/// blank or with a control character in it, a page size not from 1 to 200, a
/// revision that is no positive number, or a cursor that is a negative number or
/// none.
pub proof fn requests_are_valid_within_bounds(request: AdminRequest, grant: GrantModel)
    ensures
        prepared(request, grant) != Err::<StorageOperationModel, PluginErrorModel<LegalHoldError>>(
            PluginErrorModel::Domain(LegalHoldError::InvalidRequest),
        ) <==> ({
            let within = |text: String, bytes: nat| text_is_valid(text@, bytes, false);
            match request {
                AdminRequest::CreateHold(creation) => {
                    &&& within(creation.organization_id, 512)
                    &&& within(creation.hold_id, 512)
                    &&& within(creation.title, 1_000)
                    &&& within(creation.reason, 20_000)
                    &&& within(creation.legal_authority, 1_000)
                    &&& within(creation.idempotency_key, 200)
                },
                AdminRequest::GetHold(read) => {
                    &&& within(read.organization_id, 512)
                    &&& within(read.hold_id, 512)
                },
                AdminRequest::ListHolds(listing) => {
                    &&& within(listing.organization_id, 512)
                    &&& listing.cursor matches Some(cursor) ==> within(cursor, 512)
                    &&& 1 <= listing.limit <= 200
                },
                AdminRequest::AddScope(change) => {
                    &&& within(change.organization_id, 512)
                    &&& within(change.hold_id, 512)
                    &&& within(change.scope_kind, 128)
                    &&& within(change.scope_id, 512)
                    &&& change.subject matches Some(subject) ==> within(subject, 512)
                    &&& parsed_integer(change.expected_revision@) matches Some(revision)
                        && revision >= 1
                    &&& within(change.idempotency_key, 200)
                },
                AdminRequest::RemoveScope(change) => {
                    &&& within(change.organization_id, 512)
                    &&& within(change.hold_id, 512)
                    &&& within(change.scope_kind, 128)
                    &&& within(change.scope_id, 512)
                    &&& change.subject matches Some(subject) ==> within(subject, 512)
                    &&& parsed_integer(change.expected_revision@) matches Some(revision)
                        && revision >= 1
                    &&& within(change.idempotency_key, 200)
                },
                AdminRequest::ReleaseHold(release) => {
                    &&& within(release.organization_id, 512)
                    &&& within(release.hold_id, 512)
                    &&& parsed_integer(release.expected_revision@) matches Some(revision)
                        && revision >= 1
                    &&& within(release.reason, 20_000)
                    &&& within(release.idempotency_key, 200)
                },
                AdminRequest::ListActivity(listing) => {
                    &&& within(listing.organization_id, 512)
                    &&& within(listing.hold_id, 512)
                    &&& listing.after matches Some(after) ==> (parsed_integer(after@) matches Some(
                        cursor,
                    ) && cursor >= 0)
                    &&& 1 <= listing.limit <= 200
                },
            }
        }),
{
}

/// A request that changes a hold and is within bounds is prepared, or has no wire
/// form and is reported as an internal fault with the reason; one that reads is
/// always prepared.
pub proof fn valid_requests_are_prepared(request: AdminRequest, grant: GrantModel)
    requires
        request.is_valid(),
    ensures
        request is GetHold || request is ListHolds || request is ListActivity ==> prepared(
            request,
            grant,
        ) is Ok,
        json_wire(request.content()) is Ok ==> prepared(request, grant) is Ok,
        prepared(request, grant) matches Err(error) ==> json_wire(request.content()) matches Err(
            message,
        ) && error == PluginErrorModel::<LegalHoldError>::Runtime(
            RuntimeFaultModel::Internal {
                detail: "Legal Hold wire serialization failed: "@ + message,
            },
        ),
{
}

/// What is digested of a request that changes a hold names every field of it.
pub proof fn digests_cover_every_field(request: AdminRequest)
    ensures
        request matches AdminRequest::CreateHold(creation) ==> request.content() == Json::Object(
            seq![
                ("hold_id"@, Json::Text(creation.hold_id@)),
                ("idempotency_key"@, Json::Text(creation.idempotency_key@)),
                ("legal_authority"@, Json::Text(creation.legal_authority@)),
                ("organization_id"@, Json::Text(creation.organization_id@)),
                ("reason"@, Json::Text(creation.reason@)),
                ("title"@, Json::Text(creation.title@)),
            ],
        ),
        request matches AdminRequest::AddScope(change) ==> request.content()
            == AdminRequest::RemoveScope(change).content(),
        request matches AdminRequest::RemoveScope(change) ==> request.is_valid() ==> {
            &&& parsed_revision(change.expected_revision@) matches Some(revision)
            &&& request.content() matches Json::Object(members)
            &&& members == seq![
                ("organization_id"@, Json::Text(change.organization_id@)),
                ("hold_id"@, Json::Text(change.hold_id@)),
                ("scope_kind"@, Json::Text(change.scope_kind@)),
                ("scope_id"@, Json::Text(change.scope_id@)),
                (
                    "subject"@,
                    match change.subject {
                        Some(subject) => Json::Text(subject@),
                        None => Json::Null,
                    },
                ),
                ("expected_revision"@, Json::Text(decimal(revision))),
                ("idempotency_key"@, Json::Text(change.idempotency_key@)),
            ]
        },
        request matches AdminRequest::ReleaseHold(release) ==> request.content() == Json::Object(
            seq![
                ("expected_revision"@, Json::Text(release.expected_revision@)),
                ("hold_id"@, Json::Text(release.hold_id@)),
                ("idempotency_key"@, Json::Text(release.idempotency_key@)),
                ("organization_id"@, Json::Text(release.organization_id@)),
                ("reason"@, Json::Text(release.reason@)),
            ],
        ),
{
    if let AdminRequest::RemoveScope(change) = request {
        assert(nullable(optional_text(change.subject)) == match change.subject {
            Some(subject) => Json::Text(subject@),
            None => Json::Null,
        });
    }
}

fn scope_operation(
    request: MutateScopeRequest,
    add: bool,
    caller: String,
    actor: String,
    request_hash: Vec<u8>,
) -> (operation: Option<StorageOperation>)
    requires
        request.is_valid(),
    ensures
        operation matches Some(operation) && operation@ == StorageOperationModel::Command(
            request.command(add, GrantModel { caller: caller@, actor: actor@ }, request_hash@),
        ),
        operation matches Some(StorageOperation::Command(Command::Scope(change))) && {
            &&& change.add == add
            &&& change.caller == caller
            &&& change.actor == actor
            &&& change.organization_id == request.organization_id
            &&& change.hold_id == request.hold_id
            &&& change.scope_kind == request.scope_kind
            &&& change.scope_id == request.scope_id
            &&& change.subject == request.subject
            &&& change.idempotency_key == request.idempotency_key
            &&& parsed_revision(request.expected_revision@) == Some(
                change.expected_revision as int,
            )
            &&& change.request_hash == request_hash
        },
{
    match parse_revision(request.expected_revision.as_str()) {
        Some(expected_revision) => Some(
            StorageOperation::Command(
                Command::Scope(
                    MutateScope {
                        caller,
                        actor,
                        operation: text_of(
                            if add {
                                ADD_SCOPE
                            } else {
                                REMOVE_SCOPE
                            },
                        ),
                        organization_id: request.organization_id,
                        hold_id: request.hold_id,
                        scope_kind: request.scope_kind,
                        scope_id: request.scope_id,
                        subject: request.subject,
                        expected_revision,
                        idempotency_key: request.idempotency_key,
                        request_hash,
                        add,
                    },
                ),
            ),
        ),
        None => None,
    }
}

} // verus!
