use legal_hold::administration::{AdminAction, AdminEvent, AdminPhase, AdminResponse, AdminStep};
use legal_hold::authorization::{DependencyQuery, DependencyReply, Grant};
use legal_hold::command::Command;
use legal_hold::config::LegalHoldConfig;
use legal_hold::failure::{PluginError, RuntimeFault};
use legal_hold::hold::{ActivityRow, HoldRow, StoredHold};
use legal_hold::request::{
    serialization_fault, AdminRequest, CreateHoldRequest, GetHoldRequest, LegalHoldError,
    ListActivityRequest, ListHoldsRequest, ListHoldsRequestStatus, MutateScopeRequest,
    ReleaseHoldRequest, StorageOperation,
};
use legal_hold::statement::{LockedHold, Receipt, Reply, ResponseFault, Statement};
use lenso_kernel::RuntimeFailure;
use serde_json::Value;
use sha2::Digest as _;

fn config() -> LegalHoldConfig {
    LegalHoldConfig {
        schema: "legal_hold".to_owned(),
        database_url_secret: "legal-hold/database-url".to_owned(),
        auth_issuer: "auth.users".to_owned(),
        auth_assertion_public_key: String::new(),
        admin_callers: vec!["console".to_owned(), "legal-api".to_owned()],
        guard_callers: vec!["privacy-retention".to_owned()],
    }
}

fn create() -> CreateHoldRequest {
    CreateHoldRequest {
        organization_id: "org_1".to_owned(),
        hold_id: "hold_1".to_owned(),
        title: "Investigation".to_owned(),
        reason: "Preserve records".to_owned(),
        legal_authority: "court-order-1".to_owned(),
        idempotency_key: "create-1".to_owned(),
    }
}

fn mutate_scope() -> MutateScopeRequest {
    MutateScopeRequest {
        organization_id: "org_1".to_owned(),
        hold_id: "hold_1".to_owned(),
        scope_kind: "organization".to_owned(),
        scope_id: "org_1".to_owned(),
        subject: None,
        expected_revision: "+07".to_owned(),
        idempotency_key: "scope-1".to_owned(),
    }
}

fn release() -> ReleaseHoldRequest {
    ReleaseHoldRequest {
        organization_id: "org_1".to_owned(),
        hold_id: "hold_1".to_owned(),
        expected_revision: "2".to_owned(),
        reason: "matter closed".to_owned(),
        idempotency_key: "release-1".to_owned(),
    }
}

fn get() -> GetHoldRequest {
    GetHoldRequest {
        organization_id: "org_1".to_owned(),
        hold_id: "hold_1".to_owned(),
    }
}

fn list_holds() -> ListHoldsRequest {
    ListHoldsRequest {
        organization_id: "org_1".to_owned(),
        status: None,
        cursor: None,
        limit: 10,
    }
}

fn list_activity() -> ListActivityRequest {
    ListActivityRequest {
        organization_id: "org_1".to_owned(),
        hold_id: "hold_1".to_owned(),
        after: None,
        limit: 10,
    }
}

fn every_request() -> Vec<(AdminRequest, &'static str, &'static str)> {
    vec![
        (AdminRequest::CreateHold(create()), "create_hold", "legal-hold.write"),
        (AdminRequest::GetHold(get()), "get_hold", "legal-hold.read"),
        (AdminRequest::ListHolds(list_holds()), "list_holds", "legal-hold.read"),
        (AdminRequest::AddScope(mutate_scope()), "add_scope", "legal-hold.write"),
        (AdminRequest::RemoveScope(mutate_scope()), "remove_scope", "legal-hold.write"),
        (AdminRequest::ReleaseHold(release()), "release_hold", "legal-hold.release"),
        (AdminRequest::ListActivity(list_activity()), "list_activity", "legal-hold.read"),
    ]
}

fn start(request: AdminRequest) -> AdminStep {
    request.start(&config(), &Some("legal-api".to_owned()))
}

fn next(step: AdminStep, event: AdminEvent) -> AdminStep {
    match step {
        AdminStep::Continue(phase, _) => phase.next(event),
        finished => panic!("the run is over: {finished:?}"),
    }
}

fn dependency(step: AdminStep, reply: DependencyReply) -> AdminStep {
    next(step, AdminEvent::Dependency(reply))
}

fn storage(step: AdminStep, reply: Reply) -> AdminStep {
    next(step, AdminEvent::Storage(reply))
}

fn subject() -> DependencyReply {
    DependencyReply::Subject(Some("usr_legal".to_owned()))
}

fn granted(request: AdminRequest) -> AdminStep {
    let step = dependency(start(request), subject());
    let step = dependency(step, DependencyReply::Answer(true));
    dependency(step, DependencyReply::Answer(true))
}

fn domain(error: LegalHoldError) -> AdminStep {
    AdminStep::Finished(Err(PluginError::Domain(error)))
}

fn runtime(fault: RuntimeFault) -> AdminStep {
    AdminStep::Finished(Err(PluginError::Runtime(fault)))
}

fn asked(step: &AdminStep) -> &DependencyQuery {
    match step {
        AdminStep::Continue(_, AdminAction::Ask(query)) => query,
        other => panic!("nothing was asked: {other:?}"),
    }
}

fn executed(step: &AdminStep) -> &Statement {
    match step {
        AdminStep::Continue(_, AdminAction::Execute(statement)) => statement,
        other => panic!("nothing was executed: {other:?}"),
    }
}

#[test]
fn only_configured_callers_are_served() {
    for caller in [None, Some("privacy-retention".to_owned()), Some("legal".to_owned())] {
        assert_eq!(
            AdminRequest::GetHold(get()).start(&config(), &caller),
            domain(LegalHoldError::Forbidden)
        );
    }
}

#[test]
fn dependencies_are_asked_in_order() {
    for (request, operation, permission) in every_request() {
        let step = start(request);
        assert_eq!(
            *asked(&step),
            DependencyQuery::Authenticate {
                capability_id: "lenso.legal-hold@1".to_owned(),
                operation: operation.to_owned(),
            }
        );
        let step = dependency(step, subject());
        assert_eq!(
            *asked(&step),
            DependencyQuery::CheckMembership {
                organization_id: "org_1".to_owned(),
                subject: "usr_legal".to_owned(),
            }
        );
        let step = dependency(step, DependencyReply::Answer(true));
        assert_eq!(
            *asked(&step),
            DependencyQuery::CheckPermission {
                subject: "usr_legal".to_owned(),
                scope_kind: "organization".to_owned(),
                scope_id: "org_1".to_owned(),
                permission: permission.to_owned(),
            }
        );
        let step = dependency(step, DependencyReply::Answer(true));
        match (operation, executed(&step)) {
            ("list_holds", Statement::ListHoldIds { limit, .. }) => assert_eq!(*limit, 11),
            (_, statement) => assert_eq!(*statement, Statement::Begin),
        }
    }
}

#[test]
fn an_actor_must_be_authenticated() {
    for reply in [
        DependencyReply::Subject(None),
        DependencyReply::Subject(Some(" ".to_owned())),
        DependencyReply::Subject(Some("s".repeat(513))),
        DependencyReply::Answer(true),
        DependencyReply::Rejected,
        DependencyReply::Failed(RuntimeFailure::AdmissionClosed),
    ] {
        assert_eq!(
            dependency(start(AdminRequest::GetHold(get())), reply),
            domain(LegalHoldError::Unauthenticated)
        );
    }
}

#[test]
fn a_failed_check_is_never_a_grant() {
    fn member() -> AdminStep {
        dependency(start(AdminRequest::GetHold(get())), subject())
    }
    fn permitted() -> AdminStep {
        dependency(member(), DependencyReply::Answer(true))
    }
    for (step, detail) in [
        (
            member as fn() -> AdminStep,
            "Organization Membership rejected a Legal Hold authorization query",
        ),
        (
            permitted,
            "Access Control rejected a Legal Hold authorization query",
        ),
    ] {
        assert_eq!(
            dependency(step(), DependencyReply::Answer(false)),
            domain(LegalHoldError::Forbidden)
        );
        let rejected = || {
            runtime(RuntimeFault::PluginFailure {
                detail: detail.to_owned(),
            })
        };
        assert_eq!(dependency(step(), DependencyReply::Rejected), rejected());
        assert_eq!(dependency(step(), subject()), rejected());
        assert_eq!(storage(step(), Reply::Done), rejected());
        assert_eq!(
            dependency(
                step(),
                DependencyReply::Failed(RuntimeFailure::AdmissionClosed)
            ),
            runtime(RuntimeFault::Kernel(RuntimeFailure::AdmissionClosed))
        );
    }
}

#[test]
fn invalid_requests_do_not_reach_storage() {
    let invalid = |request: AdminRequest| {
        assert_eq!(granted(request), domain(LegalHoldError::InvalidRequest));
    };
    for change in [
        (|request: &mut CreateHoldRequest| request.organization_id.clear())
            as fn(&mut CreateHoldRequest),
        |request| request.hold_id = "h".repeat(513),
        |request| request.title = "t".repeat(1_001),
        |request| request.title = " ".to_owned(),
        |request| request.reason.clear(),
        |request| request.reason = "r".repeat(20_001),
        |request| request.legal_authority = "a\tb".to_owned(),
        |request| request.idempotency_key = "k".repeat(201),
    ] {
        let mut request = create();
        change(&mut request);
        invalid(AdminRequest::CreateHold(request));
    }
    for change in [
        (|request: &mut MutateScopeRequest| request.expected_revision = "0".to_owned())
            as fn(&mut MutateScopeRequest),
        |request| request.expected_revision = "two".to_owned(),
        |request| request.organization_id.clear(),
        |request| request.hold_id.clear(),
        |request| request.scope_kind = "k".repeat(129),
        |request| request.scope_id.clear(),
        |request| request.subject = Some(String::new()),
        |request| request.idempotency_key.clear(),
    ] {
        let mut request = mutate_scope();
        change(&mut request);
        invalid(AdminRequest::AddScope(request));
        let mut request = mutate_scope();
        change(&mut request);
        invalid(AdminRequest::RemoveScope(request));
    }
    for change in [
        (|request: &mut ReleaseHoldRequest| request.expected_revision = "-1".to_owned())
            as fn(&mut ReleaseHoldRequest),
        |request| request.organization_id.clear(),
        |request| request.hold_id.clear(),
        |request| request.reason.clear(),
        |request| request.idempotency_key.clear(),
    ] {
        let mut request = release();
        change(&mut request);
        invalid(AdminRequest::ReleaseHold(request));
    }
    for change in [
        (|request: &mut ListHoldsRequest| request.limit = 0) as fn(&mut ListHoldsRequest),
        |request| request.limit = 201,
        |request| request.cursor = Some(String::new()),
        |request| request.organization_id.clear(),
    ] {
        let mut request = list_holds();
        change(&mut request);
        invalid(AdminRequest::ListHolds(request));
    }
    for change in [
        (|request: &mut ListActivityRequest| request.limit = 0) as fn(&mut ListActivityRequest),
        |request| request.after = Some("-1".to_owned()),
        |request| request.after = Some(String::new()),
        |request| request.hold_id.clear(),
    ] {
        let mut request = list_activity();
        change(&mut request);
        invalid(AdminRequest::ListActivity(request));
    }
    let mut request = get();
    request.hold_id.clear();
    invalid(AdminRequest::GetHold(request));
}

fn object(members: &[(&str, Value)]) -> Value {
    let mut object = serde_json::Map::new();
    for (key, value) in members {
        object.insert((*key).to_owned(), value.clone());
    }
    Value::Object(object)
}

fn text(value: &str) -> Value {
    Value::String(value.to_owned())
}

fn digest_of(request: AdminRequest) -> Vec<u8> {
    let grant = Grant {
        caller: "legal-api".to_owned(),
        actor: "usr_legal".to_owned(),
    };
    match request.prepare(grant) {
        Ok(StorageOperation::Command(Command::Create(command))) => command.request_hash,
        Ok(StorageOperation::Command(Command::Scope(command))) => command.request_hash,
        Ok(StorageOperation::Command(Command::Release(command))) => command.request_hash,
        other => panic!("no command: {other:?}"),
    }
}

fn digest(value: &Value) -> Vec<u8> {
    sha2::Sha256::digest(serde_json::to_vec(value).unwrap()).to_vec()
}

#[test]
fn commands_carry_the_digest_of_their_request() {
    assert_eq!(
        digest_of(AdminRequest::CreateHold(create())),
        digest(&object(&[
            ("hold_id", text("hold_1")),
            ("idempotency_key", text("create-1")),
            ("legal_authority", text("court-order-1")),
            ("organization_id", text("org_1")),
            ("reason", text("Preserve records")),
            ("title", text("Investigation")),
        ]))
    );
    let scope = |subject: Value| {
        digest(&object(&[
            ("organization_id", text("org_1")),
            ("hold_id", text("hold_1")),
            ("scope_kind", text("organization")),
            ("scope_id", text("org_1")),
            ("subject", subject),
            ("expected_revision", text("7")),
            ("idempotency_key", text("scope-1")),
        ]))
    };
    assert_eq!(
        digest_of(AdminRequest::AddScope(mutate_scope())),
        scope(Value::Null)
    );
    let mut narrowed = mutate_scope();
    narrowed.subject = Some("usr_1".to_owned());
    assert_eq!(
        digest_of(AdminRequest::RemoveScope(narrowed)),
        scope(text("usr_1"))
    );
    assert_eq!(
        digest_of(AdminRequest::ReleaseHold(release())),
        digest(&object(&[
            ("expected_revision", text("2")),
            ("hold_id", text("hold_1")),
            ("idempotency_key", text("release-1")),
            ("organization_id", text("org_1")),
            ("reason", text("matter closed")),
        ]))
    );
}

#[test]
fn a_request_without_wire_form_is_an_internal_fault() {
    let grant = Grant {
        caller: "legal-api".to_owned(),
        actor: "usr_legal".to_owned(),
    };
    let fault = || RuntimeFault::Internal {
        detail: "Legal Hold wire serialization failed: key must be a string".to_owned(),
    };
    assert_eq!(
        AdminRequest::CreateHold(create())
            .prepare_command(grant, Err("key must be a string".to_owned())),
        Err(PluginError::Runtime(fault()))
    );
    assert_eq!(serialization_fault("key must be a string"), fault());
}

#[test]
fn scope_changes_run_under_their_operation() {
    for (request, operation) in [
        (AdminRequest::AddScope(mutate_scope()), "add_scope"),
        (AdminRequest::RemoveScope(mutate_scope()), "remove_scope"),
    ] {
        let step = storage(granted(request), Reply::Done);
        assert_eq!(
            *executed(&step),
            Statement::ReadReceipt {
                caller: "legal-api".to_owned(),
                actor: "usr_legal".to_owned(),
                operation: operation.to_owned(),
                idempotency_key: "scope-1".to_owned(),
            }
        );
        let step = storage(step, Reply::Receipt(None));
        assert_eq!(
            *executed(&step),
            Statement::LockHold {
                organization_id: "org_1".to_owned(),
                hold_id: "hold_1".to_owned(),
            }
        );
    }
}

#[test]
fn listings_narrow_by_status_and_cursor() {
    for (status, name) in [
        (ListHoldsRequestStatus::Active, "active"),
        (ListHoldsRequestStatus::Released, "released"),
    ] {
        let mut request = list_holds();
        request.status = Some(status);
        request.cursor = Some("hold_7".to_owned());
        assert_eq!(
            *executed(&granted(AdminRequest::ListHolds(request))),
            Statement::ListHoldIds {
                organization_id: "org_1".to_owned(),
                status: Some(name.to_owned()),
                cursor: Some("hold_7".to_owned()),
                limit: 11,
            }
        );
    }
}

#[test]
fn domain_failures_are_answered_as_such() {
    let locked = |reply: Option<(&str, i64)>| {
        let step = storage(granted(AdminRequest::ReleaseHold(release())), Reply::Done);
        let step = storage(step, Reply::Receipt(None));
        storage(
            step,
            Reply::Locked(reply.map(|(status, revision)| LockedHold {
                status: status.to_owned(),
                revision,
            })),
        )
    };
    assert_eq!(locked(None), domain(LegalHoldError::NotFound));
    assert_eq!(
        locked(Some(("released", 2))),
        domain(LegalHoldError::HoldReleased)
    );
    assert_eq!(
        locked(Some(("active", 3))),
        domain(LegalHoldError::RevisionConflict)
    );
    let step = storage(granted(AdminRequest::AddScope(mutate_scope())), Reply::Done);
    let step = storage(step, Reply::Receipt(None));
    let step = storage(
        step,
        Reply::Locked(Some(LockedHold {
            status: "active".to_owned(),
            revision: 7,
        })),
    );
    assert_eq!(
        storage(step, Reply::Affected(0)),
        domain(LegalHoldError::ScopeConflict)
    );
    let conflict = |request: AdminRequest| {
        let step = storage(granted(request), Reply::Done);
        storage(
            step,
            Reply::Receipt(Some(Receipt {
                request_hash: vec![0],
                response: Err(ResponseFault::Undecodable),
            })),
        )
    };
    for (request, _, permission) in every_request() {
        if permission != "legal-hold.read" {
            assert_eq!(
                conflict(request),
                domain(LegalHoldError::IdempotencyConflict)
            );
        }
    }
}

fn request_digest(request: AdminRequest) -> Vec<u8> {
    let grant = Grant {
        caller: "console".to_owned(),
        actor: "usr_admin".to_owned(),
    };
    match request.prepare(grant) {
        Ok(StorageOperation::Command(Command::Create(command))) => command.request_hash,
        Ok(StorageOperation::Command(Command::Scope(command))) => command.request_hash,
        Ok(StorageOperation::Command(Command::Release(command))) => command.request_hash,
        other => panic!("unexpected preparation: {other:?}"),
    }
}

#[test]
fn different_requests_have_different_digests() {
    let creations: [fn(&mut CreateHoldRequest); 6] = [
        |request| request.organization_id.push('x'),
        |request| request.hold_id.push('x'),
        |request| request.title.push('x'),
        |request| request.reason.push('x'),
        |request| request.legal_authority.push('x'),
        |request| request.idempotency_key.push('x'),
    ];
    let mut digests = vec![request_digest(AdminRequest::CreateHold(create()))];
    for change in creations {
        let mut request = create();
        change(&mut request);
        digests.push(request_digest(AdminRequest::CreateHold(request)));
    }
    let changes: [fn(&mut MutateScopeRequest); 7] = [
        |request| request.organization_id.push('x'),
        |request| request.hold_id.push('x'),
        |request| request.scope_kind.push('x'),
        |request| request.scope_id.push('x'),
        |request| request.subject = Some("usr_other".to_owned()),
        |request| request.expected_revision = "77".to_owned(),
        |request| request.idempotency_key.push('x'),
    ];
    digests.push(request_digest(AdminRequest::AddScope(mutate_scope())));
    for change in changes {
        let mut request = mutate_scope();
        change(&mut request);
        digests.push(request_digest(AdminRequest::AddScope(request)));
    }
    let count = digests.len();
    digests.sort();
    digests.dedup();
    assert_eq!(digests.len(), count);
}

#[test]
fn a_scope_change_expects_a_revision_by_its_number() {
    let expecting = |revision: &str| {
        let mut request = mutate_scope();
        request.expected_revision = revision.to_owned();
        request
    };
    assert_eq!(
        request_digest(AdminRequest::AddScope(expecting("7"))),
        request_digest(AdminRequest::AddScope(expecting("+07")))
    );
    let releasing = |revision: &str| {
        let mut request = release();
        request.expected_revision = revision.to_owned();
        request
    };
    assert_eq!(
        request_digest(AdminRequest::ReleaseHold(releasing("7"))),
        request_digest(AdminRequest::ReleaseHold(releasing("7")))
    );
    assert_ne!(
        request_digest(AdminRequest::ReleaseHold(releasing("7"))),
        request_digest(AdminRequest::ReleaseHold(releasing("+07")))
    );
}

#[test]
fn a_hold_that_vanished_during_creation_is_an_invalid_request() {
    let step = storage(granted(AdminRequest::CreateHold(create())), Reply::Done);
    let step = storage(step, Reply::Receipt(None));
    let step = storage(step, Reply::Affected(1));
    let step = storage(step, Reply::Affected(1));
    assert_eq!(
        storage(step, Reply::Hold(None)),
        domain(LegalHoldError::InvalidRequest)
    );
}

#[test]
fn storage_failures_are_plugin_failures() {
    for (request, operation, _) in every_request() {
        let step = granted(request);
        let name = match operation {
            "create_hold" => "begin create hold",
            "release_hold" => "begin release hold",
            "add_scope" | "remove_scope" => "begin mutate hold scope",
            "list_holds" => "list legal holds",
            _ => "begin read hold",
        };
        assert_eq!(
            storage(step, Reply::Failed),
            runtime(RuntimeFault::PluginFailure {
                detail: format!("PostgreSQL operation `{name}` failed"),
            })
        );
    }
    assert_eq!(
        storage(granted(AdminRequest::GetHold(get())), Reply::NotPrepared),
        runtime(RuntimeFault::PluginFailure {
            detail: "Legal Hold Plugin is not prepared".to_owned(),
        })
    );
    assert_eq!(
        dependency(granted(AdminRequest::GetHold(get())), DependencyReply::Answer(true)),
        runtime(RuntimeFault::PluginFailure {
            detail: "PostgreSQL operation `begin read hold` failed".to_owned(),
        })
    );
}

fn row() -> HoldRow {
    HoldRow {
        organization_id: "org_1".to_owned(),
        hold_id: "hold_1".to_owned(),
        title: "Investigation".to_owned(),
        reason: "Preserve records".to_owned(),
        legal_authority: "court-order-1".to_owned(),
        status: "active".to_owned(),
        revision: 4,
        created_by: "usr_legal".to_owned(),
        created_at: 0,
        released_by: None,
        released_at: None,
        release_reason: None,
    }
}

#[test]
fn a_read_answers_with_the_stored_hold() {
    let step = storage(granted(AdminRequest::GetHold(get())), Reply::Done);
    let step = storage(step, Reply::Hold(Some(StoredHold::Decoded(row()))));
    let step = storage(step, Reply::Scopes(Vec::new(), None));
    match storage(step, Reply::Done) {
        AdminStep::Finished(Ok(AdminResponse::Hold(hold))) => {
            assert_eq!(hold.revision, "4");
            assert_eq!(hold.created_at, "1970-01-01T00:00:00Z");
        }
        other => panic!("unexpected step: {other:?}"),
    }
}

#[test]
fn activity_starts_at_the_beginning_and_keeps_its_cursor() {
    let events = |after: Option<&str>, rows: Vec<ActivityRow>| {
        let mut request = list_activity();
        request.after = after.map(str::to_owned);
        let step = storage(granted(AdminRequest::ListActivity(request)), Reply::Done);
        let step = storage(step, Reply::Hold(Some(StoredHold::Decoded(row()))));
        let step = storage(step, Reply::Scopes(Vec::new(), None));
        let step = storage(step, Reply::Done);
        let Statement::ListActivity { after, limit, .. } = executed(&step) else {
            panic!("no activity was listed");
        };
        assert_eq!(*limit, 10);
        let after = *after;
        match storage(step, Reply::Activity(rows, None)) {
            AdminStep::Finished(Ok(AdminResponse::Activity {
                events,
                next_cursor,
            })) => (after, events, next_cursor),
            other => panic!("unexpected step: {other:?}"),
        }
    };
    let (after, none, cursor) = events(None, Vec::new());
    assert_eq!((after, none.len(), cursor.as_str()), (0, 0, "0"));
    let (after, _, cursor) = events(Some("12"), Vec::new());
    assert_eq!((after, cursor.as_str()), (12, "12"));
    let event = ActivityRow {
        activity_id: 15,
        kind: "hold_created".to_owned(),
        actor_subject: "usr_legal".to_owned(),
        payload: Value::Null,
        created_at: 1,
    };
    let (_, events, cursor) = events(Some("12"), vec![event]);
    assert_eq!(cursor, "15");
    assert_eq!(events[0].activity_id, "15");
    assert_eq!(events[0].created_at, "1970-01-01T00:00:00.000000001Z");
}

#[test]
fn phases_are_told_apart() {
    let AdminStep::Continue(phase, _) = start(AdminRequest::GetHold(get())) else {
        panic!("the run is over");
    };
    assert!(matches!(phase, AdminPhase::Authorize(_, _)));
    let AdminStep::Continue(phase, _) = granted(AdminRequest::GetHold(get())) else {
        panic!("the run is over");
    };
    assert!(matches!(phase, AdminPhase::Storage(_)));
}
