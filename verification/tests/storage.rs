use std::collections::BTreeMap;

use legal_hold::administration::{
    AdminAction, AdminEvent, AdminPhase, AdminResponse, AdminStep, StorageRun,
};
use legal_hold::command::{replay, Command, CommandStep, CreateHold, MutateScope, ReleaseHold};
use legal_hold::guard::{GuardDecision, GuardStep, RetentionCheck};
use legal_hold::hold::{ActivityRow, HoldFault, HoldRow, HoldView, ScopeRow, StoredHold};
use legal_hold::query::{
    load_hold, GetHold, GetHoldPhase, GetHoldStep, ListActivity, ListActivityPhase,
    ListActivityStep, ListHolds, ListHoldsStep, PageLimit,
};
use legal_hold::request::StorageOperation;
use legal_hold::statement::{
    DomainFailure, LockedHold, MatchingHold, Receipt, Reply, ResponseFault, Statement,
    StorageError,
};

const NOW: i128 = 1_700_000_000_000_000_000;

#[derive(Clone)]
struct Hold {
    organization_id: String,
    title: String,
    reason: String,
    legal_authority: String,
    status: String,
    revision: i64,
    created_by: String,
    created_at: i128,
    released_by: Option<String>,
    released_at: Option<i128>,
    release_reason: Option<String>,
}

#[derive(Clone)]
struct Event {
    organization_id: String,
    hold_id: String,
    activity_id: i64,
    kind: String,
    actor_subject: String,
    payload: serde_json::Value,
    created_at: i128,
}

type ScopeKey = (String, String, String, Option<String>);
type ReceiptKey = (String, String, String, String);

#[derive(Clone, Default)]
struct Tables {
    holds: BTreeMap<String, Hold>,
    scopes: BTreeMap<ScopeKey, i128>,
    activity: Vec<Event>,
    receipts: BTreeMap<ReceiptKey, (Vec<u8>, usize)>,
    decisions: BTreeMap<String, (String, bool, Option<String>, serde_json::Value)>,
}

/// A database in memory, which can be told to fail at a statement.
#[derive(Default)]
struct Database {
    durable: Tables,
    working: Option<Tables>,
    responses: Vec<HoldView>,
    executed: usize,
    fail_at: Option<usize>,
}

impl Database {
    fn tables(&mut self) -> &mut Tables {
        self.working.as_mut().unwrap_or(&mut self.durable)
    }

    fn execute(&mut self, statement: Statement) -> Reply {
        self.executed += 1;
        if self.fail_at == Some(self.executed) {
            return Reply::Failed;
        }
        match statement {
            Statement::Begin => {
                self.working = Some(self.durable.clone());
                Reply::Done
            }
            Statement::Commit => {
                self.durable = self.working.take().unwrap();
                Reply::Done
            }
            Statement::StoreReceipt {
                caller,
                actor,
                operation,
                idempotency_key,
                request_hash,
                response,
            } => {
                self.responses.push(response);
                let index = self.responses.len() - 1;
                let key = (caller, actor, operation, idempotency_key);
                let replaced = self.tables().receipts.insert(key, (request_hash, index));
                assert!(replaced.is_none());
                Reply::Affected(1)
            }
            Statement::ReadReceipt {
                caller,
                actor,
                operation,
                idempotency_key,
            } => {
                let key = (caller, actor, operation, idempotency_key);
                let found = self.tables().receipts.get(&key).cloned();
                Reply::Receipt(found.map(|(request_hash, index)| Receipt {
                    request_hash,
                    response: Ok(self.responses[index].copy()),
                }))
            }
            statement => self.tables().execute(statement),
        }
    }

    fn roll_back(&mut self) {
        self.working = None;
    }
}

impl Tables {
    fn hold(&self, organization_id: &str, hold_id: &str) -> Option<&Hold> {
        self.holds
            .get(hold_id)
            .filter(|hold| hold.organization_id == organization_id)
    }

    fn execute(&mut self, statement: Statement) -> Reply {
        match statement {
            Statement::InsertHold {
                hold_id,
                organization_id,
                title,
                reason,
                legal_authority,
                created_by,
            } => {
                if self.holds.contains_key(&hold_id) {
                    return Reply::Affected(0);
                }
                self.holds.insert(
                    hold_id,
                    Hold {
                        organization_id,
                        title,
                        reason,
                        legal_authority,
                        status: "active".to_owned(),
                        revision: 1,
                        created_by,
                        created_at: NOW,
                        released_by: None,
                        released_at: None,
                        release_reason: None,
                    },
                );
                Reply::Affected(1)
            }
            Statement::LockHold {
                organization_id,
                hold_id,
            } => Reply::Locked(self.hold(&organization_id, &hold_id).map(|hold| LockedHold {
                status: hold.status.clone(),
                revision: hold.revision,
            })),
            Statement::InsertScope {
                hold_id,
                scope_kind,
                scope_id,
                subject,
                ..
            } => {
                let key = (hold_id, scope_kind, scope_id, subject);
                if self.scopes.contains_key(&key) {
                    return Reply::Affected(0);
                }
                self.scopes.insert(key, NOW);
                Reply::Affected(1)
            }
            Statement::DeleteScope {
                hold_id,
                scope_kind,
                scope_id,
                subject,
            } => {
                let removed = self.scopes.remove(&(hold_id, scope_kind, scope_id, subject));
                Reply::Affected(u64::from(removed.is_some()))
            }
            Statement::AdvanceRevision { hold_id } => {
                self.holds.get_mut(&hold_id).unwrap().revision += 1;
                Reply::Affected(1)
            }
            Statement::MarkReleased {
                hold_id,
                released_by,
                release_reason,
            } => {
                let hold = self.holds.get_mut(&hold_id).unwrap();
                hold.status = "released".to_owned();
                hold.revision += 1;
                hold.released_by = Some(released_by);
                hold.released_at = Some(NOW);
                hold.release_reason = Some(release_reason);
                Reply::Affected(1)
            }
            Statement::AppendActivity {
                organization_id,
                hold_id,
                kind,
                actor_subject,
                payload,
            } => {
                let activity_id = i64::try_from(self.activity.len()).unwrap() + 1;
                self.activity.push(Event {
                    organization_id,
                    hold_id,
                    activity_id,
                    kind,
                    actor_subject,
                    payload,
                    created_at: NOW,
                });
                Reply::Affected(1)
            }
            Statement::ReadHold {
                organization_id,
                hold_id,
            } => Reply::Hold(self.hold(&organization_id, &hold_id).map(|hold| {
                StoredHold::Decoded(HoldRow {
                    organization_id: hold.organization_id.clone(),
                    hold_id: hold_id.clone(),
                    title: hold.title.clone(),
                    reason: hold.reason.clone(),
                    legal_authority: hold.legal_authority.clone(),
                    status: hold.status.clone(),
                    revision: hold.revision,
                    created_by: hold.created_by.clone(),
                    created_at: hold.created_at,
                    released_by: hold.released_by.clone(),
                    released_at: hold.released_at,
                    release_reason: hold.release_reason.clone(),
                })
            })),
            Statement::ReadScopes { hold_id } => Reply::Scopes(
                self.scopes
                    .iter()
                    .filter(|(key, _)| key.0 == hold_id)
                    .map(|(key, created_at)| ScopeRow {
                        scope_kind: key.1.clone(),
                        scope_id: key.2.clone(),
                        subject: key.3.clone(),
                        created_at: *created_at,
                    })
                    .collect(),
                None,
            ),
            Statement::ListHoldIds {
                organization_id,
                status,
                cursor,
                limit,
            } => Reply::HoldIds(
                self.holds
                    .iter()
                    .filter(|(_, hold)| hold.organization_id == organization_id)
                    .filter(|(_, hold)| status.as_ref().is_none_or(|status| *status == hold.status))
                    .filter(|(id, _)| cursor.as_ref().is_none_or(|cursor| *id > cursor))
                    .map(|(id, _)| Some(id.clone()))
                    .take(usize::try_from(limit).unwrap())
                    .collect(),
            ),
            Statement::ListActivity {
                organization_id,
                hold_id,
                after,
                limit,
            } => Reply::Activity(
                self.activity
                    .iter()
                    .filter(|event| {
                        event.organization_id == organization_id
                            && event.hold_id == hold_id
                            && event.activity_id > after
                    })
                    .take(usize::try_from(limit).unwrap())
                    .map(|event| ActivityRow {
                        activity_id: event.activity_id,
                        kind: event.kind.clone(),
                        actor_subject: event.actor_subject.clone(),
                        payload: event.payload.clone(),
                        created_at: event.created_at,
                    })
                    .collect(),
                None,
            ),
            Statement::MatchHolds {
                scope_kind,
                scope_id,
                subject,
            } => Reply::Matches(
                self.scopes
                    .keys()
                    .filter(|key| key.1 == scope_kind && key.2 == scope_id)
                    .filter(|key| key.3.as_ref().is_none_or(|covered| *covered == subject))
                    .filter(|key| self.holds[&key.0].status == "active")
                    .map(|key| MatchingHold {
                        hold_id: key.0.clone(),
                        revision: self.holds[&key.0].revision,
                    })
                    .collect(),
            ),
            Statement::StoreDecision {
                decision_id,
                action_id,
                allowed,
                reason_code,
                matching_holds,
                ..
            } => {
                if self.decisions.contains_key(&decision_id) {
                    return Reply::Affected(0);
                }
                self.decisions
                    .insert(decision_id, (action_id, allowed, reason_code, matching_holds));
                Reply::Affected(1)
            }
            other => panic!("unexpected statement: {other:?}"),
        }
    }
}

fn run(database: &mut Database, command: &Command) -> Result<HoldView, StorageError> {
    let (mut phase, mut statement) = command.start();
    loop {
        let reply = database.execute(statement);
        match command.next(phase, reply) {
            CommandStep::Run(next_phase, next_statement) => {
                phase = next_phase;
                statement = next_statement;
            }
            CommandStep::Finished(outcome) => {
                database.roll_back();
                return outcome;
            }
        }
    }
}

fn read(database: &mut Database, hold_id: &str) -> Result<HoldView, StorageError> {
    let query = GetHold {
        organization_id: "org_1".to_owned(),
        hold_id: hold_id.to_owned(),
    };
    let mut phase = GetHoldPhase::Begin;
    let mut statement = Statement::Begin;
    loop {
        let reply = database.execute(statement);
        match query.next(phase, reply) {
            GetHoldStep::Run(next_phase, next_statement) => {
                phase = next_phase;
                statement = next_statement;
            }
            GetHoldStep::Finished(outcome) => {
                database.roll_back();
                return outcome;
            }
        }
    }
}

fn check_retention(
    database: &mut Database,
    check: &RetentionCheck,
) -> Result<GuardDecision, StorageError> {
    let (mut phase, mut statement) = check.start();
    loop {
        let reply = database.execute(statement);
        match check.next(phase, reply) {
            GuardStep::Run(next_phase, next_statement) => {
                phase = next_phase;
                statement = next_statement;
            }
            GuardStep::Finished(outcome) => return outcome,
        }
    }
}

fn operate(database: &mut Database, operation: StorageOperation) -> AdminResponse {
    let (mut run, mut statement) = StorageRun::start(operation);
    loop {
        match run.next(database.execute(statement)) {
            AdminStep::Continue(AdminPhase::Storage(next_run), AdminAction::Execute(next)) => {
                run = next_run;
                statement = next;
            }
            AdminStep::Finished(outcome) => return outcome.unwrap(),
            other => panic!("unexpected step: {other:?}"),
        }
    }
}

fn create(hold_id: &str, key: &str, request_hash: u8) -> Command {
    Command::Create(CreateHold {
        caller: "legal-api".to_owned(),
        actor: "usr_legal".to_owned(),
        organization_id: "org_1".to_owned(),
        hold_id: hold_id.to_owned(),
        title: "Investigation".to_owned(),
        reason: "Preserve records".to_owned(),
        legal_authority: "court-order-1".to_owned(),
        idempotency_key: key.to_owned(),
        request_hash: vec![request_hash],
    })
}

fn scope(add: bool, subject: Option<&str>, expected_revision: i64, key: &str) -> Command {
    Command::Scope(MutateScope {
        caller: "legal-api".to_owned(),
        actor: "usr_legal".to_owned(),
        operation: if add { "add_scope" } else { "remove_scope" }.to_owned(),
        organization_id: "org_1".to_owned(),
        hold_id: "hold_1".to_owned(),
        scope_kind: "organization".to_owned(),
        scope_id: "org_1".to_owned(),
        subject: subject.map(str::to_owned),
        expected_revision,
        idempotency_key: key.to_owned(),
        request_hash: vec![2],
        add,
    })
}

fn release(expected_revision: i64, key: &str) -> Command {
    Command::Release(ReleaseHold {
        caller: "legal-api".to_owned(),
        actor: "usr_legal".to_owned(),
        organization_id: "org_1".to_owned(),
        hold_id: "hold_1".to_owned(),
        expected_revision,
        reason: "matter closed".to_owned(),
        idempotency_key: key.to_owned(),
        request_hash: vec![3],
    })
}

fn retention(subject: &str, mode: &str) -> RetentionCheck {
    RetentionCheck {
        caller: "privacy-retention".to_owned(),
        action_id: "action-1".to_owned(),
        scope_kind: "organization".to_owned(),
        scope_id: "org_1".to_owned(),
        subject: subject.to_owned(),
        mode: mode.to_owned(),
        reason: "retention elapsed".to_owned(),
    }
}

fn refused(outcome: Result<HoldView, StorageError>) -> DomainFailure {
    match outcome {
        Err(StorageError::Domain(failure)) => failure,
        other => panic!("unexpected outcome: {other:?}"),
    }
}

#[test]
fn hold_scope_blocks_retention_and_survives_restart() {
    let mut postgres = Database::default();
    run(
        &mut postgres,
        &Command::Create(CreateHold {
            caller: "legal-api".to_owned(),
            actor: "usr_legal".to_owned(),
            organization_id: "org_1".to_owned(),
            hold_id: "hold_1".to_owned(),
            title: "Investigation".to_owned(),
            reason: "Preserve records".to_owned(),
            legal_authority: "court-order-1".to_owned(),
            idempotency_key: "create-1".to_owned(),
            request_hash: vec![1],
        }),
    )
    .unwrap();
    run(
        &mut postgres,
        &Command::Scope(MutateScope {
            caller: "legal-api".to_owned(),
            actor: "usr_legal".to_owned(),
            operation: "add_scope".to_owned(),
            organization_id: "org_1".to_owned(),
            hold_id: "hold_1".to_owned(),
            scope_kind: "organization".to_owned(),
            scope_id: "org_1".to_owned(),
            subject: Some("usr_target".to_owned()),
            expected_revision: 1,
            idempotency_key: "scope-1".to_owned(),
            request_hash: vec![2],
            add: true,
        }),
    )
    .unwrap();

    let mut restarted = Database {
        durable: postgres.durable.clone(),
        ..Database::default()
    };
    let decision = check_retention(
        &mut restarted,
        &RetentionCheck {
            caller: "privacy-retention".to_owned(),
            action_id: "action-1".to_owned(),
            scope_kind: "organization".to_owned(),
            scope_id: "org_1".to_owned(),
            subject: "usr_target".to_owned(),
            mode: "delete".to_owned(),
            reason: "retention elapsed".to_owned(),
        },
    )
    .unwrap();
    assert!(!decision.allowed);
    assert_eq!(decision.reason_code.as_deref(), Some("active_legal_hold"));
}

#[test]
fn a_new_hold_is_active_and_empty() {
    let mut database = Database::default();
    let hold = run(&mut database, &create("hold_1", "create-1", 1)).unwrap();
    assert_eq!(hold.status, "active");
    assert_eq!(hold.revision, "1");
    assert_eq!(hold.created_by, "usr_legal");
    assert_eq!(hold.created_at, "2023-11-14T22:13:20Z");
    assert_eq!(hold.released_by, None);
    assert!(hold.scopes.is_empty());
    assert_eq!(read(&mut database, "hold_1").unwrap(), hold);
    assert_eq!(database.durable.activity.len(), 1);
    let event = &database.durable.activity[0];
    assert_eq!(event.kind, "hold_created");
    assert_eq!(event.actor_subject, "usr_legal");
    assert_eq!(
        event.payload.to_string(),
        r#"{"title":"Investigation","legal_authority":"court-order-1"}"#
    );
}

#[test]
fn a_repeated_command_gets_the_first_answer() {
    let mut database = Database::default();
    let first = run(&mut database, &create("hold_1", "create-1", 1)).unwrap();
    run(&mut database, &scope(true, None, 1, "scope-1")).unwrap();
    let again = run(&mut database, &create("hold_1", "create-1", 1)).unwrap();
    assert_eq!(again, first);
    assert_eq!(database.durable.activity.len(), 2);
    assert_eq!(
        refused(run(&mut database, &create("hold_1", "create-1", 9))),
        DomainFailure::IdempotencyConflict
    );
    assert_eq!(
        refused(run(&mut database, &create("hold_1", "create-2", 1))),
        DomainFailure::IdempotencyConflict
    );
    assert_eq!(database.durable.activity.len(), 2);
}

#[test]
fn changes_compare_the_revision() {
    let mut database = Database::default();
    assert_eq!(
        refused(run(&mut database, &scope(true, None, 1, "scope-1"))),
        DomainFailure::NotFound
    );
    run(&mut database, &create("hold_1", "create-1", 1)).unwrap();
    assert_eq!(
        refused(run(&mut database, &scope(true, None, 2, "scope-1"))),
        DomainFailure::RevisionConflict
    );
    let hold = run(&mut database, &scope(true, None, 1, "scope-1")).unwrap();
    assert_eq!(hold.revision, "2");
    assert_eq!(hold.scopes.len(), 1);
    assert_eq!(hold.scopes[0].subject, None);
    assert_eq!(
        refused(run(&mut database, &scope(true, None, 2, "scope-2"))),
        DomainFailure::ScopeConflict
    );
    assert_eq!(
        refused(run(&mut database, &scope(false, Some("usr_1"), 2, "scope-3"))),
        DomainFailure::ScopeConflict
    );
    let hold = run(&mut database, &scope(false, None, 2, "scope-4")).unwrap();
    assert_eq!(hold.revision, "3");
    assert!(hold.scopes.is_empty());
    let kinds: Vec<&str> = database
        .durable
        .activity
        .iter()
        .map(|event| event.kind.as_str())
        .collect();
    assert_eq!(kinds, ["hold_created", "scope_added", "scope_removed"]);
    assert_eq!(
        database.durable.activity[1].payload.to_string(),
        r#"{"scope_kind":"organization","scope_id":"org_1","subject":null}"#
    );
}

#[test]
fn a_released_hold_is_immutable_and_blocks_nothing() {
    let mut database = Database::default();
    run(&mut database, &create("hold_1", "create-1", 1)).unwrap();
    run(&mut database, &scope(true, None, 1, "scope-1")).unwrap();
    assert_eq!(
        refused(run(&mut database, &release(1, "release-1"))),
        DomainFailure::RevisionConflict
    );
    let hold = run(&mut database, &release(2, "release-1")).unwrap();
    assert_eq!(hold.status, "released");
    assert_eq!(hold.revision, "3");
    assert_eq!(hold.released_by.as_deref(), Some("usr_legal"));
    assert_eq!(hold.released_at.as_deref(), Some("2023-11-14T22:13:20Z"));
    assert_eq!(hold.release_reason.as_deref(), Some("matter closed"));
    assert_eq!(hold.scopes.len(), 1);
    assert_eq!(
        database.durable.activity[2].payload.to_string(),
        r#"{"reason":"matter closed"}"#
    );
    assert_eq!(
        refused(run(&mut database, &scope(false, None, 3, "scope-2"))),
        DomainFailure::HoldReleased
    );
    assert_eq!(
        refused(run(&mut database, &release(3, "release-2"))),
        DomainFailure::HoldReleased
    );
    assert_eq!(run(&mut database, &release(2, "release-1")).unwrap(), hold);
    assert_eq!(read(&mut database, "hold_1").unwrap(), hold);
    let decision = check_retention(&mut database, &retention("usr_1", "delete")).unwrap();
    assert!(decision.allowed);
    assert_eq!(decision.reason_code, None);
}

#[test]
fn another_organization_does_not_see_the_hold() {
    let mut database = Database::default();
    let mut other = create("hold_1", "create-1", 1);
    if let Command::Create(command) = &mut other {
        command.organization_id = "org_2".to_owned();
    }
    run(&mut database, &other).unwrap();
    assert_eq!(refused(read(&mut database, "hold_1")), DomainFailure::NotFound);
    assert_eq!(
        refused(run(&mut database, &release(1, "release-1"))),
        DomainFailure::NotFound
    );
}

#[test]
fn a_failed_statement_leaves_nothing_behind() {
    let names = [
        "begin mutate hold scope",
        "read legal hold command",
        "lock legal hold",
        "add legal hold scope",
        "advance legal hold revision",
        "append legal hold activity",
        "read legal hold",
        "read legal hold scopes",
        "store legal hold command",
        "commit mutate hold scope",
    ];
    for (index, name) in names.iter().enumerate() {
        let mut database = Database::default();
        run(&mut database, &create("hold_1", "create-1", 1)).unwrap();
        database.fail_at = Some(database.executed + index + 1);
        let outcome = run(&mut database, &scope(true, None, 1, "scope-1"));
        assert_eq!(
            outcome,
            Err(StorageError::Database {
                operation: (*name).to_owned(),
            })
        );
        assert_eq!(
            outcome.unwrap_err().detail(),
            format!("PostgreSQL operation `{name}` failed")
        );
        database.fail_at = None;
        assert!(database.durable.scopes.is_empty());
        assert_eq!(database.durable.activity.len(), 1);
        assert_eq!(database.durable.holds["hold_1"].revision, 1);
        run(&mut database, &scope(true, None, 1, "scope-1")).unwrap();
    }
}

#[test]
fn every_command_names_its_own_steps() {
    let cases = [
        (create("hold_1", "create-1", 1), 1, "begin create hold"),
        (create("hold_1", "create-1", 1), 3, "insert legal hold"),
        (create("hold_1", "create-1", 1), 8, "commit create hold"),
        (scope(false, None, 1, "scope-1"), 4, "remove legal hold scope"),
        (release(1, "release-1"), 1, "begin release hold"),
        (release(1, "release-1"), 4, "release legal hold"),
        (release(1, "release-1"), 9, "commit release hold"),
    ];
    for (command, index, name) in cases {
        let mut database = Database::default();
        if !matches!(command, Command::Create(_)) {
            run(&mut database, &create("hold_1", "create-0", 1)).unwrap();
        }
        database.fail_at = Some(database.executed + index);
        assert_eq!(
            run(&mut database, &command),
            Err(StorageError::Database {
                operation: name.to_owned(),
            })
        );
    }
    let names = [
        "begin read hold",
        "read legal hold",
        "read legal hold scopes",
        "commit read hold",
    ];
    for (index, name) in names.iter().enumerate() {
        let mut database = Database::default();
        run(&mut database, &create("hold_1", "create-1", 1)).unwrap();
        database.fail_at = Some(database.executed + index + 1);
        assert_eq!(
            read(&mut database, "hold_1"),
            Err(StorageError::Database {
                operation: (*name).to_owned(),
            })
        );
    }
}

#[test]
fn replies_that_are_no_answers_end_a_run() {
    let command = create("hold_1", "create-1", 1);
    let begin = || command.start().0;
    assert_eq!(
        command.next(begin(), Reply::NotPrepared),
        CommandStep::Finished(Err(StorageError::NotPrepared))
    );
    assert_eq!(
        command.next(begin(), Reply::Undecodable("decode title".to_owned())),
        CommandStep::Finished(Err(StorageError::Database {
            operation: "decode title".to_owned(),
        }))
    );
    assert_eq!(
        command.next(begin(), Reply::Affected(1)),
        CommandStep::Finished(Err(StorageError::Database {
            operation: "begin create hold".to_owned(),
        }))
    );
}

#[test]
fn a_receipt_is_compared_before_its_response_is_read() {
    let answers = |response: fn() -> Result<HoldView, ResponseFault>, request_hash: Vec<u8>| {
        replay(
            Receipt {
                request_hash: vec![1, 2],
                response: response(),
            },
            &request_hash,
        )
    };
    let unreadable = || Err(ResponseFault::Unreadable("missing field".to_owned()));
    let undecodable = || Err(ResponseFault::Undecodable);
    assert_eq!(
        answers(unreadable, vec![1, 2]),
        Err(StorageError::Serialization("missing field".to_owned()))
    );
    assert_eq!(
        answers(undecodable, vec![1, 2]),
        Err(StorageError::Database {
            operation: "decode command response".to_owned(),
        })
    );
    for response in [unreadable, undecodable] {
        assert_eq!(
            answers(response, vec![1, 3]),
            Err(StorageError::Domain(DomainFailure::IdempotencyConflict))
        );
    }
}

// A year that RFC 3339 cannot write.
const UNWRITABLE: i128 = -100_000_000_000_000_000_000;

fn undecodable(step: &str) -> StorageError {
    StorageError::Database {
        operation: step.to_owned(),
    }
}

#[test]
fn stored_values_are_reported_in_the_order_in_which_they_are_read() {
    let scope = |created_at: i128| ScopeRow {
        scope_kind: "organization".to_owned(),
        scope_id: "org_1".to_owned(),
        subject: None,
        created_at,
    };
    let fault = |created_at: Option<i128>, released_at: Option<i128>| {
        StoredHold::Undecodable(HoldFault {
            created_at,
            released_at,
            step: "decode releaser".to_owned(),
        })
    };
    let scope_fault = || Some("decode scope kind".to_owned());
    let is_invalid = |outcome: Result<HoldView, StorageError>| {
        matches!(outcome, Err(StorageError::InvalidStored(_)))
    };
    // A scope is presented before the next one is decoded.
    assert!(is_invalid(load_hold(
        fault(None, None),
        vec![scope(NOW), scope(UNWRITABLE)],
        scope_fault()
    )));
    // Scopes come before the row.
    assert_eq!(
        load_hold(fault(Some(UNWRITABLE), None), vec![scope(NOW)], scope_fault()),
        Err(undecodable("decode scope kind"))
    );
    assert!(is_invalid(load_hold(fault(None, None), vec![scope(UNWRITABLE)], None)));
    // In the row, the instants before the fault come first.
    assert!(is_invalid(load_hold(fault(Some(UNWRITABLE), None), vec![], None)));
    assert!(is_invalid(load_hold(fault(Some(NOW), Some(UNWRITABLE)), vec![], None)));
    for (created_at, released_at) in [(None, None), (Some(NOW), None), (Some(NOW), Some(NOW))] {
        assert_eq!(
            load_hold(fault(created_at, released_at), vec![scope(NOW)], None),
            Err(undecodable("decode releaser"))
        );
    }
}

#[test]
fn a_row_that_cannot_be_decoded_is_reported_after_its_scopes_are_read() {
    let query = GetHold {
        organization_id: "org_1".to_owned(),
        hold_id: "hold_1".to_owned(),
    };
    let scopes_read = || {
        let stored = StoredHold::Undecodable(HoldFault {
            created_at: None,
            released_at: None,
            step: "decode title".to_owned(),
        });
        match query.next(GetHoldPhase::Hold, Reply::Hold(Some(stored))) {
            GetHoldStep::Run(phase, Statement::ReadScopes { .. }) => phase,
            other => panic!("unexpected step: {other:?}"),
        }
    };
    assert_eq!(
        query.next(scopes_read(), Reply::Failed),
        GetHoldStep::Finished(Err(undecodable("read legal hold scopes")))
    );
    assert_eq!(
        query.next(scopes_read(), Reply::Scopes(vec![], None)),
        GetHoldStep::Finished(Err(undecodable("decode title")))
    );
}

#[test]
fn an_event_is_presented_before_the_next_one_is_decoded() {
    let query = ListActivity {
        organization_id: "org_1".to_owned(),
        hold_id: "hold_1".to_owned(),
        after: 0,
        limit: PageLimit::new(2).unwrap(),
    };
    let event = |created_at: i128| ActivityRow {
        activity_id: 1,
        kind: "created".to_owned(),
        actor_subject: "usr_admin".to_owned(),
        payload: serde_json::Value::Null,
        created_at,
    };
    let fault = || Some("decode activity kind".to_owned());
    match query.next(
        ListActivityPhase::Events,
        Reply::Activity(vec![event(UNWRITABLE)], fault()),
    ) {
        ListActivityStep::Finished(Err(StorageError::InvalidStored(_))) => {}
        other => panic!("unexpected step: {other:?}"),
    }
    assert_eq!(
        query.next(
            ListActivityPhase::Events,
            Reply::Activity(vec![event(NOW)], fault())
        ),
        ListActivityStep::Finished(Err(undecodable("decode activity kind")))
    );
}

#[test]
fn a_listed_identifier_is_needed_when_its_hold_is_loaded() {
    let mut database = Database::default();
    run(&mut database, &create("hold_1", "create-1", 1)).unwrap();
    let query = ListHolds {
        organization_id: "org_1".to_owned(),
        status: None,
        cursor: None,
        limit: PageLimit::new(2).unwrap(),
    };
    let mut finish = |ids: Vec<Option<String>>| {
        let (phase, _) = query.start();
        let mut step = query.next(phase, Reply::HoldIds(ids));
        let mut statements = 0;
        loop {
            match step {
                ListHoldsStep::Run(phase, statement) => {
                    statements += 1;
                    step = query.next(phase, database.execute(statement));
                }
                ListHoldsStep::Finished(outcome) => return (statements, outcome),
            }
        }
    };
    let hold = || Some("hold_1".to_owned());
    let undecodable = Err(StorageError::Database {
        operation: "decode listed hold".to_owned(),
    });
    assert_eq!(finish(vec![None, hold()]), (0, undecodable));
    let (statements, outcome) = finish(vec![hold(), None]);
    assert_eq!(statements, 4);
    assert_eq!(
        outcome,
        Err(StorageError::Database {
            operation: "decode listed hold".to_owned(),
        })
    );
    let (statements, outcome) = finish(vec![hold(), hold(), None]);
    assert_eq!(statements, 8);
    let page = outcome.unwrap();
    assert_eq!(page.holds.len(), 2);
    assert_eq!(page.next_cursor.as_deref(), Some("hold_1"));
}

#[test]
fn storage_errors_say_what_failed() {
    let details = [
        (
            StorageError::Domain(DomainFailure::ScopeConflict),
            "legal hold domain failure: ScopeConflict",
        ),
        (StorageError::NotPrepared, "Legal Hold Plugin is not prepared"),
        (
            StorageError::InvalidStored("year out of range".to_owned()),
            "stored Legal Hold value is invalid: year out of range",
        ),
        (
            StorageError::Serialization("any".to_owned()),
            "Legal Hold response serialization failed",
        ),
    ];
    for (error, detail) in details {
        assert_eq!(error.detail(), detail);
    }
    for failure in [
        DomainFailure::NotFound,
        DomainFailure::RevisionConflict,
        DomainFailure::IdempotencyConflict,
        DomainFailure::ScopeConflict,
        DomainFailure::HoldReleased,
    ] {
        assert_eq!(failure.name(), format!("{failure:?}"));
    }
}

#[test]
fn an_instant_without_text_is_an_invalid_stored_value() {
    let mut database = Database::default();
    run(&mut database, &create("hold_1", "create-1", 1)).unwrap();
    database.durable.holds.get_mut("hold_1").unwrap().created_at = UNWRITABLE;
    match read(&mut database, "hold_1") {
        Err(StorageError::InvalidStored(_)) => {}
        other => panic!("unexpected outcome: {other:?}"),
    }
}

#[test]
fn a_scope_without_subject_covers_everyone() {
    let mut database = Database::default();
    run(&mut database, &create("hold_1", "create-1", 1)).unwrap();
    let blocked = |database: &mut Database, subject: &str, mode: &str| {
        !check_retention(database, &retention(subject, mode))
            .unwrap()
            .allowed
    };
    assert!(!blocked(&mut database, "usr_1", "delete"));
    run(&mut database, &scope(true, Some("usr_1"), 1, "scope-1")).unwrap();
    assert!(blocked(&mut database, "usr_1", "delete"));
    assert!(blocked(&mut database, "usr_1", "anonymize"));
    assert!(!blocked(&mut database, "usr_2", "delete"));
    run(&mut database, &scope(true, None, 2, "scope-2")).unwrap();
    assert!(blocked(&mut database, "usr_2", "delete"));
    run(&mut database, &scope(false, None, 3, "scope-3")).unwrap();
    assert!(!blocked(&mut database, "usr_2", "delete"));
    assert!(blocked(&mut database, "usr_1", "delete"));
}

#[test]
fn decisions_are_durable_and_deterministic() {
    let mut database = Database::default();
    run(&mut database, &create("hold_1", "create-1", 1)).unwrap();
    run(&mut database, &scope(true, Some("usr_1"), 1, "scope-1")).unwrap();
    let first = check_retention(&mut database, &retention("usr_1", "delete")).unwrap();
    let again = check_retention(&mut database, &retention("usr_1", "delete")).unwrap();
    assert_eq!(first, again);
    assert_eq!(database.durable.decisions.len(), 1);
    let (action_id, allowed, reason_code, matching_holds) =
        &database.durable.decisions[&first.decision_id];
    assert_eq!(action_id, "action-1");
    assert!(!allowed);
    assert_eq!(reason_code.as_deref(), Some("active_legal_hold"));
    assert_eq!(
        matching_holds.to_string(),
        r#"[{"hold_id":"hold_1","revision":"2"}]"#
    );
    run(&mut database, &scope(true, None, 2, "scope-2")).unwrap();
    let later = check_retention(&mut database, &retention("usr_1", "delete")).unwrap();
    assert_ne!(later.decision_id, first.decision_id);
    assert_eq!(
        database.durable.decisions[&later.decision_id].3.to_string(),
        r#"[{"hold_id":"hold_1","revision":"3"},{"hold_id":"hold_1","revision":"3"}]"#
    );
    database.fail_at = Some(database.executed + 1);
    assert_eq!(
        check_retention(&mut database, &retention("usr_1", "delete")),
        Err(StorageError::Database {
            operation: "evaluate legal hold guard".to_owned(),
        })
    );
    database.fail_at = Some(database.executed + 2);
    assert_eq!(
        check_retention(&mut database, &retention("usr_1", "delete")),
        Err(StorageError::Database {
            operation: "store legal hold guard decision".to_owned(),
        })
    );
}

fn list(
    database: &mut Database,
    status: Option<&str>,
    cursor: Option<&str>,
    limit: i64,
) -> (Vec<String>, Option<String>) {
    let query = ListHolds {
        organization_id: "org_1".to_owned(),
        status: status.map(str::to_owned),
        cursor: cursor.map(str::to_owned),
        limit: PageLimit::new(limit).unwrap(),
    };
    match operate(database, StorageOperation::ListHolds(query)) {
        AdminResponse::Holds(page) => (
            page.holds.into_iter().map(|hold| hold.hold_id).collect(),
            page.next_cursor,
        ),
        other => panic!("unexpected response: {other:?}"),
    }
}

#[test]
fn pages_of_holds_follow_on() {
    let mut database = Database::default();
    assert_eq!(list(&mut database, None, None, 2), (vec![], None));
    for n in 1..=5 {
        let id = format!("hold_{n}");
        run(&mut database, &create(&id, &format!("create-{n}"), 1)).unwrap();
    }
    let (first, cursor) = list(&mut database, None, None, 2);
    assert_eq!(first, ["hold_1", "hold_2"]);
    assert_eq!(cursor.as_deref(), Some("hold_2"));
    let (second, cursor) = list(&mut database, None, cursor.as_deref(), 2);
    assert_eq!(second, ["hold_3", "hold_4"]);
    let (last, cursor) = list(&mut database, None, cursor.as_deref(), 2);
    assert_eq!(last, ["hold_5"]);
    assert_eq!(cursor, None);
    let (all, cursor) = list(&mut database, None, None, 5);
    assert_eq!(all.len(), 5);
    assert_eq!(cursor, None);
    run(&mut database, &release(1, "release-1")).unwrap();
    assert_eq!(
        list(&mut database, Some("released"), None, 5).0,
        ["hold_1"]
    );
    assert_eq!(list(&mut database, Some("active"), None, 5).0.len(), 4);
}

#[test]
fn walks_over_pages_show_every_hold_once() {
    let mut database = Database::default();
    for n in 1..=5 {
        let id = format!("hold_{n}");
        run(&mut database, &create(&id, &format!("create-{n}"), 1)).unwrap();
    }
    for limit in 1..=6 {
        let mut shown = Vec::new();
        let mut sizes = Vec::new();
        let mut cursor = None;
        loop {
            let (page, next) = list(&mut database, None, cursor.as_deref(), limit);
            sizes.push(page.len());
            shown.extend(page);
            match next {
                Some(next) => cursor = Some(next),
                None => break,
            }
        }
        assert_eq!(shown, ["hold_1", "hold_2", "hold_3", "hold_4", "hold_5"]);
        let full = usize::try_from(limit).unwrap();
        assert!(sizes[..sizes.len() - 1].iter().all(|size| *size == full));
    }
}

#[test]
fn a_page_is_given_unless_a_statement_fails_or_an_instant_has_no_text() {
    let mut database = Database::default();
    for n in 1..=2 {
        let id = format!("hold_{n}");
        run(&mut database, &create(&id, &format!("create-{n}"), 1)).unwrap();
    }
    let query = ListHolds {
        organization_id: "org_1".to_owned(),
        status: None,
        cursor: None,
        limit: PageLimit::new(2).unwrap(),
    };
    let finish = |database: &mut Database| {
        let (phase, statement) = query.start();
        let mut step = query.next(phase, database.execute(statement));
        loop {
            match step {
                ListHoldsStep::Run(phase, statement) => {
                    step = query.next(phase, database.execute(statement));
                }
                ListHoldsStep::Finished(outcome) => return outcome,
            }
        }
    };
    let steps = [
        "list legal holds",
        "begin read hold",
        "read legal hold",
        "read legal hold scopes",
        "commit read hold",
        "begin read hold",
        "read legal hold",
        "read legal hold scopes",
        "commit read hold",
    ];
    for (at, operation) in steps.into_iter().enumerate() {
        database.fail_at = Some(database.executed + at + 1);
        assert_eq!(
            finish(&mut database),
            Err(StorageError::Database {
                operation: operation.to_owned(),
            })
        );
        database.fail_at = None;
        assert_eq!(finish(&mut database).unwrap().holds.len(), 2);
    }
    database.durable.holds.get_mut("hold_2").unwrap().created_at = UNWRITABLE;
    match finish(&mut database) {
        Err(StorageError::InvalidStored(_)) => {}
        other => panic!("unexpected outcome: {other:?}"),
    }
}

#[test]
fn a_revision_is_the_number_of_events() {
    let mut database = Database::default();
    run(&mut database, &create("hold_1", "create-1", 1)).unwrap();
    run(&mut database, &create("hold_2", "create-2", 1)).unwrap();
    let steps = [
        scope(true, None, 1, "scope-1"),
        scope(true, Some("usr_1"), 2, "scope-2"),
        scope(false, None, 3, "scope-3"),
        release(4, "release-1"),
    ];
    for (done, command) in steps.iter().enumerate() {
        run(&mut database, command).unwrap();
        // A command that is refused or repeated changes neither.
        refused(run(&mut database, &scope(true, None, 1, "scope-late")));
        run(&mut database, command).unwrap();
        let hold = read(&mut database, "hold_1").unwrap();
        assert_eq!(hold.revision, (done + 2).to_string());
        assert_eq!(activity(&mut database, 0, 200).0.len(), done + 2);
    }
    assert_eq!(read(&mut database, "hold_2").unwrap().revision, "1");
}

#[test]
fn removing_a_scope_undoes_adding_it() {
    let mut database = Database::default();
    run(&mut database, &create("hold_1", "create-1", 1)).unwrap();
    let before = run(&mut database, &scope(true, Some("usr_1"), 1, "scope-1")).unwrap();
    run(&mut database, &scope(true, None, 2, "scope-2")).unwrap();
    let after = run(&mut database, &scope(false, None, 3, "scope-3")).unwrap();
    assert_eq!(after.revision, "4");
    assert_eq!(
        after,
        HoldView {
            revision: "4".to_owned(),
            ..before
        }
    );
}

fn activity(database: &mut Database, after: i64, limit: i64) -> (Vec<String>, String) {
    let query = ListActivity {
        organization_id: "org_1".to_owned(),
        hold_id: "hold_1".to_owned(),
        after,
        limit: PageLimit::new(limit).unwrap(),
    };
    match operate(database, StorageOperation::ListActivity(query)) {
        AdminResponse::Activity {
            events,
            next_cursor,
        } => (
            events.into_iter().map(|event| event.activity_id).collect(),
            next_cursor,
        ),
        other => panic!("unexpected response: {other:?}"),
    }
}

#[test]
fn pages_of_activity_follow_on() {
    let mut database = Database::default();
    run(&mut database, &create("hold_1", "create-1", 1)).unwrap();
    run(&mut database, &create("hold_2", "create-2", 1)).unwrap();
    run(&mut database, &scope(true, None, 1, "scope-1")).unwrap();
    run(&mut database, &scope(false, None, 2, "scope-2")).unwrap();
    let (first, cursor) = activity(&mut database, 0, 2);
    assert_eq!(first, ["1", "3"]);
    assert_eq!(cursor, "3");
    let (second, cursor) = activity(&mut database, 3, 2);
    assert_eq!(second, ["4"]);
    assert_eq!(cursor, "4");
    let (none, cursor) = activity(&mut database, 4, 2);
    assert!(none.is_empty());
    assert_eq!(cursor, "4");
}

#[test]
fn page_sizes_are_bounded() {
    assert_eq!(PageLimit::new(0), None);
    assert_eq!(PageLimit::new(-1), None);
    assert_eq!(PageLimit::new(1).unwrap().get(), 1);
    assert_eq!(PageLimit::new(200).unwrap().get(), 200);
    assert_eq!(PageLimit::new(201), None);
}

#[test]
fn activity_is_shown_of_existing_holds_only() {
    let mut database = Database::default();
    let query = ListActivity {
        organization_id: "org_1".to_owned(),
        hold_id: "hold_1".to_owned(),
        after: 0,
        limit: PageLimit::new(1).unwrap(),
    };
    let (run, statement) = StorageRun::start(StorageOperation::ListActivity(query));
    let mut step = run.next(database.execute(statement));
    loop {
        match step {
            AdminStep::Continue(phase, AdminAction::Execute(statement)) => {
                let reply = database.execute(statement);
                step = phase.next(AdminEvent::Storage(reply));
            }
            AdminStep::Finished(outcome) => {
                assert!(format!("{outcome:?}").contains("NotFound"));
                break;
            }
            other => panic!("unexpected step: {other:?}"),
        }
    }
}
