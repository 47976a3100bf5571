//! What runs of commands and reads do to the tables.
//!
//! A run is a sequence of exchanges with the database: each statement that the
//! operation asks for, with the reply and the state that it leaves. The proofs
//! here sum a whole run up in one relation between the tables before and after.
use vstd::prelude::*;
use crate::command::{command_next, CommandModel, CommandPhaseModel, CommandStepModel};
use crate::digest::sha256;
use crate::guard::{
    guard_next, matching_holds_json, GuardDecisionModel, GuardPhaseModel, GuardStepModel,
    RetentionCheckModel,
};
use crate::hold::{
    presented_hold, ActivityRowModel, HoldModel, HoldRowModel, ScopeRowModel, StoredHoldModel,
};
use crate::json::{is_written, json_wire};
use crate::query::{
    get_hold_next, loaded_hold, GetHoldModel, GetHoldPhaseModel, GetHoldStepModel,
};
use crate::statement::{
    DomainFailure, LockedHoldModel, MatchingHoldModel, ReceiptModel, ReplyModel, ResponseFaultModel,
    StatementModel, StorageErrorModel,
};
use crate::tables::{
    advanced, are_read, executes, executes_alone, falls_short, is_failure, is_read, lookup,
    new_hold, released, ActivityEntry, Database, DecisionEntry, ReceiptKey, ScopeEntry,
    ScopeKey, Tables, TextOrder,
};
use crate::text::Text;

verus! {

/// One statement's reply, and the database that it leaves.
#[verifier::ext_equal]
pub struct Exchange {
    pub reply: ReplyModel,
    pub after: Database,
}

/// Whether exchanges are a run of a command from a phase to its end.
pub open spec fn command_runs(
    order: TextOrder,
    command: CommandModel,
    now: int,
    phase: CommandPhaseModel,
    statement: StatementModel,
    before: Database,
    exchanges: Seq<Exchange>,
    outcome: Result<HoldModel, StorageErrorModel>,
    after: Tables,
) -> bool
    decreases exchanges.len(),
{
    &&& exchanges.len() > 0
    &&& executes(order, before, statement, now, exchanges[0].reply, exchanges[0].after)
    &&& match command_next(command, phase, exchanges[0].reply) {
        CommandStepModel::Run(next_phase, next_statement) => command_runs(
            order,
            command,
            now,
            next_phase,
            next_statement,
            exchanges[0].after,
            exchanges.drop_first(),
            outcome,
            after,
        ),
        CommandStepModel::Finished(result) => {
            &&& exchanges.len() == 1
            &&& outcome == result
            &&& after == exchanges[0].after.durable
        },
    }
}

/// Whether a command, run on tables, may have an outcome and leave other tables.
pub open spec fn command_leads(
    order: TextOrder,
    command: CommandModel,
    now: int,
    before: Tables,
    outcome: Result<HoldModel, StorageErrorModel>,
    after: Tables,
) -> bool {
    exists|idle: Tables, exchanges: Seq<Exchange>| #[trigger]
        command_runs(
            order,
            command,
            now,
            CommandPhaseModel::Begin,
            StatementModel::Begin,
            Database { durable: before, working: idle },
            exchanges,
            outcome,
            after,
        )
}

impl CommandModel {
    /// The key under which the receipt of the command is kept.
    pub open spec fn receipt_key(self) -> ReceiptKey {
        ReceiptKey {
            caller: self.caller(),
            actor: self.actor(),
            operation: self.operation(),
            idempotency_key: self.idempotency_key(),
        }
    }

    /// The scope that a scope command is about.
    pub open spec fn scope(self) -> ScopeKey {
        ScopeKey {
            hold_id: self.hold_id(),
            scope_kind: self->Scope_0.scope_kind,
            scope_id: self->Scope_0.scope_id,
            subject: self->Scope_0.subject,
        }
    }

    /// The row that the command leaves for its hold.
    pub open spec fn changed_row(self, before: Tables, now: int) -> HoldRowModel {
        match self {
            CommandModel::Create(command) => new_hold(
                command.organization_id,
                command.hold_id,
                command.title,
                command.reason,
                command.legal_authority,
                command.actor,
                now,
            ),
            CommandModel::Scope(command) => advanced(before.holds[command.hold_id]),
            CommandModel::Release(command) => released(
                before.holds[command.hold_id],
                command.actor,
                command.reason,
                now,
            ),
        }
    }

    /// The scopes that the command leaves.
    pub open spec fn changed_scopes(self, before: Tables, now: int) -> Map<
        ScopeKey,
        ScopeEntry,
    > {
        match self {
            CommandModel::Scope(command) => if command.add {
                before.scopes.insert(
                    self.scope(),
                    ScopeEntry { created_by: command.actor, created_at: now },
                )
            } else {
                before.scopes.remove(self.scope())
            },
            _ => before.scopes,
        }
    }

    /// The activity event that the command records.
    pub open spec fn event(self, activity_id: int, now: int) -> ActivityEntry {
        ActivityEntry {
            organization_id: self.organization_id(),
            hold_id: self.hold_id(),
            row: ActivityRowModel {
                activity_id,
                kind: self.activity_kind(),
                actor_subject: self.actor(),
                payload: self.activity_payload(),
                created_at: now,
            },
        }
    }

    /// What the command finds when it locks its hold.
    pub open spec fn locked(self, before: Tables) -> Option<LockedHoldModel> {
        match before.hold(self.organization_id(), self.hold_id()) {
            Some(row) => Some(LockedHoldModel { status: row.status, revision: row.revision }),
            None => None,
        }
    }

    /// Why tables that hold no receipt of the command refuse it, if they do.
    pub open spec fn refusal(self, before: Tables) -> Option<DomainFailure> {
        match self {
            CommandModel::Create(command) => if before.holds.contains_key(command.hold_id) {
                Some(DomainFailure::IdempotencyConflict)
            } else {
                None
            },
            CommandModel::Scope(command) => match self.objection(self.locked(before)) {
                Some(failure) => Some(failure),
                None => if before.scopes.contains_key(self.scope()) == command.add {
                    Some(DomainFailure::ScopeConflict)
                } else {
                    None
                },
            },
            CommandModel::Release(_) => self.objection(self.locked(before)),
        }
    }

    /// Whether tables are what the command makes of others, and a hold what it
    /// answers: the one change, one event, and a receipt with the answer.
    pub open spec fn takes_effect(
        self,
        order: TextOrder,
        now: int,
        before: Tables,
        hold: HoldModel,
        after: Tables,
    ) -> bool {
        let row = self.changed_row(before, now);
        &&& after.holds == before.holds.insert(self.hold_id(), row)
        &&& after.scopes == self.changed_scopes(before, now)
        &&& after.activity.len() == before.activity.len() + 1
        &&& after.activity == before.activity.push(
            self.event(after.activity.last().row.activity_id, now),
        )
        &&& before.is_next_event(self.hold_id(), after.activity.last().row.activity_id)
        &&& after.receipts == before.receipts.insert(
            self.receipt_key(),
            ReceiptModel { request_hash: self.request_hash(), response: Ok(hold) },
        )
        &&& after.decisions == before.decisions
        &&& exists|rows: Seq<ScopeRowModel>|
            #![trigger after.lists_scopes(order, self.hold_id(), rows)]
            after.lists_scopes(order, self.hold_id(), rows) && presented_hold(row, rows) == Ok::<
                HoldModel,
                Text,
            >(hold)
    }
}

/// What a command may do to tables, and answer. A receipt of the same request
/// answers it; a receipt of another request, or the state of its hold, refuses
/// it; and otherwise it takes effect. A failure of the system leaves the tables
/// as they were, unless the commit itself is in doubt.
pub open spec fn command_settles(
    order: TextOrder,
    command: CommandModel,
    now: int,
    before: Tables,
    outcome: Result<HoldModel, StorageErrorModel>,
    after: Tables,
) -> bool {
    let receipt = lookup(before.receipts, command.receipt_key());
    match outcome {
        Ok(hold) => match receipt {
            Some(receipt) => {
                &&& receipt.request_hash == command.request_hash()
                &&& receipt.response == Ok::<HoldModel, ResponseFaultModel>(hold)
                &&& after == before
            },
            None => {
                &&& command.refusal(before) is None
                &&& command.takes_effect(order, now, before, hold, after)
            },
        },
        Err(StorageErrorModel::Domain(failure)) => {
            &&& after == before
            &&& match receipt {
                Some(receipt) => {
                    &&& receipt.request_hash != command.request_hash()
                    &&& failure == DomainFailure::IdempotencyConflict
                },
                None => command.refusal(before) == Some(failure),
            }
        },
        Err(_) => {
            ||| after == before
            ||| {
                &&& receipt is None
                &&& command.refusal(before) is None
                &&& exists|hold: HoldModel| #[trigger]
                    command.takes_effect(order, now, before, hold, after)
            }
        },
    }
}

/// The working copy once the receipt is stored.
spec fn with_receipt(working: Tables, command: CommandModel, hold: HoldModel) -> Tables {
    Tables {
        receipts: working.receipts.insert(
            command.receipt_key(),
            ReceiptModel { request_hash: command.request_hash(), response: Ok(hold) },
        ),
        ..working
    }
}

/// Whether a working copy may end as tables with an answer about a row.
spec fn completes(
    order: TextOrder,
    command: CommandModel,
    working: Tables,
    row: HoldRowModel,
    hold: HoldModel,
    after: Tables,
) -> bool {
    &&& after == with_receipt(working, command, hold)
    &&& exists|rows: Seq<ScopeRowModel>|
        #![trigger working.lists_scopes(order, command.hold_id(), rows)]
        working.lists_scopes(order, command.hold_id(), rows) && presented_hold(row, rows) == Ok::<
            HoldModel,
            Text,
        >(hold)
}

/// How a run ends from where its change is made and its row is known.
spec fn ends(
    order: TextOrder,
    command: CommandModel,
    before: Database,
    row: HoldRowModel,
    outcome: Result<HoldModel, StorageErrorModel>,
    after: Tables,
) -> bool {
    match outcome {
        Ok(hold) => completes(order, command, before.working, row, hold, after),
        Err(StorageErrorModel::Domain(_)) => false,
        Err(_) => after == before.durable || exists|hold: HoldModel| #[trigger]
            completes(order, command, before.working, row, hold, after),
    }
}

proof fn lemma_from_commit(
    order: TextOrder,
    command: CommandModel,
    now: int,
    hold: HoldModel,
    before: Database,
    exchanges: Seq<Exchange>,
    outcome: Result<HoldModel, StorageErrorModel>,
    after: Tables,
)
    requires
        command_runs(
            order,
            command,
            now,
            CommandPhaseModel::Commit(hold),
            StatementModel::Commit,
            before,
            exchanges,
            outcome,
            after,
        ),
    ensures
        match outcome {
            Ok(answer) => answer == hold && after == before.working,
            Err(StorageErrorModel::Domain(_)) => false,
            Err(_) => after == before.durable || after == before.working,
        },
{
}

proof fn lemma_from_store(
    order: TextOrder,
    command: CommandModel,
    now: int,
    hold: HoldModel,
    before: Database,
    exchanges: Seq<Exchange>,
    outcome: Result<HoldModel, StorageErrorModel>,
    after: Tables,
)
    requires
        command_runs(
            order,
            command,
            now,
            CommandPhaseModel::Store(hold),
            command.store_receipt(hold),
            before,
            exchanges,
            outcome,
            after,
        ),
    ensures
        match outcome {
            Ok(answer) => answer == hold && after == with_receipt(before.working, command, hold),
            Err(StorageErrorModel::Domain(_)) => false,
            Err(_) => after == before.durable || after == with_receipt(
                before.working,
                command,
                hold,
            ),
        },
{
    if !is_failure(exchanges[0].reply) {
        lemma_from_commit(
            order,
            command,
            now,
            hold,
            exchanges[0].after,
            exchanges.drop_first(),
            outcome,
            after,
        );
    }
}

proof fn lemma_from_scopes(
    order: TextOrder,
    command: CommandModel,
    now: int,
    row: HoldRowModel,
    stored: StoredHoldModel,
    before: Database,
    exchanges: Seq<Exchange>,
    outcome: Result<HoldModel, StorageErrorModel>,
    after: Tables,
)
    requires
        is_read(Some(row), Some(stored)),
        command_runs(
            order,
            command,
            now,
            CommandPhaseModel::Scopes(stored),
            StatementModel::ReadScopes { hold_id: command.hold_id() },
            before,
            exchanges,
            outcome,
            after,
        ),
    ensures
        ends(order, command, before, row, outcome, after),
{
    if !is_failure(exchanges[0].reply) {
        let rows = exchanges[0].reply->Scopes_0;
        let fault = exchanges[0].reply->Scopes_1;
        if let Ok(hold) = loaded_hold(stored, rows, fault) {
            assert(before.working.lists_scopes(order, command.hold_id(), rows));
            lemma_from_store(
                order,
                command,
                now,
                hold,
                exchanges[0].after,
                exchanges.drop_first(),
                outcome,
                after,
            );
            if after != before.durable {
                assert(completes(order, command, before.working, row, hold, after));
            }
        }
    }
}

proof fn lemma_from_hold(
    order: TextOrder,
    command: CommandModel,
    now: int,
    row: HoldRowModel,
    before: Database,
    exchanges: Seq<Exchange>,
    outcome: Result<HoldModel, StorageErrorModel>,
    after: Tables,
)
    requires
        before.working.hold(command.organization_id(), command.hold_id()) == Some(row),
        command_runs(
            order,
            command,
            now,
            CommandPhaseModel::Hold,
            StatementModel::ReadHold {
                organization_id: command.organization_id(),
                hold_id: command.hold_id(),
            },
            before,
            exchanges,
            outcome,
            after,
        ),
    ensures
        ends(order, command, before, row, outcome, after),
{
    if !is_failure(exchanges[0].reply) {
        lemma_from_scopes(
            order,
            command,
            now,
            row,
            exchanges[0].reply->Hold_0->0,
            exchanges[0].after,
            exchanges.drop_first(),
            outcome,
            after,
        );
    }
}

/// Whether a working copy is another with the event of the command appended.
spec fn records(command: CommandModel, now: int, before: Tables, after: Tables) -> bool {
    &&& after.activity.len() == before.activity.len() + 1
    &&& before.appends(command.event(after.activity.last().row.activity_id, now), after)
}

/// How a run ends from where its change is made.
spec fn concludes(
    order: TextOrder,
    command: CommandModel,
    now: int,
    before: Database,
    row: HoldRowModel,
    outcome: Result<HoldModel, StorageErrorModel>,
    after: Tables,
) -> bool {
    ||| after == before.durable && outcome is Err && !(outcome->Err_0 is Domain)
    ||| exists|recorded: Database| #[trigger]
        ends(order, command, recorded, row, outcome, after) && recorded.durable == before.durable
            && records(command, now, before.working, recorded.working)
}

proof fn lemma_from_activity(
    order: TextOrder,
    command: CommandModel,
    now: int,
    row: HoldRowModel,
    before: Database,
    exchanges: Seq<Exchange>,
    outcome: Result<HoldModel, StorageErrorModel>,
    after: Tables,
)
    requires
        before.working.hold(command.organization_id(), command.hold_id()) == Some(row),
        command_runs(
            order,
            command,
            now,
            CommandPhaseModel::Activity,
            command.append_activity(),
            before,
            exchanges,
            outcome,
            after,
        ),
    ensures
        concludes(order, command, now, before, row, outcome, after),
{
    if !is_failure(exchanges[0].reply) {
        lemma_from_hold(
            order,
            command,
            now,
            row,
            exchanges[0].after,
            exchanges.drop_first(),
            outcome,
            after,
        );
    }
}

proof fn lemma_from_advance(
    order: TextOrder,
    command: CommandModel,
    now: int,
    row: HoldRowModel,
    before: Database,
    exchanges: Seq<Exchange>,
    outcome: Result<HoldModel, StorageErrorModel>,
    after: Tables,
)
    requires
        before.working.hold(command.organization_id(), command.hold_id()) == Some(row),
        command_runs(
            order,
            command,
            now,
            CommandPhaseModel::Advance,
            StatementModel::AdvanceRevision { hold_id: command.hold_id() },
            before,
            exchanges,
            outcome,
            after,
        ),
    ensures
        concludes(
            order,
            command,
            now,
            Database {
                durable: before.durable,
                working: before.working.with_hold(command.hold_id(), advanced(row)),
            },
            advanced(row),
            outcome,
            after,
        ),
{
    if !is_failure(exchanges[0].reply) {
        lemma_from_activity(
            order,
            command,
            now,
            advanced(row),
            exchanges[0].after,
            exchanges.drop_first(),
            outcome,
            after,
        );
    }
}

/// A run that makes its change settles the command.
proof fn lemma_concluded_takes_effect(
    order: TextOrder,
    command: CommandModel,
    now: int,
    before: Tables,
    changed: Database,
    outcome: Result<HoldModel, StorageErrorModel>,
    after: Tables,
)
    requires
        lookup(before.receipts, command.receipt_key()) is None,
        command.refusal(before) is None,
        changed.durable == before,
        changed.working == (Tables {
            holds: before.holds.insert(command.hold_id(), command.changed_row(before, now)),
            scopes: command.changed_scopes(before, now),
            ..before
        }),
        concludes(
            order,
            command,
            now,
            changed,
            command.changed_row(before, now),
            outcome,
            after,
        ),
    ensures
        command_settles(order, command, now, before, outcome, after),
{
    let row = command.changed_row(before, now);
    if !(after == before && outcome is Err && !(outcome->Err_0 is Domain)) {
        let recorded = choose|recorded: Database| #[trigger]
            ends(order, command, recorded, row, outcome, after) && recorded.durable
                == changed.durable && records(command, now, changed.working, recorded.working);
        if outcome is Ok || after != before {
            let hold = if outcome is Ok {
                outcome->Ok_0
            } else {
                choose|hold: HoldModel| #[trigger]
                    completes(order, command, recorded.working, row, hold, after)
            };
            assert(completes(order, command, recorded.working, row, hold, after));
            let rows = choose|rows: Seq<ScopeRowModel>|
                #![trigger recorded.working.lists_scopes(order, command.hold_id(), rows)]
                recorded.working.lists_scopes(order, command.hold_id(), rows) && presented_hold(
                    row,
                    rows,
                ) == Ok::<HoldModel, Text>(hold);
            assert(after.lists_scopes(order, command.hold_id(), rows));
            assert(command.takes_effect(order, now, before, hold, after));
        }
    }
}

proof fn lemma_from_change(
    order: TextOrder,
    command: CommandModel,
    now: int,
    before: Database,
    exchanges: Seq<Exchange>,
    outcome: Result<HoldModel, StorageErrorModel>,
    after: Tables,
)
    requires
        before.working == before.durable,
        lookup(before.durable.receipts, command.receipt_key()) is None,
        !(command is Create) ==> command.objection(command.locked(before.durable)) is None,
        command_runs(
            order,
            command,
            now,
            CommandPhaseModel::Change,
            command.change(),
            before,
            exchanges,
            outcome,
            after,
        ),
    ensures
        command_settles(order, command, now, before.durable, outcome, after),
{
    if !is_failure(exchanges[0].reply) && command.refusal(before.durable) is None {
        let next = exchanges[0].after;
        let rest = exchanges.drop_first();
        let row = command.changed_row(before.durable, now);
        if command is Scope {
            lemma_from_advance(
                order,
                command,
                now,
                before.durable.holds[command.hold_id()],
                next,
                rest,
                outcome,
                after,
            );
            let changed = Database {
                durable: before.durable,
                working: next.working.with_hold(command.hold_id(), row),
            };
            lemma_concluded_takes_effect(
                order,
                command,
                now,
                before.durable,
                changed,
                outcome,
                after,
            );
        } else {
            lemma_from_activity(order, command, now, row, next, rest, outcome, after);
            lemma_concluded_takes_effect(
                order,
                command,
                now,
                before.durable,
                next,
                outcome,
                after,
            );
        }
    }
}

proof fn lemma_from_lock(
    order: TextOrder,
    command: CommandModel,
    now: int,
    before: Database,
    exchanges: Seq<Exchange>,
    outcome: Result<HoldModel, StorageErrorModel>,
    after: Tables,
)
    requires
        before.working == before.durable,
        !(command is Create),
        lookup(before.durable.receipts, command.receipt_key()) is None,
        command_runs(
            order,
            command,
            now,
            CommandPhaseModel::Lock,
            StatementModel::LockHold {
                organization_id: command.organization_id(),
                hold_id: command.hold_id(),
            },
            before,
            exchanges,
            outcome,
            after,
        ),
    ensures
        command_settles(order, command, now, before.durable, outcome, after),
{
    if !is_failure(exchanges[0].reply) && command.objection(
        command.locked(before.durable),
    ) is None {
        lemma_from_change(
            order,
            command,
            now,
            exchanges[0].after,
            exchanges.drop_first(),
            outcome,
            after,
        );
    }
}

proof fn lemma_from_receipt(
    order: TextOrder,
    command: CommandModel,
    now: int,
    before: Database,
    exchanges: Seq<Exchange>,
    outcome: Result<HoldModel, StorageErrorModel>,
    after: Tables,
)
    requires
        before.working == before.durable,
        command_runs(
            order,
            command,
            now,
            CommandPhaseModel::Receipt,
            command.read_receipt(),
            before,
            exchanges,
            outcome,
            after,
        ),
    ensures
        command_settles(order, command, now, before.durable, outcome, after),
{
    if !is_failure(exchanges[0].reply) && lookup(
        before.durable.receipts,
        command.receipt_key(),
    ) is None {
        if command is Create {
            lemma_from_change(
                order,
                command,
                now,
                exchanges[0].after,
                exchanges.drop_first(),
                outcome,
                after,
            );
        } else {
            lemma_from_lock(
                order,
                command,
                now,
                exchanges[0].after,
                exchanges.drop_first(),
                outcome,
                after,
            );
        }
    }
}

/// Every run of a command settles it.
pub proof fn commands_settle(
    order: TextOrder,
    command: CommandModel,
    now: int,
    before: Tables,
    outcome: Result<HoldModel, StorageErrorModel>,
    after: Tables,
)
    requires
        command_leads(order, command, now, before, outcome, after),
    ensures
        command_settles(order, command, now, before, outcome, after),
{
    let (idle, exchanges) = choose|idle: Tables, exchanges: Seq<Exchange>| #[trigger]
        command_runs(
            order,
            command,
            now,
            CommandPhaseModel::Begin,
            StatementModel::Begin,
            Database { durable: before, working: idle },
            exchanges,
            outcome,
            after,
        );
    if !is_failure(exchanges[0].reply) {
        lemma_from_receipt(
            order,
            command,
            now,
            exchanges[0].after,
            exchanges.drop_first(),
            outcome,
            after,
        );
    }
}

/// The statement whose reply a command waits for.
pub open spec fn awaited_statement(
    command: CommandModel,
    phase: CommandPhaseModel,
) -> StatementModel {
    match phase {
        CommandPhaseModel::Begin => StatementModel::Begin,
        CommandPhaseModel::Receipt => command.read_receipt(),
        CommandPhaseModel::Lock => StatementModel::LockHold {
            organization_id: command.organization_id(),
            hold_id: command.hold_id(),
        },
        CommandPhaseModel::Change => command.change(),
        CommandPhaseModel::Advance => StatementModel::AdvanceRevision {
            hold_id: command.hold_id(),
        },
        CommandPhaseModel::Activity => command.append_activity(),
        CommandPhaseModel::Hold => StatementModel::ReadHold {
            organization_id: command.organization_id(),
            hold_id: command.hold_id(),
        },
        CommandPhaseModel::Scopes(_) => StatementModel::ReadScopes { hold_id: command.hold_id() },
        CommandPhaseModel::Store(hold) => command.store_receipt(hold),
        CommandPhaseModel::Commit(_) => StatementModel::Commit,
    }
}

/// Where no statement falls short, a command ends with an answer, with a refusal, or
/// because a stored response cannot be read or a stored value not be presented.
pub proof fn commands_fail_only_with_storage(
    order: TextOrder,
    command: CommandModel,
    now: int,
    phase: CommandPhaseModel,
    before: Database,
    exchanges: Seq<Exchange>,
    outcome: Result<HoldModel, StorageErrorModel>,
    after: Tables,
)
    requires
        command_runs(
            order,
            command,
            now,
            phase,
            awaited_statement(command, phase),
            before,
            exchanges,
            outcome,
            after,
        ),
        phase matches CommandPhaseModel::Scopes(stored) ==> stored is Decoded,
        forall|i: int| 0 <= i < exchanges.len() ==> !falls_short((#[trigger] exchanges[i]).reply),
    ensures
        outcome matches Err(error) ==> error is Domain || error is InvalidStored
            || error is Serialization || error == (StorageErrorModel::Database {
            operation: "decode command response"@,
        }),
    decreases exchanges.len(),
{
    let reply = exchanges[0].reply;
    assert(!falls_short(reply));
    if let CommandStepModel::Run(next_phase, next_statement) = command_next(command, phase, reply) {
        assert(next_statement == awaited_statement(command, next_phase));
        let rest = exchanges.drop_first();
        assert forall|i: int| 0 <= i < rest.len() implies !falls_short(
            (#[trigger] rest[i]).reply,
        ) by {
            assert(rest[i] == exchanges[i + 1]);
        }
        commands_fail_only_with_storage(
            order,
            command,
            now,
            next_phase,
            exchanges[0].after,
            rest,
            outcome,
            after,
        );
    }
}

proof fn lemma_one_exchange_earlier(
    order: TextOrder,
    command: CommandModel,
    now: int,
    phase: CommandPhaseModel,
    before: Database,
    reply: ReplyModel,
    next_phase: CommandPhaseModel,
    next: Database,
    rest: Seq<Exchange>,
    hold: HoldModel,
    after: Tables,
) -> (exchanges: Seq<Exchange>)
    requires
        executes(order, before, awaited_statement(command, phase), now, reply, next),
        command_next(command, phase, reply) == CommandStepModel::Run(
            next_phase,
            awaited_statement(command, next_phase),
        ),
        command_runs(
            order,
            command,
            now,
            next_phase,
            awaited_statement(command, next_phase),
            next,
            rest,
            Ok(hold),
            after,
        ),
    ensures
        command_runs(
            order,
            command,
            now,
            phase,
            awaited_statement(command, phase),
            before,
            exchanges,
            Ok(hold),
            after,
        ),
{
    let exchanges = seq![Exchange { reply, after: next }] + rest;
    assert(exchanges.drop_first() == rest);
    exchanges
}

/// Whether tables are what the change and the event of a command make of others.
pub open spec fn is_changed(
    command: CommandModel,
    now: int,
    before: Tables,
    activity_id: int,
    changed: Tables,
) -> bool {
    &&& changed == Tables {
        holds: before.holds.insert(command.hold_id(), command.changed_row(before, now)),
        scopes: command.changed_scopes(before, now),
        activity: before.activity.push(command.event(activity_id, now)),
        ..before
    }
    &&& before.is_next_event(command.hold_id(), activity_id)
}

proof fn lemma_ends_well(
    order: TextOrder,
    command: CommandModel,
    now: int,
    before: Tables,
    activity_id: int,
    changed: Tables,
    rows: Seq<ScopeRowModel>,
    hold: HoldModel,
) -> (exchanges: Seq<Exchange>)
    requires
        lookup(before.receipts, command.receipt_key()) is None,
        is_changed(command, now, before, activity_id, changed),
        changed.hold(command.organization_id(), command.hold_id()) == Some(
            command.changed_row(before, now),
        ),
        changed.lists_scopes(order, command.hold_id(), rows),
        presented_hold(command.changed_row(before, now), rows) == Ok::<HoldModel, Text>(hold),
    ensures
        command_runs(
            order,
            command,
            now,
            CommandPhaseModel::Activity,
            command.append_activity(),
            Database {
                durable: before,
                working: Tables { activity: before.activity, ..changed },
            },
            exchanges,
            Ok(hold),
            with_receipt(changed, command, hold),
        ),
{
    let row = command.changed_row(before, now);
    let after = with_receipt(changed, command, hold);
    let unrecorded = Database {
        durable: before,
        working: Tables { activity: before.activity, ..changed },
    };
    let recorded = Database { durable: before, working: changed };
    let receipted = Database { durable: before, working: after };
    let committed = Database { durable: after, working: after };
    let last = seq![Exchange { reply: ReplyModel::Done, after: committed }];
    assert(command_runs(
        order,
        command,
        now,
        CommandPhaseModel::Commit(hold),
        StatementModel::Commit,
        receipted,
        last,
        Ok(hold),
        after,
    ));
    let from_store = lemma_one_exchange_earlier(
        order,
        command,
        now,
        CommandPhaseModel::Store(hold),
        recorded,
        ReplyModel::Affected(1),
        CommandPhaseModel::Commit(hold),
        receipted,
        last,
        hold,
        after,
    );
    assert(changed.lists_scopes(order, command.hold_id(), rows) && are_read(rows, rows, None));
    assert(changed.reads_scopes(order, command.hold_id(), rows, None));
    let from_scopes = lemma_one_exchange_earlier(
        order,
        command,
        now,
        CommandPhaseModel::Scopes(StoredHoldModel::Decoded(row)),
        recorded,
        ReplyModel::Scopes(rows, None),
        CommandPhaseModel::Store(hold),
        recorded,
        from_store,
        hold,
        after,
    );
    let from_hold = lemma_one_exchange_earlier(
        order,
        command,
        now,
        CommandPhaseModel::Hold,
        recorded,
        ReplyModel::Hold(Some(StoredHoldModel::Decoded(row))),
        CommandPhaseModel::Scopes(StoredHoldModel::Decoded(row)),
        recorded,
        from_scopes,
        hold,
        after,
    );
    assert(changed.activity.last().row.activity_id == activity_id);
    lemma_one_exchange_earlier(
        order,
        command,
        now,
        CommandPhaseModel::Activity,
        unrecorded,
        ReplyModel::Affected(1),
        CommandPhaseModel::Hold,
        recorded,
        from_hold,
        hold,
        after,
    )
}

/// A command that no receipt and no state of its hold refuses can succeed: there
/// is a run in which it takes effect and answers with the hold that it leaves.
pub proof fn unrefused_commands_can_succeed(
    order: TextOrder,
    command: CommandModel,
    now: int,
    before: Tables,
    activity_id: int,
    changed: Tables,
    rows: Seq<ScopeRowModel>,
    hold: HoldModel,
)
    requires
        lookup(before.receipts, command.receipt_key()) is None,
        command.refusal(before) is None,
        is_changed(command, now, before, activity_id, changed),
        changed.lists_scopes(order, command.hold_id(), rows),
        presented_hold(command.changed_row(before, now), rows) == Ok::<HoldModel, Text>(hold),
    ensures
        exists|after: Tables| #[trigger]
            command_leads(order, command, now, before, Ok(hold), after),
{
    let after = with_receipt(changed, command, hold);
    let opened = Database { durable: before, working: before };
    let from_activity = lemma_ends_well(
        order,
        command,
        now,
        before,
        activity_id,
        changed,
        rows,
        hold,
    );
    let unrecorded = Database {
        durable: before,
        working: Tables { activity: before.activity, ..changed },
    };
    let from_change = if command is Scope {
        let rescoped = Database {
            durable: before,
            working: Tables { scopes: command.changed_scopes(before, now), ..before },
        };
        assert(unrecorded.working == rescoped.working.with_hold(
            command.hold_id(),
            command.changed_row(before, now),
        ));
        let from_advance = lemma_one_exchange_earlier(
            order,
            command,
            now,
            CommandPhaseModel::Advance,
            rescoped,
            ReplyModel::Affected(1),
            CommandPhaseModel::Activity,
            unrecorded,
            from_activity,
            hold,
            after,
        );
        lemma_one_exchange_earlier(
            order,
            command,
            now,
            CommandPhaseModel::Change,
            opened,
            ReplyModel::Affected(1),
            CommandPhaseModel::Advance,
            rescoped,
            from_advance,
            hold,
            after,
        )
    } else {
        assert(unrecorded.working == before.with_hold(
            command.hold_id(),
            command.changed_row(before, now),
        ));
        lemma_one_exchange_earlier(
            order,
            command,
            now,
            CommandPhaseModel::Change,
            opened,
            ReplyModel::Affected(1),
            CommandPhaseModel::Activity,
            unrecorded,
            from_activity,
            hold,
            after,
        )
    };
    let (after_receipt, from_there) = if command is Create {
        (CommandPhaseModel::Change, from_change)
    } else {
        (
            CommandPhaseModel::Lock,
            lemma_one_exchange_earlier(
                order,
                command,
                now,
                CommandPhaseModel::Lock,
                opened,
                ReplyModel::Locked(command.locked(before)),
                CommandPhaseModel::Change,
                opened,
                from_change,
                hold,
                after,
            ),
        )
    };
    let from_receipt = lemma_one_exchange_earlier(
        order,
        command,
        now,
        CommandPhaseModel::Receipt,
        opened,
        ReplyModel::Receipt(None),
        after_receipt,
        opened,
        from_there,
        hold,
        after,
    );
    let exchanges = lemma_one_exchange_earlier(
        order,
        command,
        now,
        CommandPhaseModel::Begin,
        opened,
        ReplyModel::Done,
        CommandPhaseModel::Receipt,
        opened,
        from_receipt,
        hold,
        after,
    );
    assert(command_leads(order, command, now, before, Ok(hold), after));
}

/// Whether exchanges are a read of a hold from a phase to its end.
pub open spec fn get_hold_runs(
    order: TextOrder,
    query: GetHoldModel,
    now: int,
    phase: GetHoldPhaseModel,
    statement: StatementModel,
    before: Database,
    exchanges: Seq<Exchange>,
    outcome: Result<HoldModel, StorageErrorModel>,
    after: Tables,
) -> bool
    decreases exchanges.len(),
{
    &&& exchanges.len() > 0
    &&& executes(order, before, statement, now, exchanges[0].reply, exchanges[0].after)
    &&& match get_hold_next(query, phase, exchanges[0].reply) {
        GetHoldStepModel::Run(next_phase, next_statement) => get_hold_runs(
            order,
            query,
            now,
            next_phase,
            next_statement,
            exchanges[0].after,
            exchanges.drop_first(),
            outcome,
            after,
        ),
        GetHoldStepModel::Finished(result) => {
            &&& exchanges.len() == 1
            &&& outcome == result
            &&& after == exchanges[0].after.durable
        },
    }
}

/// Whether a read of a hold may have an outcome and leave tables.
pub open spec fn get_hold_leads(
    order: TextOrder,
    query: GetHoldModel,
    now: int,
    before: Tables,
    outcome: Result<HoldModel, StorageErrorModel>,
    after: Tables,
) -> bool {
    exists|idle: Tables, exchanges: Seq<Exchange>| #[trigger]
        get_hold_runs(
            order,
            query,
            now,
            GetHoldPhaseModel::Begin,
            StatementModel::Begin,
            Database { durable: before, working: idle },
            exchanges,
            outcome,
            after,
        )
}

/// Whether a hold is what the tables hold under an identifier.
pub open spec fn is_stored(
    order: TextOrder,
    tables: Tables,
    organization_id: Text,
    hold_id: Text,
    hold: HoldModel,
) -> bool {
    &&& tables.hold(organization_id, hold_id) is Some
    &&& exists|rows: Seq<ScopeRowModel>|
        #![trigger tables.lists_scopes(order, hold_id, rows)]
        tables.lists_scopes(order, hold_id, rows) && presented_hold(
            tables.holds[hold_id],
            rows,
        ) == Ok::<HoldModel, Text>(hold)
}

proof fn lemma_read_commits(
    order: TextOrder,
    query: GetHoldModel,
    now: int,
    hold: HoldModel,
    before: Database,
    exchanges: Seq<Exchange>,
    outcome: Result<HoldModel, StorageErrorModel>,
    after: Tables,
)
    requires
        before.working == before.durable,
        get_hold_runs(
            order,
            query,
            now,
            GetHoldPhaseModel::Commit(hold),
            StatementModel::Commit,
            before,
            exchanges,
            outcome,
            after,
        ),
    ensures
        after == before.durable,
        match outcome {
            Ok(answer) => answer == hold,
            Err(error) => !(error is Domain),
        },
{
}

proof fn lemma_read_scopes(
    order: TextOrder,
    query: GetHoldModel,
    now: int,
    stored: StoredHoldModel,
    before: Database,
    exchanges: Seq<Exchange>,
    outcome: Result<HoldModel, StorageErrorModel>,
    after: Tables,
)
    requires
        before.working == before.durable,
        is_read(before.durable.hold(query.organization_id, query.hold_id), Some(stored)),
        get_hold_runs(
            order,
            query,
            now,
            GetHoldPhaseModel::Scopes(stored),
            StatementModel::ReadScopes { hold_id: query.hold_id },
            before,
            exchanges,
            outcome,
            after,
        ),
    ensures
        after == before.durable,
        match outcome {
            Ok(hold) => is_stored(
                order,
                before.durable,
                query.organization_id,
                query.hold_id,
                hold,
            ),
            Err(error) => !(error is Domain),
        },
{
    if !is_failure(exchanges[0].reply) {
        let rows = exchanges[0].reply->Scopes_0;
        let fault = exchanges[0].reply->Scopes_1;
        if let Ok(hold) = loaded_hold(stored, rows, fault) {
            assert(before.durable.lists_scopes(order, query.hold_id, rows));
            lemma_read_commits(
                order,
                query,
                now,
                hold,
                exchanges[0].after,
                exchanges.drop_first(),
                outcome,
                after,
            );
        }
    }
}

proof fn lemma_read_row(
    order: TextOrder,
    query: GetHoldModel,
    now: int,
    before: Database,
    exchanges: Seq<Exchange>,
    outcome: Result<HoldModel, StorageErrorModel>,
    after: Tables,
)
    requires
        before.working == before.durable,
        get_hold_runs(
            order,
            query,
            now,
            GetHoldPhaseModel::Hold,
            StatementModel::ReadHold {
                organization_id: query.organization_id,
                hold_id: query.hold_id,
            },
            before,
            exchanges,
            outcome,
            after,
        ),
    ensures
        after == before.durable,
        match outcome {
            Ok(hold) => is_stored(
                order,
                before.durable,
                query.organization_id,
                query.hold_id,
                hold,
            ),
            Err(StorageErrorModel::Domain(failure)) => failure == DomainFailure::NotFound
                && before.durable.hold(query.organization_id, query.hold_id) is None,
            Err(_) => true,
        },
{
    if !is_failure(exchanges[0].reply) {
        if let Some(stored) = exchanges[0].reply->Hold_0 {
            lemma_read_scopes(
                order,
                query,
                now,
                stored,
                exchanges[0].after,
                exchanges.drop_first(),
                outcome,
                after,
            );
        }
    }
}

/// A read of a hold changes nothing. It answers with what is stored, or that
/// nothing is, and neither of the two where it fails.
pub proof fn reads_answer_what_is_stored(
    order: TextOrder,
    query: GetHoldModel,
    now: int,
    before: Tables,
    outcome: Result<HoldModel, StorageErrorModel>,
    after: Tables,
)
    requires
        get_hold_leads(order, query, now, before, outcome, after),
    ensures
        after == before,
        match outcome {
            Ok(hold) => is_stored(order, before, query.organization_id, query.hold_id, hold),
            Err(StorageErrorModel::Domain(failure)) => failure == DomainFailure::NotFound
                && before.hold(query.organization_id, query.hold_id) is None,
            Err(_) => true,
        },
{
    let (idle, exchanges) = choose|idle: Tables, exchanges: Seq<Exchange>| #[trigger]
        get_hold_runs(
            order,
            query,
            now,
            GetHoldPhaseModel::Begin,
            StatementModel::Begin,
            Database { durable: before, working: idle },
            exchanges,
            outcome,
            after,
        );
    if !is_failure(exchanges[0].reply) {
        lemma_read_row(
            order,
            query,
            now,
            exchanges[0].after,
            exchanges.drop_first(),
            outcome,
            after,
        );
    }
}

/// The statement whose reply the read of a hold waits for.
pub open spec fn awaited_by_read(query: GetHoldModel, phase: GetHoldPhaseModel) -> StatementModel {
    match phase {
        GetHoldPhaseModel::Begin => StatementModel::Begin,
        GetHoldPhaseModel::Hold => StatementModel::ReadHold {
            organization_id: query.organization_id,
            hold_id: query.hold_id,
        },
        GetHoldPhaseModel::Scopes(_) => StatementModel::ReadScopes { hold_id: query.hold_id },
        GetHoldPhaseModel::Commit(_) => StatementModel::Commit,
    }
}

/// Where no statement falls short, a read ends with a hold, with the answer that there
/// is none, or because a stored value cannot be presented.
pub proof fn reads_fail_only_with_storage(
    order: TextOrder,
    query: GetHoldModel,
    now: int,
    phase: GetHoldPhaseModel,
    before: Database,
    exchanges: Seq<Exchange>,
    outcome: Result<HoldModel, StorageErrorModel>,
    after: Tables,
)
    requires
        get_hold_runs(
            order,
            query,
            now,
            phase,
            awaited_by_read(query, phase),
            before,
            exchanges,
            outcome,
            after,
        ),
        phase matches GetHoldPhaseModel::Scopes(stored) ==> stored is Decoded,
        forall|i: int| 0 <= i < exchanges.len() ==> !falls_short((#[trigger] exchanges[i]).reply),
    ensures
        outcome matches Err(error) ==> error is Domain || error is InvalidStored,
    decreases exchanges.len(),
{
    let reply = exchanges[0].reply;
    assert(!falls_short(reply));
    if let GetHoldStepModel::Run(next_phase, next_statement) = get_hold_next(query, phase, reply) {
        assert(next_statement == awaited_by_read(query, next_phase));
        let rest = exchanges.drop_first();
        assert forall|i: int| 0 <= i < rest.len() implies !falls_short(
            (#[trigger] rest[i]).reply,
        ) by {
            assert(rest[i] == exchanges[i + 1]);
        }
        reads_fail_only_with_storage(
            order,
            query,
            now,
            next_phase,
            exchanges[0].after,
            rest,
            outcome,
            after,
        );
    }
}

/// Whether two replies are those of an evaluation of the guard with an outcome:
/// it looks for holds in the tables that it sees, and stores its decision in the
/// tables that it finds then, which may have changed in between. The wire form of
/// its evidence is read as the evidence, as `RetentionCheck::next` has it.
pub open spec fn guard_exchanges(
    order: TextOrder,
    check: RetentionCheckModel,
    now: int,
    seen: Tables,
    found: Tables,
    matched: ReplyModel,
    stored: ReplyModel,
    outcome: Result<GuardDecisionModel, StorageErrorModel>,
    after: Tables,
) -> bool {
    &&& executes_alone(order, seen, check.match_holds(), now, matched, seen)
    &&& matched matches ReplyModel::Matches(rows) ==> (json_wire(check.evidence(rows)) matches Ok(
        wire,
    ) ==> is_written(check.evidence(rows), wire))
    &&& match guard_next(check, GuardPhaseModel::Match, matched) {
        GuardStepModel::Finished(result) => outcome == result && after == found,
        GuardStepModel::Run(phase, statement) => {
            &&& executes_alone(order, found, statement, now, stored, after)
            &&& guard_next(check, phase, stored) == GuardStepModel::Finished(outcome)
        },
    }
}

/// Whether an evaluation of the guard may have an outcome.
pub open spec fn guard_leads(
    order: TextOrder,
    check: RetentionCheckModel,
    now: int,
    seen: Tables,
    found: Tables,
    outcome: Result<GuardDecisionModel, StorageErrorModel>,
    after: Tables,
) -> bool {
    exists|matched: ReplyModel, stored: ReplyModel| #[trigger]
        guard_exchanges(order, check, now, seen, found, matched, stored, outcome, after)
}

/// Whether holds are those of the tables that cover what a check asks about, and
/// bytes the wire form of the evidence.
pub open spec fn is_evaluated(
    order: TextOrder,
    check: RetentionCheckModel,
    seen: Tables,
    rows: Seq<MatchingHoldModel>,
    wire: Seq<u8>,
) -> bool {
    &&& seen.lists_matches(order, check.scope_kind, check.scope_id, check.subject, rows)
    &&& is_written(check.evidence(rows), wire)
}

/// What is stored of a decision.
pub open spec fn decision_entry(
    check: RetentionCheckModel,
    rows: Seq<MatchingHoldModel>,
    wire: Seq<u8>,
) -> DecisionEntry {
    let decision = check.decision(wire, rows);
    DecisionEntry {
        action_id: check.action_id,
        caller_instance: check.caller,
        request_hash: sha256(wire),
        allowed: decision.allowed,
        reason_code: decision.reason_code,
        matching_holds: matching_holds_json(rows),
    }
}

/// Decisions once one of them is stored, unless it already was.
pub open spec fn with_decision(
    decisions: Map<Text, DecisionEntry>,
    check: RetentionCheckModel,
    rows: Seq<MatchingHoldModel>,
    wire: Seq<u8>,
) -> Map<Text, DecisionEntry> {
    let id = check.decision(wire, rows).decision_id;
    if decisions.contains_key(id) {
        decisions
    } else {
        decisions.insert(id, decision_entry(check, rows, wire))
    }
}

/// What an evaluation of the guard answers and leaves: the decision that the
/// matching holds of the tables it saw call for, stored unless it already was. A
/// failure leaves at most the decision.
pub open spec fn guard_settles(
    order: TextOrder,
    check: RetentionCheckModel,
    seen: Tables,
    found: Tables,
    outcome: Result<GuardDecisionModel, StorageErrorModel>,
    after: Tables,
) -> bool {
    &&& after.holds == found.holds
    &&& after.scopes == found.scopes
    &&& after.activity == found.activity
    &&& after.receipts == found.receipts
    &&& match outcome {
        Ok(decision) => exists|rows: Seq<MatchingHoldModel>, wire: Seq<u8>| #[trigger]
            is_evaluated(order, check, seen, rows, wire) && decision == check.decision(wire, rows)
                && after.decisions == with_decision(found.decisions, check, rows, wire),
        Err(_) => after.decisions == found.decisions || exists|
            rows: Seq<MatchingHoldModel>,
            wire: Seq<u8>,
        | #[trigger]
            is_evaluated(order, check, seen, rows, wire) && after.decisions == with_decision(
                found.decisions,
                check,
                rows,
                wire,
            ),
    }
}

/// Every evaluation of the guard settles.
pub proof fn guards_settle(
    order: TextOrder,
    check: RetentionCheckModel,
    now: int,
    seen: Tables,
    found: Tables,
    outcome: Result<GuardDecisionModel, StorageErrorModel>,
    after: Tables,
)
    requires
        guard_leads(order, check, now, seen, found, outcome, after),
    ensures
        guard_settles(order, check, seen, found, outcome, after),
{
    let (matched, stored) = choose|matched: ReplyModel, stored: ReplyModel| #[trigger]
        guard_exchanges(order, check, now, seen, found, matched, stored, outcome, after);
    if guard_next(check, GuardPhaseModel::Match, matched) is Run {
        let rows = matched->Matches_0;
        let wire = json_wire(check.evidence(rows))->Ok_0;
        assert(is_evaluated(order, check, seen, rows, wire));
        if after.decisions != found.decisions || outcome is Ok {
            assert(after.decisions == with_decision(found.decisions, check, rows, wire));
        }
    }
}

/// Where its evidence has a wire form, the guard can decide: there is an
/// evaluation that ends with the decision that the matching holds call for.
pub proof fn guards_can_decide(
    order: TextOrder,
    check: RetentionCheckModel,
    now: int,
    seen: Tables,
    found: Tables,
    rows: Seq<MatchingHoldModel>,
    wire: Seq<u8>,
)
    requires
        is_evaluated(order, check, seen, rows, wire),
    ensures
        exists|after: Tables| #[trigger]
            guard_leads(
                order,
                check,
                now,
                seen,
                found,
                Ok(check.decision(wire, rows)),
                after,
            ),
{
    let decision = check.decision(wire, rows);
    let statement = check.store_decision(wire, rows);
    let matched = ReplyModel::Matches(rows);
    let after = Tables {
        decisions: with_decision(found.decisions, check, rows, wire),
        ..found
    };
    let stored = ReplyModel::Affected(
        if found.decisions.contains_key(decision.decision_id) {
            0
        } else {
            1
        },
    );
    assert(guard_next(check, GuardPhaseModel::Match, matched) == GuardStepModel::Run(
        GuardPhaseModel::Store(decision),
        statement,
    ));
    assert(executes_alone(order, found, statement, now, stored, after));
    assert(guard_exchanges(
        order,
        check,
        now,
        seen,
        found,
        matched,
        stored,
        Ok(decision),
        after,
    ));
    assert(guard_leads(order, check, now, seen, found, Ok(decision), after));
}

} // verus!
