//! What holds of the library as a whole, whatever is asked of it.
use vstd::prelude::*;
use vstd::relations::total_ordering;
use crate::administration::{admin_start, AdminStepModel};
use crate::authorization::{is_allowed, GrantModel};
use crate::command::{
    command_next, CommandModel, CommandPhaseModel, CommandStepModel, ACTIVE, RELEASED,
};
use crate::config::LegalHoldConfig;
use crate::digest::{digests_collide, sha256};
use crate::failure::PluginErrorModel;
use crate::guard::{
    decision_ids_have_one_form, decision_ids_tell_evidence_apart, guard_refusal, is_decision_id,
    CheckRetentionError, CheckRetentionRequest, GuardDecisionModel, RetentionCheckModel,
    ACTIVE_LEGAL_HOLD,
};
use crate::hold::{presented_hold, HoldModel, HoldRowModel, ScopeRowModel};
use crate::json::{is_written, json_wire};
use crate::query::GetHoldModel;
use crate::request::{
    agreeing_requests_are_prepared_alike, digests_tell_requests_apart, prepared, AdminRequest,
    LegalHoldError, StorageOperationModel,
};
use crate::statement::{
    DomainFailure, LockedHoldModel, MatchingHoldModel, ReceiptModel, ReplyModel, StatementModel,
    StorageErrorModel,
};
use crate::tables::{
    hold_is_valid, lookup, matching_listing_is_unique, scope_listing_is_unique, tables_are_valid,
    ActivityEntry, DecisionEntry, ScopeEntry, ScopeKey, Tables, TextOrder,
};
use crate::text::{decimal, texts, Text};
use crate::transaction::{
    awaited_statement, command_leads, commands_settle, decision_entry, get_hold_leads, guard_leads,
    guards_settle, is_evaluated, is_stored, reads_answer_what_is_stored, with_decision,
};

verus! {

/// An active hold is not a released one.
pub(crate) proof fn lemma_statuses_differ()
    ensures
        ACTIVE@ != RELEASED@,
{
    reveal_strlit("active");
    reveal_strlit("released");
    assert(ACTIVE@.len() < RELEASED@.len());
}

/// Whether a command or an evaluation of the guard may turn one state of the
/// tables into another.
pub open spec fn evolves(order: TextOrder, before: Tables, after: Tables) -> bool {
    ||| exists|
        command: CommandModel,
        now: int,
        outcome: Result<HoldModel, StorageErrorModel>,
    | #[trigger]
        command_leads(order, command, now, before, outcome, after)
    ||| exists|
        check: RetentionCheckModel,
        now: int,
        seen: Tables,
        outcome: Result<GuardDecisionModel, StorageErrorModel>,
    | #[trigger]
        guard_leads(order, check, now, seen, before, outcome, after)
}

/// Whether states of the tables may follow each other.
pub open spec fn is_history(order: TextOrder, states: Seq<Tables>) -> bool {
    &&& states.len() > 0
    &&& forall|i: int|
        0 <= i < states.len() - 1 ==> evolves(order, #[trigger] states[i], states[i + 1])
}

proof fn lemma_histories_end_with_a_run(order: TextOrder, states: Seq<Tables>)
    requires
        is_history(order, states),
        states.len() > 1,
    ensures
        is_history(order, states.drop_last()),
        states.drop_last().first() == states.first(),
        evolves(order, states.drop_last().last(), states.last()),
{
    let earlier = states.drop_last();
    assert forall|i: int| 0 <= i < earlier.len() - 1 implies evolves(
        order,
        #[trigger] earlier[i],
        earlier[i + 1],
    ) by {
        assert(evolves(order, states[i], states[i + 1]));
    }
    assert(evolves(order, states[states.len() - 2], states[states.len() - 2 + 1]));
}

/// What a run leaves of a row: the legal record never changes, the revision never
/// falls and rises with every change, and a released hold stays as it is.
pub open spec fn row_endures(before: HoldRowModel, after: HoldRowModel) -> bool {
    &&& after.organization_id == before.organization_id
    &&& after.hold_id == before.hold_id
    &&& after.title == before.title
    &&& after.reason == before.reason
    &&& after.legal_authority == before.legal_authority
    &&& after.created_by == before.created_by
    &&& after.created_at == before.created_at
    &&& after.revision >= before.revision
    &&& after.revision == before.revision ==> after == before
    &&& before.status != ACTIVE@ ==> after == before
}

/// What a run leaves of the tables: every hold, with the scopes of released
/// ones and of those at the same revision, every receipt, every event, and every
/// guard decision.
pub open spec fn tables_endure(before: Tables, after: Tables) -> bool {
    &&& forall|hold_id: Text| #[trigger]
        before.holds.contains_key(hold_id) ==> after.holds.contains_key(hold_id) && row_endures(
            before.holds[hold_id],
            after.holds[hold_id],
        )
    &&& forall|key: ScopeKey|
        before.holds.contains_key(key.hold_id) && (before.holds[key.hold_id].status != ACTIVE@
            || after.holds[key.hold_id].revision == before.holds[key.hold_id].revision)
            ==> #[trigger] lookup(after.scopes, key) == lookup(before.scopes, key)
    &&& forall|key|
        #![trigger before.receipts.contains_key(key)]
        before.receipts.contains_key(key) ==> after.receipts.contains_key(key)
            && after.receipts[key] == before.receipts[key]
    &&& before.activity.len() <= after.activity.len()
    &&& after.activity.take(before.activity.len() as int) == before.activity
    &&& forall|id: Text| #[trigger]
        before.decisions.contains_key(id) ==> after.decisions.contains_key(id)
            && after.decisions[id] == before.decisions[id]
}

proof fn lemma_effects_endure(
    order: TextOrder,
    command: CommandModel,
    now: int,
    before: Tables,
    hold: HoldModel,
    after: Tables,
)
    requires
        lookup(before.receipts, command.receipt_key()) is None,
        command.refusal(before) is None,
        command.takes_effect(order, now, before, hold, after),
    ensures
        tables_endure(before, after),
{
    lemma_statuses_differ();
    assert(after.activity.take(before.activity.len() as int) == before.activity);
}

/// A hold, once created, is never deleted, and what it records of itself is never
/// changed; a released hold keeps everything, its scopes included. Receipts,
/// events and decisions are kept as they are.
pub proof fn what_is_stored_endures(order: TextOrder, before: Tables, after: Tables)
    requires
        evolves(order, before, after),
    ensures
        tables_endure(before, after),
{
    if exists|
        command: CommandModel,
        now: int,
        outcome: Result<HoldModel, StorageErrorModel>,
    | #[trigger]
        command_leads(order, command, now, before, outcome, after) {
        let (command, now, outcome) = choose|
            command: CommandModel,
            now: int,
            outcome: Result<HoldModel, StorageErrorModel>,
        | #[trigger]
            command_leads(order, command, now, before, outcome, after);
        commands_settle(order, command, now, before, outcome, after);
        if after == before {
            assert(after.activity.take(before.activity.len() as int) == before.activity);
        } else {
            let hold = if outcome is Ok {
                outcome->Ok_0
            } else {
                choose|hold: HoldModel| #[trigger]
                    command.takes_effect(order, now, before, hold, after)
            };
            lemma_effects_endure(order, command, now, before, hold, after);
        }
    } else {
        let (check, now, seen, outcome) = choose|
            check: RetentionCheckModel,
            now: int,
            seen: Tables,
            outcome: Result<GuardDecisionModel, StorageErrorModel>,
        | #[trigger]
            guard_leads(order, check, now, seen, before, outcome, after);
        guards_settle(order, check, now, seen, before, outcome, after);
        assert(after.activity.take(before.activity.len() as int) == before.activity);
    }
}

/// What is stored endures through any number of runs.
pub proof fn what_is_stored_endures_for_good(order: TextOrder, states: Seq<Tables>)
    requires
        is_history(order, states),
    ensures
        tables_endure(states.first(), states.last()),
    decreases states.len(),
{
    let first = states.first();
    let last = states.last();
    if states.len() == 1 {
        assert(last.activity.take(first.activity.len() as int) == first.activity);
    } else {
        let earlier = states.drop_last();
        lemma_histories_end_with_a_run(order, states);
        what_is_stored_endures_for_good(order, earlier);
        let middle = earlier.last();
        what_is_stored_endures(order, middle, last);
        assert(last.activity.take(first.activity.len() as int) == last.activity.take(
            middle.activity.len() as int,
        ).take(first.activity.len() as int));
    }
}

/// Every run keeps the tables valid.
pub proof fn tables_stay_valid(order: TextOrder, before: Tables, after: Tables)
    requires
        tables_are_valid(before),
        evolves(order, before, after),
    ensures
        tables_are_valid(after),
{
    lemma_statuses_differ();
    if exists|
        command: CommandModel,
        now: int,
        outcome: Result<HoldModel, StorageErrorModel>,
    | #[trigger]
        command_leads(order, command, now, before, outcome, after) {
        let (command, now, outcome) = choose|
            command: CommandModel,
            now: int,
            outcome: Result<HoldModel, StorageErrorModel>,
        | #[trigger]
            command_leads(order, command, now, before, outcome, after);
        commands_settle(order, command, now, before, outcome, after);
        if after != before {
            let hold = if outcome is Ok {
                outcome->Ok_0
            } else {
                choose|hold: HoldModel| #[trigger]
                    command.takes_effect(order, now, before, hold, after)
            };
            assert(command.takes_effect(order, now, before, hold, after));
            assert(hold_is_valid(command.hold_id(), command.changed_row(before, now)));
        }
    } else {
        let (check, now, seen, outcome) = choose|
            check: RetentionCheckModel,
            now: int,
            seen: Tables,
            outcome: Result<GuardDecisionModel, StorageErrorModel>,
        | #[trigger]
            guard_leads(order, check, now, seen, before, outcome, after);
        guards_settle(order, check, now, seen, before, outcome, after);
    }
}

/// A refused command changes nothing.
pub proof fn refused_commands_change_nothing(
    order: TextOrder,
    command: CommandModel,
    now: int,
    before: Tables,
    failure: DomainFailure,
    after: Tables,
)
    requires
        command_leads(
            order,
            command,
            now,
            before,
            Err(StorageErrorModel::Domain(failure)),
            after,
        ),
    ensures
        after == before,
{
    commands_settle(
        order,
        command,
        now,
        before,
        Err(StorageErrorModel::Domain(failure)),
        after,
    );
}

/// A command that succeeded, asked again at any later time, is answered as it was
/// the first time and changes nothing; only a failure of the system can keep the
/// answer back.
pub proof fn repeated_commands_get_the_same_answer(
    order: TextOrder,
    first: CommandModel,
    now: int,
    before: Tables,
    hold: HoldModel,
    states: Seq<Tables>,
    again: CommandModel,
    later: int,
    outcome: Result<HoldModel, StorageErrorModel>,
    after: Tables,
)
    requires
        is_history(order, states),
        command_leads(order, first, now, before, Ok(hold), states.first()),
        again.receipt_key() == first.receipt_key(),
        again.request_hash() == first.request_hash(),
        command_leads(order, again, later, states.last(), outcome, after),
    ensures
        after == states.last(),
        match outcome {
            Ok(answer) => answer == hold,
            Err(error) => !(error is Domain),
        },
{
    commands_settle(order, first, now, before, Ok(hold), states.first());
    what_is_stored_endures_for_good(order, states);
    assert(states.first().receipts.contains_key(first.receipt_key()));
    commands_settle(order, again, later, states.last(), outcome, after);
}

/// A command that reuses a key with another digest is a conflict and changes
/// nothing; only a failure of the system can keep the refusal back.
pub proof fn reused_keys_conflict(
    order: TextOrder,
    first: CommandModel,
    now: int,
    before: Tables,
    hold: HoldModel,
    states: Seq<Tables>,
    other: CommandModel,
    later: int,
    outcome: Result<HoldModel, StorageErrorModel>,
    after: Tables,
)
    requires
        is_history(order, states),
        command_leads(order, first, now, before, Ok(hold), states.first()),
        other.receipt_key() == first.receipt_key(),
        other.request_hash() != first.request_hash(),
        command_leads(order, other, later, states.last(), outcome, after),
    ensures
        after == states.last(),
        match outcome {
            Ok(_) => false,
            Err(StorageErrorModel::Domain(failure)) => failure
                == DomainFailure::IdempotencyConflict,
            Err(_) => true,
        },
{
    commands_settle(order, first, now, before, Ok(hold), states.first());
    what_is_stored_endures_for_good(order, states);
    assert(states.first().receipts.contains_key(first.receipt_key()));
    commands_settle(order, other, later, states.last(), outcome, after);
}

/// Whether a command is what a valid request asks for on behalf of a grant, and
/// carries the digest of the wire form in which the request was written.
pub open spec fn is_prepared(
    request: AdminRequest,
    grant: GrantModel,
    wire: Seq<u8>,
    command: CommandModel,
) -> bool {
    &&& request.is_valid()
    &&& request.is_command()
    &&& is_written(request.content(), wire)
    &&& prepared(request, grant) == Ok::<StorageOperationModel, PluginErrorModel<LegalHoldError>>(
        StorageOperationModel::Command(command),
    )
}

/// A request that succeeded, made again by the same actor through the same caller
/// at any later time, is answered as it was the first time and changes nothing;
/// only a failure of the system can keep the answer back.
pub proof fn repeated_requests_get_the_same_answer(
    order: TextOrder,
    request: AdminRequest,
    again: AdminRequest,
    grant: GrantModel,
    wire: Seq<u8>,
    first: CommandModel,
    now: int,
    before: Tables,
    hold: HoldModel,
    states: Seq<Tables>,
    later: int,
    outcome: Result<HoldModel, StorageErrorModel>,
    after: Tables,
)
    requires
        is_prepared(request, grant, wire, first),
        again.is_valid(),
        again.agrees(request),
        is_history(order, states),
        command_leads(order, first, now, before, Ok(hold), states.first()),
        command_leads(
            order,
            prepared(again, grant)->Ok_0->Command_0,
            later,
            states.last(),
            outcome,
            after,
        ),
    ensures
        is_prepared(again, grant, wire, first),
        after == states.last(),
        match outcome {
            Ok(answer) => answer == hold,
            Err(error) => !(error is Domain),
        },
{
    agreeing_requests_are_prepared_alike(again, request, grant);
    repeated_commands_get_the_same_answer(
        order,
        first,
        now,
        before,
        hold,
        states,
        first,
        later,
        outcome,
        after,
    );
}

/// A request that reuses the key of another one that succeeded, of the same actor
/// for the same operation through the same caller, and differs from it in any
/// field, is a conflict and changes nothing, unless the two wire forms share a
/// digest; only a failure of the system can keep the refusal back.
pub proof fn other_requests_under_a_key_conflict(
    order: TextOrder,
    request: AdminRequest,
    other: AdminRequest,
    grant: GrantModel,
    wire: Seq<u8>,
    other_wire: Seq<u8>,
    first: CommandModel,
    second: CommandModel,
    now: int,
    before: Tables,
    hold: HoldModel,
    states: Seq<Tables>,
    later: int,
    outcome: Result<HoldModel, StorageErrorModel>,
    after: Tables,
)
    requires
        is_prepared(request, grant, wire, first),
        is_prepared(other, grant, other_wire, second),
        other.operation() == request.operation(),
        other.idempotency_key() == request.idempotency_key(),
        !request.agrees(other),
        is_history(order, states),
        command_leads(order, first, now, before, Ok(hold), states.first()),
        command_leads(order, second, later, states.last(), outcome, after),
    ensures
        digests_collide(wire, other_wire) || {
            &&& after == states.last()
            &&& match outcome {
                Ok(_) => false,
                Err(StorageErrorModel::Domain(failure)) => failure
                    == DomainFailure::IdempotencyConflict,
                Err(_) => true,
            }
        },
{
    assert(first.receipt_key() == second.receipt_key());
    assert(first.request_hash() == sha256(wire) && second.request_hash() == sha256(other_wire));
    if sha256(wire) == sha256(other_wire) {
        digests_tell_requests_apart(request, other, wire, other_wire);
    } else {
        reused_keys_conflict(
            order,
            first,
            now,
            before,
            hold,
            states,
            second,
            later,
            outcome,
            after,
        );
    }
}

/// A command that succeeds for the first time leaves a receipt with its answer
/// and exactly one new event about its hold, by its actor, and touches no other
/// hold. A scope that it adds is recorded as the actor's.
pub proof fn successful_commands_leave_a_record(
    order: TextOrder,
    command: CommandModel,
    now: int,
    before: Tables,
    hold: HoldModel,
    after: Tables,
)
    requires
        command_leads(order, command, now, before, Ok(hold), after),
        !before.receipts.contains_key(command.receipt_key()),
    ensures
        lookup(after.receipts, command.receipt_key()) == Some(
            ReceiptModel { request_hash: command.request_hash(), response: Ok(hold) },
        ),
        after.activity.len() == before.activity.len() + 1,
        after.activity.drop_last() == before.activity,
        after.activity.last().hold_id == command.hold_id(),
        after.activity.last().row.kind == command.activity_kind(),
        after.activity.last().row.actor_subject == command.actor(),
        after.activity.last().row.payload == command.activity_payload(),
        command is Scope && command->Scope_0.add ==> lookup(after.scopes, command.scope()) == Some(
            ScopeEntry { created_by: command.actor(), created_at: now },
        ),
        forall|hold_id: Text|
            hold_id != command.hold_id() ==> #[trigger] lookup(after.holds, hold_id) == lookup(
                before.holds,
                hold_id,
            ),
        forall|key: ScopeKey|
            key.hold_id != command.hold_id() ==> #[trigger] lookup(after.scopes, key) == lookup(
                before.scopes,
                key,
            ),
{
    commands_settle(order, command, now, before, Ok(hold), after);
    assert(after.activity.drop_last() == before.activity);
}

/// A new hold is active, at its first revision, and preserves nothing yet; its
/// identifier was free.
pub proof fn new_holds_are_active_and_empty(
    order: TextOrder,
    command: CommandModel,
    now: int,
    before: Tables,
    hold: HoldModel,
    after: Tables,
)
    requires
        command is Create,
        tables_are_valid(before),
        command_leads(order, command, now, before, Ok(hold), after),
        !before.receipts.contains_key(command.receipt_key()),
    ensures
        !before.holds.contains_key(command.hold_id()),
        hold.organization_id == command.organization_id(),
        hold.hold_id == command.hold_id(),
        hold.title == command->Create_0.title,
        hold.reason == command->Create_0.reason,
        hold.legal_authority == command->Create_0.legal_authority,
        hold.created_by == command.actor(),
        hold.status == ACTIVE@,
        hold.revision == decimal(1),
        hold.released_by is None,
        hold.released_at is None,
        hold.release_reason is None,
        hold.scopes.len() == 0,
{
    commands_settle(order, command, now, before, Ok(hold), after);
    let row = command.changed_row(before, now);
    let rows = choose|rows: Seq<ScopeRowModel>|
        #![trigger after.lists_scopes(order, command.hold_id(), rows)]
        after.lists_scopes(order, command.hold_id(), rows) && presented_hold(row, rows) == Ok::<
            HoldModel,
            Text,
        >(hold);
    if rows.len() > 0 {
        rows.to_multiset_ensures();
        assert(rows.contains(rows[0]));
        assert(rows.to_multiset().count(rows[0]) > 0);
        assert(after.scope_count(command.hold_id(), rows[0]) == 0);
    }
}

/// An identifier that is taken refuses a new hold as a conflict.
pub proof fn taken_identifiers_conflict(
    order: TextOrder,
    command: CommandModel,
    now: int,
    before: Tables,
    outcome: Result<HoldModel, StorageErrorModel>,
    after: Tables,
)
    requires
        command is Create,
        before.holds.contains_key(command.hold_id()),
        !before.receipts.contains_key(command.receipt_key()),
        command_leads(order, command, now, before, outcome, after),
    ensures
        after == before,
        match outcome {
            Ok(_) => false,
            Err(StorageErrorModel::Domain(failure)) => failure
                == DomainFailure::IdempotencyConflict,
            Err(_) => true,
        },
{
    commands_settle(order, command, now, before, outcome, after);
}

/// A scope change or a release succeeds for the first time only on an active
/// hold of its organization that is at the expected revision, and moves it to the
/// next one.
pub proof fn changes_compare_and_advance_the_revision(
    order: TextOrder,
    command: CommandModel,
    now: int,
    before: Tables,
    hold: HoldModel,
    after: Tables,
)
    requires
        !(command is Create),
        !before.receipts.contains_key(command.receipt_key()),
        command_leads(order, command, now, before, Ok(hold), after),
    ensures
        before.hold(command.organization_id(), command.hold_id()) is Some,
        before.holds[command.hold_id()].status == ACTIVE@,
        before.holds[command.hold_id()].revision == command.expected_revision(),
        after.holds[command.hold_id()].revision == command.expected_revision() + 1,
        hold.revision == decimal(command.expected_revision() + 1),
        hold.status == if command is Release {
            RELEASED@
        } else {
            ACTIVE@
        },
{
    commands_settle(order, command, now, before, Ok(hold), after);
}

/// A scope change or a release of a hold that is missing, released, or at another
/// revision is refused for that reason, in that order.
pub proof fn changes_are_refused_for_their_reason(
    order: TextOrder,
    command: CommandModel,
    now: int,
    before: Tables,
    outcome: Result<HoldModel, StorageErrorModel>,
    after: Tables,
)
    requires
        !(command is Create),
        !before.receipts.contains_key(command.receipt_key()),
        command_leads(order, command, now, before, outcome, after),
        outcome is Ok || outcome->Err_0 is Domain,
    ensures
        ({
            let row = before.hold(command.organization_id(), command.hold_id());
            let refused = |failure: DomainFailure|
                outcome == Err::<HoldModel, StorageErrorModel>(StorageErrorModel::Domain(failure));
            &&& row is None ==> refused(DomainFailure::NotFound)
            &&& row is Some && row->0.status != ACTIVE@ ==> refused(DomainFailure::HoldReleased)
            &&& row is Some && row->0.status == ACTIVE@ && row->0.revision
                != command.expected_revision() ==> refused(DomainFailure::RevisionConflict)
        }),
{
    commands_settle(order, command, now, before, outcome, after);
}

/// Adding a scope that a hold has, or removing one that it has not, is a
/// conflict.
pub proof fn scope_changes_must_change_something(
    order: TextOrder,
    command: CommandModel,
    now: int,
    before: Tables,
    outcome: Result<HoldModel, StorageErrorModel>,
    after: Tables,
)
    requires
        command is Scope,
        !before.receipts.contains_key(command.receipt_key()),
        command.objection(command.locked(before)) is None,
        before.scopes.contains_key(command.scope()) == command->Scope_0.add,
        command_leads(order, command, now, before, outcome, after),
    ensures
        after == before,
        match outcome {
            Ok(_) => false,
            Err(StorageErrorModel::Domain(failure)) => failure == DomainFailure::ScopeConflict,
            Err(_) => true,
        },
{
    commands_settle(order, command, now, before, outcome, after);
}

/// Removing a scope that was just added leaves the scopes as they were, and
/// answers with the hold as it was stored before, two revisions on.
pub proof fn removing_undoes_adding(
    order: TextOrder,
    adding: CommandModel,
    removing: CommandModel,
    now: int,
    later: int,
    before: Tables,
    stored: HoldModel,
    added: HoldModel,
    between: Tables,
    removed: HoldModel,
    after: Tables,
)
    requires
        total_ordering(order),
        adding is Scope && adding->Scope_0.add,
        removing is Scope && !removing->Scope_0.add,
        removing.scope() == adding.scope(),
        !before.receipts.contains_key(adding.receipt_key()),
        !between.receipts.contains_key(removing.receipt_key()),
        is_stored(order, before, adding.organization_id(), adding.hold_id(), stored),
        command_leads(order, adding, now, before, Ok(added), between),
        command_leads(order, removing, later, between, Ok(removed), after),
    ensures
        after.scopes == before.scopes,
        after.holds == before.holds.insert(
            adding.hold_id(),
            HoldRowModel {
                revision: before.holds[adding.hold_id()].revision + 2,
                ..before.holds[adding.hold_id()]
            },
        ),
        removed == (HoldModel {
            revision: decimal(before.holds[adding.hold_id()].revision + 2),
            ..stored
        }),
{
    commands_settle(order, adding, now, before, Ok(added), between);
    commands_settle(order, removing, later, between, Ok(removed), after);
    assert(after.scopes == before.scopes);
    let hold_id = adding.hold_id();
    let row = removing.changed_row(between, later);
    assert(after.holds == before.holds.insert(hold_id, row));
    let rows = choose|rows: Seq<ScopeRowModel>|
        #![trigger before.lists_scopes(order, hold_id, rows)]
        before.lists_scopes(order, hold_id, rows) && presented_hold(before.holds[hold_id], rows)
            == Ok::<HoldModel, Text>(stored);
    let last = choose|rows: Seq<ScopeRowModel>|
        #![trigger after.lists_scopes(order, removing.hold_id(), rows)]
        after.lists_scopes(order, removing.hold_id(), rows) && presented_hold(row, rows) == Ok::<
            HoldModel,
            Text,
        >(removed);
    assert(before.lists_scopes(order, hold_id, last));
    scope_listing_is_unique(order, before, hold_id, rows, last);
}

/// A read right after a command gives back what the command answered.
pub proof fn reads_give_back_what_was_written(
    order: TextOrder,
    command: CommandModel,
    now: int,
    before: Tables,
    written: HoldModel,
    between: Tables,
    later: int,
    read: HoldModel,
    after: Tables,
)
    requires
        total_ordering(order),
        !before.receipts.contains_key(command.receipt_key()),
        command_leads(order, command, now, before, Ok(written), between),
        get_hold_leads(
            order,
            GetHoldModel {
                organization_id: command.organization_id(),
                hold_id: command.hold_id(),
            },
            later,
            between,
            Ok(read),
            after,
        ),
    ensures
        read == written,
        after == between,
{
    commands_settle(order, command, now, before, Ok(written), between);
    let query = GetHoldModel {
        organization_id: command.organization_id(),
        hold_id: command.hold_id(),
    };
    reads_answer_what_is_stored(order, query, later, between, Ok(read), after);
    let hold_id = command.hold_id();
    let row = command.changed_row(before, now);
    let left = choose|rows: Seq<ScopeRowModel>|
        #![trigger between.lists_scopes(order, hold_id, rows)]
        between.lists_scopes(order, hold_id, rows) && presented_hold(row, rows) == Ok::<
            HoldModel,
            Text,
        >(written);
    let right = choose|rows: Seq<ScopeRowModel>|
        #![trigger between.lists_scopes(order, hold_id, rows)]
        between.lists_scopes(order, hold_id, rows) && presented_hold(
            between.holds[hold_id],
            rows,
        ) == Ok::<HoldModel, Text>(read);
    scope_listing_is_unique(order, between, hold_id, left, right);
}

/// Whether an active hold covers what a check asks about.
pub open spec fn is_blocked(tables: Tables, check: RetentionCheckModel) -> bool {
    exists|hold_id: Text| #[trigger]
        tables.blocks(hold_id, check.scope_kind, check.scope_id, check.subject)
}

proof fn lemma_matches_are_blocks(
    order: TextOrder,
    tables: Tables,
    check: RetentionCheckModel,
    rows: Seq<MatchingHoldModel>,
)
    requires
        tables.lists_matches(order, check.scope_kind, check.scope_id, check.subject, rows),
    ensures
        rows.len() > 0 <==> is_blocked(tables, check),
{
    rows.to_multiset_ensures();
    if rows.len() > 0 {
        assert(rows.contains(rows[0]));
        assert(rows.to_multiset().count(rows[0]) > 0);
        assert(tables.blocks(
            rows[0].hold_id,
            check.scope_kind,
            check.scope_id,
            check.subject,
        ));
    }
    if is_blocked(tables, check) {
        let hold_id = choose|hold_id: Text| #[trigger]
            tables.blocks(hold_id, check.scope_kind, check.scope_id, check.subject);
        let row = MatchingHoldModel { hold_id, revision: tables.holds[hold_id].revision };
        assert(rows.to_multiset().count(row) > 0);
        assert(rows.contains(row));
    }
}

/// The guard allows an action exactly when no active hold covers it, whatever the
/// action would do, and otherwise gives the one reason there is.
pub proof fn guard_blocks_what_active_holds_cover(
    order: TextOrder,
    check: RetentionCheckModel,
    now: int,
    seen: Tables,
    found: Tables,
    decision: GuardDecisionModel,
    after: Tables,
)
    requires
        guard_leads(order, check, now, seen, found, Ok(decision), after),
    ensures
        decision.allowed == !is_blocked(seen, check),
        decision.reason_code == if decision.allowed {
            None
        } else {
            Some(ACTIVE_LEGAL_HOLD@)
        },
{
    guards_settle(order, check, now, seen, found, Ok(decision), after);
    let (rows, wire) = choose|rows: Seq<MatchingHoldModel>, wire: Seq<u8>| #[trigger]
        is_evaluated(order, check, seen, rows, wire) && decision == check.decision(wire, rows);
    lemma_matches_are_blocks(order, seen, check, rows);
}

/// Whatever an action would do to the data, whoever asks and why, the guard
/// decides the same of the same subject in the same scope, for the same reason.
pub proof fn guard_treats_modes_alike(
    order: TextOrder,
    check: RetentionCheckModel,
    other: RetentionCheckModel,
    now: int,
    later: int,
    seen: Tables,
    found: Tables,
    found_later: Tables,
    decision: GuardDecisionModel,
    other_decision: GuardDecisionModel,
    after: Tables,
    after_later: Tables,
)
    requires
        other.scope_kind == check.scope_kind,
        other.scope_id == check.scope_id,
        other.subject == check.subject,
        guard_leads(order, check, now, seen, found, Ok(decision), after),
        guard_leads(order, other, later, seen, found_later, Ok(other_decision), after_later),
    ensures
        decision.allowed == other_decision.allowed,
        decision.reason_code == other_decision.reason_code,
{
    guard_blocks_what_active_holds_cover(order, check, now, seen, found, decision, after);
    guard_blocks_what_active_holds_cover(
        order,
        other,
        later,
        seen,
        found_later,
        other_decision,
        after_later,
    );
    assert(is_blocked(seen, check) == is_blocked(seen, other));
}

/// Whether bytes are the wire form of the evidence for a decision that is stored
/// under an identifier.
pub open spec fn is_evidence_of(
    id: Text,
    entry: DecisionEntry,
    check: RetentionCheckModel,
    rows: Seq<MatchingHoldModel>,
    wire: Seq<u8>,
) -> bool {
    &&& is_written(check.evidence(rows), wire)
    &&& id == check.decision(wire, rows).decision_id
    &&& entry == decision_entry(check, rows, wire)
}

/// Whether every stored decision is one that the guard made on some evidence.
pub open spec fn decisions_are_evidenced(tables: Tables) -> bool {
    forall|id: Text| #[trigger]
        tables.decisions.contains_key(id) ==> exists|
            check: RetentionCheckModel,
            rows: Seq<MatchingHoldModel>,
            wire: Seq<u8>,
        | #[trigger]
            is_evidence_of(id, tables.decisions[id], check, rows, wire)
}

/// Every run keeps each stored decision one that the guard made.
pub proof fn decisions_stay_evidenced(order: TextOrder, before: Tables, after: Tables)
    requires
        decisions_are_evidenced(before),
        evolves(order, before, after),
    ensures
        decisions_are_evidenced(after),
{
    what_is_stored_endures(order, before, after);
    if exists|
        command: CommandModel,
        now: int,
        outcome: Result<HoldModel, StorageErrorModel>,
    | #[trigger]
        command_leads(order, command, now, before, outcome, after) {
        let (command, now, outcome) = choose|
            command: CommandModel,
            now: int,
            outcome: Result<HoldModel, StorageErrorModel>,
        | #[trigger]
            command_leads(order, command, now, before, outcome, after);
        commands_settle(order, command, now, before, outcome, after);
        assert(after.decisions == before.decisions);
    } else {
        let (check, now, seen, outcome) = choose|
            check: RetentionCheckModel,
            now: int,
            seen: Tables,
            outcome: Result<GuardDecisionModel, StorageErrorModel>,
        | #[trigger]
            guard_leads(order, check, now, seen, before, outcome, after);
        guards_settle(order, check, now, seen, before, outcome, after);
        if after.decisions != before.decisions {
            let (rows, wire) = choose|rows: Seq<MatchingHoldModel>, wire: Seq<u8>| #[trigger]
                is_evaluated(order, check, seen, rows, wire) && after.decisions == with_decision(
                    before.decisions,
                    check,
                    rows,
                    wire,
                );
            let id = check.decision(wire, rows).decision_id;
            assert(is_evidence_of(id, after.decisions[id], check, rows, wire));
        }
    }
}

/// In any history that starts without decisions, each stored decision is one that
/// the guard made.
pub proof fn decisions_are_always_evidenced(order: TextOrder, states: Seq<Tables>)
    requires
        is_history(order, states),
        states.first().decisions == Map::<Text, DecisionEntry>::empty(),
    ensures
        decisions_are_evidenced(states.last()),
    decreases states.len(),
{
    if states.len() > 1 {
        lemma_histories_end_with_a_run(order, states);
        let earlier = states.drop_last();
        decisions_are_always_evidenced(order, earlier);
        decisions_stay_evidenced(order, earlier.last(), states.last());
    }
}

/// A decision that the guard gives is stored by then, with the exact holds that
/// cover the action, and their revisions: it was stored just now, or before on the
/// same evidence. Only where its wire form shares a digest with that of other
/// evidence, stored before, does that stand in its place.
pub proof fn decisions_are_stored_before_they_are_given(
    order: TextOrder,
    check: RetentionCheckModel,
    now: int,
    seen: Tables,
    found: Tables,
    decision: GuardDecisionModel,
    after: Tables,
)
    requires
        decisions_are_evidenced(found),
        guard_leads(order, check, now, seen, found, Ok(decision), after),
    ensures
        is_decision_id(decision.decision_id),
        after.decisions.contains_key(decision.decision_id),
        exists|rows: Seq<MatchingHoldModel>, wire: Seq<u8>| #[trigger]
            is_evaluated(order, check, seen, rows, wire) && decision == check.decision(wire, rows)
                && (after.decisions[decision.decision_id] == decision_entry(check, rows, wire)
                || exists|
                earlier: RetentionCheckModel,
                listed: Seq<MatchingHoldModel>,
                other: Seq<u8>,
            | #[trigger]
                is_evidence_of(
                    decision.decision_id,
                    found.decisions[decision.decision_id],
                    earlier,
                    listed,
                    other,
                ) && digests_collide(wire, other)),
{
    guards_settle(order, check, now, seen, found, Ok(decision), after);
    let (rows, wire) = choose|rows: Seq<MatchingHoldModel>, wire: Seq<u8>| #[trigger]
        is_evaluated(order, check, seen, rows, wire) && decision == check.decision(wire, rows)
            && after.decisions == with_decision(found.decisions, check, rows, wire);
    decision_ids_have_one_form(check, wire, rows);
    let id = decision.decision_id;
    if found.decisions.contains_key(id) {
        let (earlier, listed, other) = choose|
            earlier: RetentionCheckModel,
            listed: Seq<MatchingHoldModel>,
            other: Seq<u8>,
        | #[trigger]
            is_evidence_of(id, found.decisions[id], earlier, listed, other);
        decision_ids_tell_evidence_apart(check, earlier, rows, listed, wire, other);
        assert(json_wire(check.evidence(rows)) == Ok::<Seq<u8>, Text>(wire));
    }
}

/// Whether the holds that cover what a check asks about are the same, at the same
/// revisions, and match as often.
pub open spec fn matches_agree(check: RetentionCheckModel, left: Tables, right: Tables) -> bool {
    forall|hold: MatchingHoldModel| #[trigger]
        left.matching_count(check.scope_kind, check.scope_id, check.subject, hold)
            == right.matching_count(check.scope_kind, check.scope_id, check.subject, hold)
}

proof fn lemma_matches_have_one_listing(
    order: TextOrder,
    check: RetentionCheckModel,
    left: Tables,
    right: Tables,
    rows: Seq<MatchingHoldModel>,
    others: Seq<MatchingHoldModel>,
)
    requires
        total_ordering(order),
        matches_agree(check, left, right),
        left.lists_matches(order, check.scope_kind, check.scope_id, check.subject, rows),
        right.lists_matches(order, check.scope_kind, check.scope_id, check.subject, others),
    ensures
        rows == others,
{
    assert forall|hold: MatchingHoldModel| #[trigger]
        others.to_multiset().count(hold) == left.matching_count(
            check.scope_kind,
            check.scope_id,
            check.subject,
            hold,
        ) by {
        assert(left.matching_count(check.scope_kind, check.scope_id, check.subject, hold)
            == right.matching_count(check.scope_kind, check.scope_id, check.subject, hold));
    }
    matching_listing_is_unique(
        order,
        left,
        check.scope_kind,
        check.scope_id,
        check.subject,
        rows,
        others,
    );
}

/// The same check against the same matching holds at the same revisions gives the
/// same decision, down to its identifier, whatever else is stored and whenever it
/// is asked.
pub proof fn guard_is_deterministic(
    order: TextOrder,
    check: RetentionCheckModel,
    now: int,
    later: int,
    seen: Tables,
    seen_later: Tables,
    found: Tables,
    found_later: Tables,
    decision: GuardDecisionModel,
    decision_later: GuardDecisionModel,
    after: Tables,
    after_later: Tables,
)
    requires
        total_ordering(order),
        matches_agree(check, seen, seen_later),
        guard_leads(order, check, now, seen, found, Ok(decision), after),
        guard_leads(order, check, later, seen_later, found_later, Ok(decision_later), after_later),
    ensures
        decision_later == decision,
        is_decision_id(decision.decision_id),
{
    guards_settle(order, check, now, seen, found, Ok(decision), after);
    guards_settle(order, check, later, seen_later, found_later, Ok(decision_later), after_later);
    let (left, wire) = choose|rows: Seq<MatchingHoldModel>, wire: Seq<u8>| #[trigger]
        is_evaluated(order, check, seen, rows, wire) && decision == check.decision(wire, rows);
    let (right, wire_later) = choose|rows: Seq<MatchingHoldModel>, wire: Seq<u8>| #[trigger]
        is_evaluated(order, check, seen_later, rows, wire) && decision_later == check.decision(
            wire,
            rows,
        );
    lemma_matches_have_one_listing(order, check, seen, seen_later, left, right);
    decision_ids_have_one_form(check, wire, left);
}

/// Decisions with the same identifier answer the same check, in every part of it,
/// against the same matching holds at the same revisions, unless the wire forms of
/// their evidence differ and share a digest. So where any of these differs, the
/// identifiers differ.
pub proof fn decisions_are_told_apart(
    order: TextOrder,
    check: RetentionCheckModel,
    other: RetentionCheckModel,
    now: int,
    later: int,
    seen: Tables,
    seen_later: Tables,
    found: Tables,
    found_later: Tables,
    decision: GuardDecisionModel,
    other_decision: GuardDecisionModel,
    after: Tables,
    after_later: Tables,
)
    requires
        decision.decision_id == other_decision.decision_id,
        guard_leads(order, check, now, seen, found, Ok(decision), after),
        guard_leads(order, other, later, seen_later, found_later, Ok(other_decision), after_later),
    ensures
        (check == other && matches_agree(check, seen, seen_later)) || exists|
            rows: Seq<MatchingHoldModel>,
            wire: Seq<u8>,
            other_rows: Seq<MatchingHoldModel>,
            other_wire: Seq<u8>,
        |
            #[trigger] is_evaluated(order, check, seen, rows, wire) && #[trigger] is_evaluated(
                order,
                other,
                seen_later,
                other_rows,
                other_wire,
            ) && digests_collide(wire, other_wire),
{
    guards_settle(order, check, now, seen, found, Ok(decision), after);
    guards_settle(order, other, later, seen_later, found_later, Ok(other_decision), after_later);
    let (rows, wire) = choose|rows: Seq<MatchingHoldModel>, wire: Seq<u8>| #[trigger]
        is_evaluated(order, check, seen, rows, wire) && decision == check.decision(wire, rows);
    let (others, wire_later) = choose|rows: Seq<MatchingHoldModel>, wire: Seq<u8>| #[trigger]
        is_evaluated(order, other, seen_later, rows, wire) && other_decision == other.decision(
            wire,
            rows,
        );
    decision_ids_tell_evidence_apart(check, other, rows, others, wire, wire_later);
    if !digests_collide(wire, wire_later) {
        assert forall|hold: MatchingHoldModel| #[trigger]
            seen.matching_count(check.scope_kind, check.scope_id, check.subject, hold)
                == seen_later.matching_count(
                check.scope_kind,
                check.scope_id,
                check.subject,
                hold,
            ) by {
            assert(rows.to_multiset().count(hold) == others.to_multiset().count(hold));
        }
    }
}

/// Whether the same active holds cover what a check asks about, at the same
/// revisions.
pub open spec fn blocks_agree(check: RetentionCheckModel, left: Tables, right: Tables) -> bool {
    forall|hold_id: Text|
        #![trigger left.blocks(hold_id, check.scope_kind, check.scope_id, check.subject)]
        #![trigger right.blocks(hold_id, check.scope_kind, check.scope_id, check.subject)]
        {
            &&& left.blocks(hold_id, check.scope_kind, check.scope_id, check.subject)
                == right.blocks(hold_id, check.scope_kind, check.scope_id, check.subject)
            &&& left.blocks(hold_id, check.scope_kind, check.scope_id, check.subject)
                ==> left.holds[hold_id].revision == right.holds[hold_id].revision
        }
}

/// Within one history, holds that cover an action at the same revisions match it
/// as often: a revision tells the scopes of its hold.
pub proof fn revisions_tell_matches(
    order: TextOrder,
    states: Seq<Tables>,
    check: RetentionCheckModel,
    i: int,
    j: int,
)
    requires
        is_history(order, states),
        0 <= i < states.len(),
        0 <= j < states.len(),
        blocks_agree(check, states[i], states[j]),
    ensures
        matches_agree(check, states[i], states[j]),
{
    let (first, last) = if i <= j {
        (i, j)
    } else {
        (j, i)
    };
    let part = states.subrange(first, last + 1);
    assert forall|k: int| 0 <= k < part.len() - 1 implies evolves(
        order,
        #[trigger] part[k],
        part[k + 1],
    ) by {
        assert(evolves(order, states[first + k], states[first + k + 1]));
    }
    what_is_stored_endures_for_good(order, part);
    let left = states[i];
    let right = states[j];
    let (kind, id, subject) = (check.scope_kind, check.scope_id, check.subject);
    assert forall|hold: MatchingHoldModel| #[trigger]
        left.matching_count(kind, id, subject, hold) == right.matching_count(
            kind,
            id,
            subject,
            hold,
        ) by {
        if left.blocks(hold.hold_id, kind, id, subject) {
            let general = ScopeKey {
                hold_id: hold.hold_id,
                scope_kind: kind,
                scope_id: id,
                subject: None,
            };
            let narrow = ScopeKey { subject: Some(subject), ..general };
            assert(part.first().holds.contains_key(hold.hold_id));
            assert(lookup(part.last().scopes, general) == lookup(part.first().scopes, general));
            assert(lookup(part.last().scopes, narrow) == lookup(part.first().scopes, narrow));
        } else {
            assert(!right.blocks(hold.hold_id, kind, id, subject));
        }
    }
}

/// Within one history, the same check gives the same decision, down to its
/// identifier, wherever the same active holds cover it at the same revisions.
pub proof fn equal_matches_get_the_same_decision(
    order: TextOrder,
    states: Seq<Tables>,
    i: int,
    j: int,
    check: RetentionCheckModel,
    now: int,
    later: int,
    found: Tables,
    found_later: Tables,
    decision: GuardDecisionModel,
    decision_later: GuardDecisionModel,
    after: Tables,
    after_later: Tables,
)
    requires
        total_ordering(order),
        is_history(order, states),
        0 <= i < states.len(),
        0 <= j < states.len(),
        blocks_agree(check, states[i], states[j]),
        guard_leads(order, check, now, states[i], found, Ok(decision), after),
        guard_leads(order, check, later, states[j], found_later, Ok(decision_later), after_later),
    ensures
        decision_later == decision,
{
    revisions_tell_matches(order, states, check, i, j);
    guard_is_deterministic(
        order,
        check,
        now,
        later,
        states[i],
        states[j],
        found,
        found_later,
        decision,
        decision_later,
        after,
        after_later,
    );
}

/// Whether a scope covers what a check asks about: it names the same kind and
/// identifier, and the same subject or none.
pub open spec fn covers(scope: ScopeKey, check: RetentionCheckModel) -> bool {
    &&& scope.scope_kind == check.scope_kind
    &&& scope.scope_id == check.scope_id
    &&& scope.subject is None || scope.subject == Some(check.subject)
}

/// The guard blocks what a scope of an active hold covers: every subject where it
/// names none, and that subject where it names one.
pub proof fn scopes_of_active_holds_block_what_they_cover(
    order: TextOrder,
    scope: ScopeKey,
    check: RetentionCheckModel,
    now: int,
    seen: Tables,
    found: Tables,
    decision: GuardDecisionModel,
    after: Tables,
)
    requires
        seen.scopes.contains_key(scope),
        seen.holds.contains_key(scope.hold_id),
        seen.holds[scope.hold_id].status == ACTIVE@,
        covers(scope, check),
        guard_leads(order, check, now, seen, found, Ok(decision), after),
    ensures
        !decision.allowed,
        decision.reason_code == Some(ACTIVE_LEGAL_HOLD@),
{
    assert(scope == (ScopeKey {
        hold_id: scope.hold_id,
        scope_kind: check.scope_kind,
        scope_id: check.scope_id,
        subject: scope.subject,
    }));
    assert(seen.has_scope(scope.hold_id, check.scope_kind, check.scope_id, scope.subject));
    assert(seen.blocks(scope.hold_id, check.scope_kind, check.scope_id, check.subject));
    guard_blocks_what_active_holds_cover(order, check, now, seen, found, decision, after);
}

/// A scope that was just added blocks what it covers.
pub proof fn added_scopes_block_at_once(
    order: TextOrder,
    command: CommandModel,
    now: int,
    before: Tables,
    hold: HoldModel,
    between: Tables,
    check: RetentionCheckModel,
    later: int,
    found: Tables,
    decision: GuardDecisionModel,
    after: Tables,
)
    requires
        command is Scope && command->Scope_0.add,
        !before.receipts.contains_key(command.receipt_key()),
        command_leads(order, command, now, before, Ok(hold), between),
        covers(command.scope(), check),
        guard_leads(order, check, later, between, found, Ok(decision), after),
    ensures
        !decision.allowed,
        decision.reason_code == Some(ACTIVE_LEGAL_HOLD@),
{
    commands_settle(order, command, now, before, Ok(hold), between);
    scopes_of_active_holds_block_what_they_cover(
        order,
        command.scope(),
        check,
        later,
        between,
        found,
        decision,
        after,
    );
}

/// The guard blocks nothing but what a scope of an active hold covers: where no
/// active hold has a scope that covers the check, the action is allowed.
pub proof fn uncovered_actions_are_allowed(
    order: TextOrder,
    check: RetentionCheckModel,
    now: int,
    seen: Tables,
    found: Tables,
    decision: GuardDecisionModel,
    after: Tables,
)
    requires
        forall|key: ScopeKey|
            #[trigger] seen.scopes.contains_key(key) && seen.holds.contains_key(key.hold_id)
                && seen.holds[key.hold_id].status == ACTIVE@ ==> !covers(key, check),
        guard_leads(order, check, now, seen, found, Ok(decision), after),
    ensures
        decision.allowed,
{
    guard_blocks_what_active_holds_cover(order, check, now, seen, found, decision, after);
    if is_blocked(seen, check) {
        let hold_id = choose|hold_id: Text| #[trigger]
            seen.blocks(hold_id, check.scope_kind, check.scope_id, check.subject);
        let subject = if seen.has_scope(hold_id, check.scope_kind, check.scope_id, None) {
            None
        } else {
            Some(check.subject)
        };
        let key = ScopeKey {
            hold_id,
            scope_kind: check.scope_kind,
            scope_id: check.scope_id,
            subject,
        };
        assert(seen.scopes.contains_key(key));
        assert(covers(key, check));
    }
}

/// A hold that was released never blocks again.
pub proof fn released_holds_block_nothing(
    order: TextOrder,
    command: CommandModel,
    now: int,
    before: Tables,
    hold: HoldModel,
    states: Seq<Tables>,
    scope_kind: Text,
    scope_id: Text,
    subject: Text,
)
    requires
        command is Release,
        !before.receipts.contains_key(command.receipt_key()),
        command_leads(order, command, now, before, Ok(hold), states.first()),
        is_history(order, states),
    ensures
        !states.last().blocks(command.hold_id(), scope_kind, scope_id, subject),
{
    lemma_statuses_differ();
    commands_settle(order, command, now, before, Ok(hold), states.first());
    what_is_stored_endures_for_good(order, states);
    assert(states.first().holds.contains_key(command.hold_id()));
}

/// No command succeeds on a released hold, but for the repetition of one that
/// succeeded before.
pub proof fn released_holds_refuse_changes(
    order: TextOrder,
    command: CommandModel,
    now: int,
    before: Tables,
    outcome: Result<HoldModel, StorageErrorModel>,
    after: Tables,
)
    requires
        !(command is Create),
        before.holds.contains_key(command.hold_id()),
        before.holds[command.hold_id()].status == RELEASED@,
        !before.receipts.contains_key(command.receipt_key()),
        command_leads(order, command, now, before, outcome, after),
    ensures
        after == before,
        outcome is Err,
{
    lemma_statuses_differ();
    commands_settle(order, command, now, before, outcome, after);
}

/// Where a scope change or a release asks for its change, it has just locked its
/// hold and found it active and at the expected revision.
pub proof fn holds_are_locked_before_they_change(
    command: CommandModel,
    phase: CommandPhaseModel,
    reply: ReplyModel,
)
    requires
        !(command is Create),
        command_next(command, phase, reply) == CommandStepModel::Run(
            CommandPhaseModel::Change,
            command.change(),
        ),
    ensures
        awaited_statement(command, phase) == (StatementModel::LockHold {
            organization_id: command.organization_id(),
            hold_id: command.hold_id(),
        }),
        reply == ReplyModel::Locked(
            Some(
                LockedHoldModel { status: ACTIVE@, revision: command.expected_revision() },
            ),
        ),
{
}

/// Who administers holds and who consults the guard are told by two lists, and
/// neither stands in for the other: a caller that is not on the list of a role is
/// refused in it, whatever the other list says.
pub proof fn roles_have_their_own_callers(
    config: LegalHoldConfig,
    caller_instance: Option<Text>,
    request: AdminRequest,
    check: CheckRetentionRequest,
)
    ensures
        !is_allowed(caller_instance, texts(config.admin_callers@)) ==> admin_start(
            request,
            caller_instance,
            texts(config.admin_callers@),
        ) == AdminStepModel::Finished(Err(PluginErrorModel::Domain(LegalHoldError::Forbidden))),
        !is_allowed(caller_instance, texts(config.guard_callers@)) ==> guard_refusal(
            caller_instance,
            texts(config.guard_callers@),
            check,
        ) == Some(CheckRetentionError::Forbidden),
{
}

/// The events of a hold.
pub open spec fn events_of(tables: Tables, hold_id: Text) -> Seq<ActivityEntry> {
    tables.activity.filter(|entry: ActivityEntry| entry.hold_id == hold_id)
}

/// Whether every hold is at the revision that counts its events, and no other
/// identifier has events.
pub open spec fn revisions_count_events(tables: Tables) -> bool {
    forall|hold_id: Text| #[trigger]
        events_of(tables, hold_id).len() == if tables.holds.contains_key(hold_id) {
            tables.holds[hold_id].revision
        } else {
            0
        }
}

proof fn lemma_one_more_event(before: Tables, after: Tables, entry: ActivityEntry, hold_id: Text)
    requires
        after.activity == before.activity.push(entry),
    ensures
        events_of(after, hold_id).len() == events_of(before, hold_id).len() + if entry.hold_id
            == hold_id {
            1int
        } else {
            0
        },
{
    reveal(Seq::filter);
    assert(after.activity.drop_last() == before.activity);
    assert(after.activity.last() == entry);
}

/// Every run keeps revisions in step with events.
pub proof fn revisions_stay_in_step(order: TextOrder, before: Tables, after: Tables)
    requires
        revisions_count_events(before),
        evolves(order, before, after),
    ensures
        revisions_count_events(after),
{
    if exists|
        command: CommandModel,
        now: int,
        outcome: Result<HoldModel, StorageErrorModel>,
    | #[trigger]
        command_leads(order, command, now, before, outcome, after) {
        let (command, now, outcome) = choose|
            command: CommandModel,
            now: int,
            outcome: Result<HoldModel, StorageErrorModel>,
        | #[trigger]
            command_leads(order, command, now, before, outcome, after);
        commands_settle(order, command, now, before, outcome, after);
        if after != before {
            let hold = if outcome is Ok {
                outcome->Ok_0
            } else {
                choose|hold: HoldModel| #[trigger]
                    command.takes_effect(order, now, before, hold, after)
            };
            assert(command.takes_effect(order, now, before, hold, after));
            assert forall|hold_id: Text| #[trigger]
                events_of(after, hold_id).len() == if after.holds.contains_key(hold_id) {
                    after.holds[hold_id].revision
                } else {
                    0
                } by {
                lemma_one_more_event(before, after, after.activity.last(), hold_id);
                assert(events_of(before, hold_id).len() == if before.holds.contains_key(hold_id) {
                    before.holds[hold_id].revision
                } else {
                    0
                });
            }
        }
    } else {
        let (check, now, seen, outcome) = choose|
            check: RetentionCheckModel,
            now: int,
            seen: Tables,
            outcome: Result<GuardDecisionModel, StorageErrorModel>,
        | #[trigger]
            guard_leads(order, check, now, seen, before, outcome, after);
        guards_settle(order, check, now, seen, before, outcome, after);
        assert forall|hold_id: Text| #[trigger]
            events_of(after, hold_id).len() == if after.holds.contains_key(hold_id) {
                after.holds[hold_id].revision
            } else {
                0
            } by {
            assert(events_of(after, hold_id) == events_of(before, hold_id));
        }
    }
}

/// In any history that starts with no holds and no events, the revision of a hold
/// is the number of its events.
pub proof fn revisions_are_event_counts(order: TextOrder, states: Seq<Tables>)
    requires
        is_history(order, states),
        states.first().holds == Map::<Text, HoldRowModel>::empty(),
        states.first().activity.len() == 0,
    ensures
        forall|hold_id: Text| #[trigger]
            states.last().holds.contains_key(hold_id) ==> states.last().holds[hold_id].revision
                == events_of(states.last(), hold_id).len(),
        revisions_count_events(states.last()),
    decreases states.len(),
{
    if states.len() > 1 {
        lemma_histories_end_with_a_run(order, states);
        let earlier = states.drop_last();
        revisions_are_event_counts(order, earlier);
        revisions_stay_in_step(order, earlier.last(), states.last());
    } else {
        reveal(Seq::filter);
    }
    assert forall|hold_id: Text| #[trigger]
        states.last().holds.contains_key(hold_id) implies states.last().holds[hold_id].revision
        == events_of(states.last(), hold_id).len() by {
        assert(revisions_count_events(states.last()));
    }
}

} // verus!
