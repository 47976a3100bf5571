//! What comes of a request: what it leaves in the tables, and what it is answered.
//!
//! Each law starts from the fields of a request and follows it through the run that
//! it is prepared for.
use vstd::prelude::*;
use crate::administration::{
    admin_next, authorizations_are_answered_for_what_they_are, authorized,
    runs_are_answered_with_what_comes_of_them, storage_failure, AdminActionModel, AdminEventModel,
    AdminPhaseModel, AdminResponseModel, AdminStepModel, StorageRunModel,
};
use crate::authorization::{AuthorizationStepModel, GrantModel};
use crate::command::{command_next, CommandModel, CommandPhaseModel, CommandStepModel};
use crate::digest::{hex_text, sha256};
use crate::failure::PluginErrorModel;
use crate::guard::{
    evidence_names_what_a_decision_rests_on, matching_holds_json, retention_reply,
    CheckRetentionRequest, GuardDecisionModel,
};
use crate::hold::{
    events_are_presented_in_order, holds_are_presented_field_by_field, presented_hold, HoldModel,
    HoldRowModel, ScopeModel, ScopeRowModel,
};
use crate::json::{is_written, json_wire, Json};
use crate::laws::{
    lemma_statuses_differ, scopes_of_active_holds_block_what_they_cover,
    uncovered_actions_are_allowed,
};
use crate::paging::{
    activity_pages_show_what_is_stored, hold_pages_show_what_is_stored,
    lemma_listing_repeats_nothing, list_activity_runs, list_holds_leads, list_holds_runs,
    rows_asked_for, shows_listing,
};
use crate::query::{
    get_hold_next, list_activity_next, list_holds_next, ActivityPageModel, GetHoldModel,
    GetHoldPhaseModel, GetHoldStepModel, HoldPageModel, ListActivityModel, ListActivityPhaseModel,
    ListActivityStepModel, ListHoldsModel, ListHoldsPhaseModel, ListHoldsStepModel,
};
use crate::request::{
    prepared, reads_carry_what_was_requested, releases_carry_what_was_requested,
    requests_are_valid_within_bounds, scope_changes_carry_what_was_requested, AdminRequest,
    CreateHoldRequest, GetHoldRequest, LegalHoldError, ListActivityRequest, ListHoldsRequest,
    ListHoldsRequestStatus, MutateScopeRequest, ReleaseHoldRequest, StorageOperationModel,
};
use crate::statement::{
    DomainFailure, MatchingHoldModel, ReceiptModel, StatementModel, StorageErrorModel,
};
use crate::tables::{
    executes, executes_alone, first, tables_are_valid, Database, DecisionEntry, ReceiptKey,
    ScopeEntry, ScopeKey, Tables, TextOrder,
};
use crate::text::{decimal, parsed_cursor, parsed_revision, Text};
use crate::timestamp::rfc3339;
use crate::transaction::{
    command_leads, command_runs, commands_settle, get_hold_leads, get_hold_runs, guard_leads,
    guards_settle, is_evaluated, is_stored, reads_answer_what_is_stored, with_decision, Exchange,
};

verus! {

/// Whether a storage operation is what a granted request was prepared for.
pub open spec fn is_prepared_for(
    request: AdminRequest,
    grant: GrantModel,
    operation: StorageOperationModel,
) -> bool {
    prepared(request, grant) == Ok::<StorageOperationModel, PluginErrorModel<LegalHoldError>>(
        operation,
    )
}

/// Whether a hold lists, in its answer, exactly the stored scopes of a hold: each of
/// them once, with the text of the instant at which it was added.
pub open spec fn lists_stored_scopes(
    tables: Tables,
    hold_id: Text,
    scopes: Seq<ScopeModel>,
) -> bool {
    &&& forall|i: int|
        0 <= i < scopes.len() ==> {
            let key = ScopeKey {
                hold_id,
                scope_kind: (#[trigger] scopes[i]).scope_kind,
                scope_id: scopes[i].scope_id,
                subject: scopes[i].subject,
            };
            tables.scopes.contains_key(key) && rfc3339(tables.scopes[key].created_at) == Ok::<
                Text,
                Text,
            >(scopes[i].created_at)
        }
    &&& forall|key: ScopeKey| #[trigger]
        tables.scopes.contains_key(key) && key.hold_id == hold_id ==> exists|i: int|
            0 <= i < scopes.len() && is_scope(key, #[trigger] scopes[i])
    &&& forall|i: int, j: int|
        0 <= i < j < scopes.len() ==> !is_same_scope(#[trigger] scopes[i], #[trigger] scopes[j])
}

/// Whether an answered scope is the one that a key names.
pub open spec fn is_scope(key: ScopeKey, scope: ScopeModel) -> bool {
    &&& scope.scope_kind == key.scope_kind
    &&& scope.scope_id == key.scope_id
    &&& scope.subject == key.subject
}

/// Whether two answered scopes name the same.
pub open spec fn is_same_scope(left: ScopeModel, right: ScopeModel) -> bool {
    &&& left.scope_kind == right.scope_kind
    &&& left.scope_id == right.scope_id
    &&& left.subject == right.subject
}

proof fn lemma_answers_list_stored_scopes(
    order: TextOrder,
    tables: Tables,
    hold_id: Text,
    row: HoldRowModel,
    rows: Seq<ScopeRowModel>,
    hold: HoldModel,
)
    requires
        tables.lists_scopes(order, hold_id, rows),
        presented_hold(row, rows) == Ok::<HoldModel, Text>(hold),
    ensures
        lists_stored_scopes(tables, hold_id, hold.scopes),
{
    broadcast use {
        vstd::multiset::group_multiset_axioms,
        vstd::multiset::group_multiset_properties,
    };

    holds_are_presented_field_by_field(row, rows, hold);
    rows.to_multiset_ensures();
    let scopes = hold.scopes;
    assert forall|i: int| 0 <= i < scopes.len() implies {
        let key = ScopeKey {
            hold_id,
            scope_kind: (#[trigger] scopes[i]).scope_kind,
            scope_id: scopes[i].scope_id,
            subject: scopes[i].subject,
        };
        tables.scopes.contains_key(key) && rfc3339(tables.scopes[key].created_at) == Ok::<
            Text,
            Text,
        >(scopes[i].created_at)
    } by {
        assert(rows.contains(rows[i]));
        assert(rows.to_multiset().count(rows[i]) > 0);
        assert(tables.scope_count(hold_id, rows[i]) > 0);
    }
    assert forall|key: ScopeKey| #[trigger]
        tables.scopes.contains_key(key) && key.hold_id == hold_id implies exists|i: int|
        0 <= i < scopes.len() && is_scope(key, #[trigger] scopes[i]) by {
        let row = ScopeRowModel {
            scope_kind: key.scope_kind,
            scope_id: key.scope_id,
            subject: key.subject,
            created_at: tables.scopes[key].created_at,
        };
        assert(key == (ScopeKey {
            hold_id,
            scope_kind: row.scope_kind,
            scope_id: row.scope_id,
            subject: row.subject,
        }));
        assert(tables.scope_count(hold_id, row) == 1);
        assert(rows.to_multiset().count(row) == 1);
        assert(rows.contains(row));
        let at = choose|i: int| 0 <= i < rows.len() && rows[i] == row;
        assert(is_scope(key, scopes[at]));
    }
    assert forall|i: int, j: int| 0 <= i < j < scopes.len() implies !is_same_scope(
        #[trigger] scopes[i],
        #[trigger] scopes[j],
    ) by {
        if is_same_scope(scopes[i], scopes[j]) {
            assert(rows.contains(rows[i]) && rows.contains(rows[j]));
            assert(tables.scope_count(hold_id, rows[i]) == rows.to_multiset().count(rows[i]));
            assert(tables.scope_count(hold_id, rows[j]) == rows.to_multiset().count(rows[j]));
            assert(rows[i].created_at == rows[j].created_at);
            assert(rows[i] == rows[j]);
            assert(rows.to_multiset().count(rows[i]) == 1);
            let others = rows.remove(j);
            others.to_multiset_ensures();
            assert(others.to_multiset() == rows.to_multiset().remove(rows[j]));
            assert(others[i] == rows[i]);
            assert(others.contains(rows[i]));
            assert(others.to_multiset().count(rows[i]) > 0);
            assert(rows.to_multiset().count(rows[i]) == others.to_multiset().count(rows[i]) + 1);
        }
    }
}

/// A hold that a request creates has the organization, the identifier, the title, the
/// reason and the legal authority of the request, in the tables and in the answer. It
/// is active, at its first revision, created by the actor at the instant of the run,
/// and has no scopes yet. The run records one event with the title and the legal
/// authority, and keeps the answer under the caller, the actor and the key of the
/// request.
pub proof fn created_holds_are_what_was_requested(
    order: TextOrder,
    request: CreateHoldRequest,
    grant: GrantModel,
    operation: StorageOperationModel,
    now: int,
    before: Tables,
    hold: HoldModel,
    after: Tables,
)
    requires
        is_prepared_for(AdminRequest::CreateHold(request), grant, operation),
        tables_are_valid(before),
        !before.receipts.contains_key(
            ReceiptKey {
                caller: grant.caller,
                actor: grant.actor,
                operation: "create_hold"@,
                idempotency_key: request.idempotency_key@,
            },
        ),
        command_leads(order, operation->Command_0, now, before, Ok(hold), after),
    ensures
        operation is Command,
        !before.holds.contains_key(request.hold_id@),
        hold.organization_id == request.organization_id@,
        hold.hold_id == request.hold_id@,
        hold.title == request.title@,
        hold.reason == request.reason@,
        hold.legal_authority == request.legal_authority@,
        hold.status == "active"@,
        hold.revision == decimal(1),
        hold.created_by == grant.actor,
        rfc3339(now) == Ok::<Text, Text>(hold.created_at),
        hold.released_by is None,
        hold.released_at is None,
        hold.release_reason is None,
        hold.scopes.len() == 0,
        after.holds == before.holds.insert(
            request.hold_id@,
            HoldRowModel {
                organization_id: request.organization_id@,
                hold_id: request.hold_id@,
                title: request.title@,
                reason: request.reason@,
                legal_authority: request.legal_authority@,
                status: "active"@,
                revision: 1,
                created_by: grant.actor,
                created_at: now,
                released_by: None,
                released_at: None,
                release_reason: None,
            },
        ),
        after.scopes == before.scopes,
        after.activity.len() == before.activity.len() + 1,
        after.activity.drop_last() == before.activity,
        after.activity.last().organization_id == request.organization_id@,
        after.activity.last().hold_id == request.hold_id@,
        after.activity.last().row.kind == "hold_created"@,
        after.activity.last().row.actor_subject == grant.actor,
        after.activity.last().row.created_at == now,
        after.activity.last().row.payload == Json::Object(
            seq![
                ("title"@, Json::Text(request.title@)),
                ("legal_authority"@, Json::Text(request.legal_authority@)),
            ],
        ),
        json_wire(AdminRequest::CreateHold(request).content()) matches Ok(wire) && after.receipts
            == before.receipts.insert(
            ReceiptKey {
                caller: grant.caller,
                actor: grant.actor,
                operation: "create_hold"@,
                idempotency_key: request.idempotency_key@,
            },
            ReceiptModel { request_hash: sha256(wire), response: Ok(hold) },
        ),
        after.decisions == before.decisions,
{
    let command = operation->Command_0;
    assert(command.receipt_key() == (ReceiptKey {
        caller: grant.caller,
        actor: grant.actor,
        operation: "create_hold"@,
        idempotency_key: request.idempotency_key@,
    }));
    commands_settle(order, command, now, before, Ok(hold), after);
    assert(after.activity.drop_last() == before.activity);
    let row = command.changed_row(before, now);
    let rows = choose|rows: Seq<ScopeRowModel>|
        #![trigger after.lists_scopes(order, command.hold_id(), rows)]
        after.lists_scopes(order, command.hold_id(), rows) && presented_hold(row, rows) == Ok::<
            HoldModel,
            Text,
        >(hold);
    holds_are_presented_field_by_field(row, rows, hold);
    lemma_answers_list_stored_scopes(order, after, command.hold_id(), row, rows, hold);
    if hold.scopes.len() > 0 {
        let key = ScopeKey {
            hold_id: command.hold_id(),
            scope_kind: hold.scopes[0].scope_kind,
            scope_id: hold.scopes[0].scope_id,
            subject: hold.scopes[0].subject,
        };
        assert(before.scopes.contains_key(key));
    }
}

/// A request that adds a scope, and first succeeds, leaves among the scopes of its
/// hold exactly one more: the kind, the identifier and the subject that it names,
/// added by the actor at the instant of the run. One that removes a scope leaves
/// exactly that one out. The hold is an active one of the organization of the request,
/// at the revision that the request expects, and moves to the next; nothing else of it
/// changes, and the answer says what is then stored.
pub proof fn changed_scopes_are_what_was_requested(
    order: TextOrder,
    request: MutateScopeRequest,
    adds: bool,
    grant: GrantModel,
    operation: StorageOperationModel,
    now: int,
    before: Tables,
    hold: HoldModel,
    after: Tables,
)
    requires
        is_prepared_for(
            if adds {
                AdminRequest::AddScope(request)
            } else {
                AdminRequest::RemoveScope(request)
            },
            grant,
            operation,
        ),
        !before.receipts.contains_key(
            ReceiptKey {
                caller: grant.caller,
                actor: grant.actor,
                operation: if adds {
                    "add_scope"@
                } else {
                    "remove_scope"@
                },
                idempotency_key: request.idempotency_key@,
            },
        ),
        command_leads(order, operation->Command_0, now, before, Ok(hold), after),
    ensures
        operation is Command,
        before.holds.contains_key(request.hold_id@),
        ({
            let row = before.holds[request.hold_id@];
            let scope = ScopeKey {
                hold_id: request.hold_id@,
                scope_kind: request.scope_kind@,
                scope_id: request.scope_id@,
                subject: match request.subject {
                    Some(subject) => Some(subject@),
                    None => None,
                },
            };
            &&& row.organization_id == request.organization_id@
            &&& row.status == "active"@
            &&& parsed_revision(request.expected_revision@) == Some(row.revision)
            &&& after.holds == before.holds.insert(
                request.hold_id@,
                HoldRowModel { revision: row.revision + 1, ..row },
            )
            &&& adds ==> !before.scopes.contains_key(scope) && after.scopes.contains_key(scope)
                && after.scopes == before.scopes.insert(
                scope,
                ScopeEntry { created_by: grant.actor, created_at: now },
            )
            &&& !adds ==> before.scopes.contains_key(scope) && !after.scopes.contains_key(scope)
                && after.scopes == before.scopes.remove(scope)
            &&& hold.organization_id == request.organization_id@
            &&& hold.hold_id == row.hold_id
            &&& hold.title == row.title
            &&& hold.reason == row.reason
            &&& hold.legal_authority == row.legal_authority
            &&& hold.status == "active"@
            &&& hold.revision == decimal(row.revision + 1)
            &&& hold.created_by == row.created_by
            &&& rfc3339(row.created_at) == Ok::<Text, Text>(hold.created_at)
            &&& hold.released_by == row.released_by
            &&& hold.release_reason == row.release_reason
            &&& hold.released_at is Some == row.released_at is Some
            &&& row.released_at matches Some(at) ==> rfc3339(at) == Ok::<Text, Text>(
                hold.released_at->0,
            )
            &&& lists_stored_scopes(after, request.hold_id@, hold.scopes)
            &&& adds ==> exists|i: int|
                0 <= i < hold.scopes.len() && is_scope(scope, #[trigger] hold.scopes[i])
            &&& !adds ==> forall|i: int|
                0 <= i < hold.scopes.len() ==> !is_scope(scope, #[trigger] hold.scopes[i])
        }),
        after.activity.len() == before.activity.len() + 1,
        after.activity.drop_last() == before.activity,
        after.activity.last().organization_id == request.organization_id@,
        after.activity.last().hold_id == request.hold_id@,
        after.activity.last().row.kind == if adds {
            "scope_added"@
        } else {
            "scope_removed"@
        },
        after.activity.last().row.actor_subject == grant.actor,
        after.activity.last().row.created_at == now,
        after.activity.last().row.payload matches Json::Object(members) && {
            &&& members.len() == 3
            &&& members[0] == ("scope_kind"@, Json::Text(request.scope_kind@))
            &&& members[1] == ("scope_id"@, Json::Text(request.scope_id@))
            &&& members[2].0 == "subject"@
            &&& members[2].1 == match request.subject {
                Some(subject) => Json::Text(subject@),
                None => Json::Null,
            }
        },
        json_wire(AdminRequest::AddScope(request).content()) matches Ok(wire) && after.receipts
            == before.receipts.insert(
            ReceiptKey {
                caller: grant.caller,
                actor: grant.actor,
                operation: if adds {
                    "add_scope"@
                } else {
                    "remove_scope"@
                },
                idempotency_key: request.idempotency_key@,
            },
            ReceiptModel { request_hash: sha256(wire), response: Ok(hold) },
        ),
        after.decisions == before.decisions,
{
    let command = operation->Command_0;
    assert(command.receipt_key() == (ReceiptKey {
        caller: grant.caller,
        actor: grant.actor,
        operation: if adds {
            "add_scope"@
        } else {
            "remove_scope"@
        },
        idempotency_key: request.idempotency_key@,
    }));
    commands_settle(order, command, now, before, Ok(hold), after);
    assert(after.activity.drop_last() == before.activity);
    let row = command.changed_row(before, now);
    let rows = choose|rows: Seq<ScopeRowModel>|
        #![trigger after.lists_scopes(order, command.hold_id(), rows)]
        after.lists_scopes(order, command.hold_id(), rows) && presented_hold(row, rows) == Ok::<
            HoldModel,
            Text,
        >(hold);
    holds_are_presented_field_by_field(row, rows, hold);
    lemma_answers_list_stored_scopes(order, after, command.hold_id(), row, rows, hold);
    let scope = ScopeKey {
        hold_id: request.hold_id@,
        scope_kind: request.scope_kind@,
        scope_id: request.scope_id@,
        subject: match request.subject {
            Some(subject) => Some(subject@),
            None => None,
        },
    };
    assert(command.scope() == scope);
    if adds {
        assert(after.scopes.contains_key(scope));
    } else {
        assert forall|i: int| 0 <= i < hold.scopes.len() implies !is_scope(
            scope,
            #[trigger] hold.scopes[i],
        ) by {
            if is_scope(scope, hold.scopes[i]) {
                assert(scope == (ScopeKey {
                    hold_id: request.hold_id@,
                    scope_kind: hold.scopes[i].scope_kind,
                    scope_id: hold.scopes[i].scope_id,
                    subject: hold.scopes[i].subject,
                }));
            }
        }
    }
}

/// A request that releases a hold, and first succeeds, leaves the hold released, at
/// the revision after the one that it expects, by the actor, at the instant of the run
/// and for the reason that it gives, and the answer names them. Nothing else of the
/// hold changes, and its scopes stay.
pub proof fn released_holds_are_what_was_requested(
    order: TextOrder,
    request: ReleaseHoldRequest,
    grant: GrantModel,
    operation: StorageOperationModel,
    now: int,
    before: Tables,
    hold: HoldModel,
    after: Tables,
)
    requires
        is_prepared_for(AdminRequest::ReleaseHold(request), grant, operation),
        !before.receipts.contains_key(
            ReceiptKey {
                caller: grant.caller,
                actor: grant.actor,
                operation: "release_hold"@,
                idempotency_key: request.idempotency_key@,
            },
        ),
        command_leads(order, operation->Command_0, now, before, Ok(hold), after),
    ensures
        operation is Command,
        before.holds.contains_key(request.hold_id@),
        ({
            let row = before.holds[request.hold_id@];
            &&& row.organization_id == request.organization_id@
            &&& row.status == "active"@
            &&& parsed_revision(request.expected_revision@) == Some(row.revision)
            &&& after.holds == before.holds.insert(
                request.hold_id@,
                HoldRowModel {
                    organization_id: row.organization_id,
                    hold_id: row.hold_id,
                    title: row.title,
                    reason: row.reason,
                    legal_authority: row.legal_authority,
                    status: "released"@,
                    revision: row.revision + 1,
                    created_by: row.created_by,
                    created_at: row.created_at,
                    released_by: Some(grant.actor),
                    released_at: Some(now),
                    release_reason: Some(request.reason@),
                },
            )
            &&& hold.organization_id == request.organization_id@
            &&& hold.hold_id == row.hold_id
            &&& hold.title == row.title
            &&& hold.reason == row.reason
            &&& hold.legal_authority == row.legal_authority
            &&& hold.revision == decimal(row.revision + 1)
            &&& hold.created_by == row.created_by
            &&& rfc3339(row.created_at) == Ok::<Text, Text>(hold.created_at)
        }),
        hold.status == "released"@,
        hold.released_by == Some(grant.actor),
        hold.release_reason == Some(request.reason@),
        hold.released_at matches Some(text) && rfc3339(now) == Ok::<Text, Text>(text),
        lists_stored_scopes(after, request.hold_id@, hold.scopes),
        after.scopes == before.scopes,
        after.activity.len() == before.activity.len() + 1,
        after.activity.drop_last() == before.activity,
        after.activity.last().organization_id == request.organization_id@,
        after.activity.last().hold_id == request.hold_id@,
        after.activity.last().row.kind == "hold_released"@,
        after.activity.last().row.actor_subject == grant.actor,
        after.activity.last().row.created_at == now,
        after.activity.last().row.payload == Json::Object(
            seq![("reason"@, Json::Text(request.reason@))],
        ),
        json_wire(AdminRequest::ReleaseHold(request).content()) matches Ok(wire) && after.receipts
            == before.receipts.insert(
            ReceiptKey {
                caller: grant.caller,
                actor: grant.actor,
                operation: "release_hold"@,
                idempotency_key: request.idempotency_key@,
            },
            ReceiptModel { request_hash: sha256(wire), response: Ok(hold) },
        ),
        after.decisions == before.decisions,
{
    let command = operation->Command_0;
    assert(command.receipt_key() == (ReceiptKey {
        caller: grant.caller,
        actor: grant.actor,
        operation: "release_hold"@,
        idempotency_key: request.idempotency_key@,
    }));
    commands_settle(order, command, now, before, Ok(hold), after);
    assert(after.activity.drop_last() == before.activity);
    let row = command.changed_row(before, now);
    let rows = choose|rows: Seq<ScopeRowModel>|
        #![trigger after.lists_scopes(order, command.hold_id(), rows)]
        after.lists_scopes(order, command.hold_id(), rows) && presented_hold(row, rows) == Ok::<
            HoldModel,
            Text,
        >(hold);
    holds_are_presented_field_by_field(row, rows, hold);
    lemma_answers_list_stored_scopes(order, after, command.hold_id(), row, rows, hold);
}

/// The guard answers a request, in either mode, that the action is not allowed where
/// an active hold has a scope of the kind and the identifier that the request names,
/// and for its subject or for every subject.
pub proof fn covered_requests_are_blocked(
    order: TextOrder,
    request: CheckRetentionRequest,
    caller: Text,
    hold_id: Text,
    subject: Option<Text>,
    now: int,
    seen: Tables,
    found: Tables,
    decision: GuardDecisionModel,
    after: Tables,
)
    requires
        seen.holds.contains_key(hold_id),
        seen.holds[hold_id].status == "active"@,
        seen.scopes.contains_key(
            ScopeKey {
                hold_id,
                scope_kind: request.scope_kind@,
                scope_id: request.scope_id@,
                subject,
            },
        ),
        subject is None || subject == Some(request.subject@),
        guard_leads(order, request.check_for(caller), now, seen, found, Ok(decision), after),
    ensures
        !decision.allowed,
        decision.reason_code == Some("active_legal_hold"@),
        retention_reply(Ok(decision)) matches Ok(answer) && !answer.allowed,
{
    scopes_of_active_holds_block_what_they_cover(
        order,
        ScopeKey {
            hold_id,
            scope_kind: request.scope_kind@,
            scope_id: request.scope_id@,
            subject,
        },
        request.check_for(caller),
        now,
        seen,
        found,
        decision,
        after,
    );
}

/// The guard allows what a request asks about, in either mode, where no active hold
/// has a scope of the kind and the identifier that the request names for its subject
/// or for every subject.
pub proof fn uncovered_requests_are_allowed(
    order: TextOrder,
    request: CheckRetentionRequest,
    caller: Text,
    now: int,
    seen: Tables,
    found: Tables,
    decision: GuardDecisionModel,
    after: Tables,
)
    requires
        forall|key: ScopeKey|
            #[trigger] seen.scopes.contains_key(key) && seen.holds.contains_key(key.hold_id)
                && seen.holds[key.hold_id].status == "active"@ ==> !(key.scope_kind
                == request.scope_kind@ && key.scope_id == request.scope_id@ && (key.subject is None
                || key.subject == Some(request.subject@))),
        guard_leads(order, request.check_for(caller), now, seen, found, Ok(decision), after),
    ensures
        decision.allowed,
        decision.reason_code is None,
        retention_reply(Ok(decision)) matches Ok(answer) && answer.allowed,
{
    let check = request.check_for(caller);
    uncovered_actions_are_allowed(order, check, now, seen, found, decision, after);
    guards_settle(order, check, now, seen, found, Ok(decision), after);
}

/// A decision on a request is stored by the time that it is given. Where it was not
/// before, what is stored names the action of the request and the caller, the same
/// verdict and reason as the answer, and every active hold that covers the subject of
/// the request in its scope with its revision. The digest that is stored, and from which
/// the identifier is made, is that of evidence that names all of them.
pub proof fn decisions_record_what_was_asked(
    order: TextOrder,
    request: CheckRetentionRequest,
    caller: Text,
    now: int,
    seen: Tables,
    found: Tables,
    decision: GuardDecisionModel,
    after: Tables,
)
    requires
        guard_leads(order, request.check_for(caller), now, seen, found, Ok(decision), after),
    ensures
        after.decisions.contains_key(decision.decision_id),
        after.holds == found.holds,
        after.scopes == found.scopes,
        after.activity == found.activity,
        after.receipts == found.receipts,
        forall|id: Text|
            id != decision.decision_id ==> (#[trigger] after.decisions.contains_key(id)
                == found.decisions.contains_key(id) && after.decisions[id] == found.decisions[id]),
        found.decisions.contains_key(decision.decision_id) ==> after.decisions == found.decisions,
        exists|rows: Seq<MatchingHoldModel>, listed: Json, evidence: Json, wire: Seq<u8>|
            {
                &&& #[trigger] seen.lists_matches(
                    order,
                    request.scope_kind@,
                    request.scope_id@,
                    request.subject@,
                    rows,
                )
                &&& #[trigger] lists_each(listed, rows)
                &&& #[trigger] names_all(evidence, request, caller, listed)
                &&& #[trigger] is_written(evidence, wire)
                &&& decision.decision_id == "guard:"@ + hex_text(sha256(wire))
                &&& decision.allowed <==> rows.len() == 0
                &&& !found.decisions.contains_key(decision.decision_id)
                    ==> after.decisions[decision.decision_id] == (DecisionEntry {
                    action_id: request.action_id@,
                    caller_instance: caller,
                    request_hash: sha256(wire),
                    allowed: decision.allowed,
                    reason_code: decision.reason_code,
                    matching_holds: listed,
                })
            },
{
    let check = request.check_for(caller);
    guards_settle(order, check, now, seen, found, Ok(decision), after);
    let (rows, wire) = choose|rows: Seq<MatchingHoldModel>, wire: Seq<u8>| #[trigger]
        is_evaluated(order, check, seen, rows, wire) && decision == check.decision(wire, rows)
            && after.decisions == with_decision(found.decisions, check, rows, wire);
    let listed = matching_holds_json(rows);
    evidence_names_what_a_decision_rests_on(check, rows);
    assert(lists_each(listed, rows));
    assert(names_all(check.evidence(rows), request, caller, listed));
    assert(seen.lists_matches(
        order,
        request.scope_kind@,
        request.scope_id@,
        request.subject@,
        rows,
    ));
    assert(is_written(check.evidence(rows), wire));
}

/// Whether evidence names who asked, everything that a request says, and the holds that
/// a list names.
pub open spec fn names_all(
    evidence: Json,
    request: CheckRetentionRequest,
    caller: Text,
    listed: Json,
) -> bool {
    evidence matches Json::Object(members) && {
        &&& members.len() == 8
        &&& members[0] == ("caller"@, Json::Text(caller))
        &&& members[1] == ("action_id"@, Json::Text(request.action_id@))
        &&& members[2] == ("scope_kind"@, Json::Text(request.scope_kind@))
        &&& members[3] == ("scope_id"@, Json::Text(request.scope_id@))
        &&& members[4] == ("subject"@, Json::Text(request.subject@))
        &&& members[5].0 == "mode"@
        &&& request.mode is Delete ==> members[5].1 == Json::Text("delete"@)
        &&& request.mode is Anonymize ==> members[5].1 == Json::Text("anonymize"@)
        &&& members[6] == ("reason"@, Json::Text(request.reason@))
        &&& members[7] == ("matching_holds"@, listed)
    }
}

/// Whether a list names each matching hold with its revision, in order.
pub open spec fn lists_each(listed: Json, rows: Seq<MatchingHoldModel>) -> bool {
    listed matches Json::List(items) && {
        &&& items.len() == rows.len()
        &&& forall|i: int|
            0 <= i < rows.len() ==> ((#[trigger] items[i]) matches Json::Object(members) && {
                &&& members.len() == 2
                &&& members[0] == ("hold_id"@, Json::Text(rows[i].hold_id))
                &&& members[1] == ("revision"@, Json::Text(decimal(rows[i].revision)))
            })
    }
}

/// A request to create a hold whose identifier is taken, in whatever organization, is
/// refused as a conflict and changes nothing.
pub proof fn creations_of_taken_identifiers_conflict(
    order: TextOrder,
    request: CreateHoldRequest,
    grant: GrantModel,
    operation: StorageOperationModel,
    now: int,
    before: Tables,
    outcome: Result<HoldModel, StorageErrorModel>,
    after: Tables,
)
    requires
        is_prepared_for(AdminRequest::CreateHold(request), grant, operation),
        before.holds.contains_key(request.hold_id@),
        !before.receipts.contains_key(
            ReceiptKey {
                caller: grant.caller,
                actor: grant.actor,
                operation: "create_hold"@,
                idempotency_key: request.idempotency_key@,
            },
        ),
        command_leads(order, operation->Command_0, now, before, outcome, after),
    ensures
        after == before,
        outcome is Err,
        outcome->Err_0 matches StorageErrorModel::Domain(failure) ==> failure
            == DomainFailure::IdempotencyConflict,
{
    let command = operation->Command_0;
    assert(command.receipt_key() == (ReceiptKey {
        caller: grant.caller,
        actor: grant.actor,
        operation: "create_hold"@,
        idempotency_key: request.idempotency_key@,
    }));
    commands_settle(order, command, now, before, outcome, after);
}

/// A request to create a hold under a free identifier is never refused.
pub proof fn creations_of_free_identifiers_are_not_refused(
    order: TextOrder,
    request: CreateHoldRequest,
    grant: GrantModel,
    operation: StorageOperationModel,
    now: int,
    before: Tables,
    outcome: Result<HoldModel, StorageErrorModel>,
    after: Tables,
)
    requires
        is_prepared_for(AdminRequest::CreateHold(request), grant, operation),
        !before.holds.contains_key(request.hold_id@),
        !before.receipts.contains_key(
            ReceiptKey {
                caller: grant.caller,
                actor: grant.actor,
                operation: "create_hold"@,
                idempotency_key: request.idempotency_key@,
            },
        ),
        command_leads(order, operation->Command_0, now, before, outcome, after),
    ensures
        outcome matches Err(error) ==> !(error is Domain),
{
    let command = operation->Command_0;
    assert(command.receipt_key() == (ReceiptKey {
        caller: grant.caller,
        actor: grant.actor,
        operation: "create_hold"@,
        idempotency_key: request.idempotency_key@,
    }));
    commands_settle(order, command, now, before, outcome, after);
}

/// A scope change is refused exactly for what stands in its way: there is no such hold
/// in the organization of the request, it is released, it is at another revision than
/// the request expects, or the scope is already as the request wants it. A request that
/// is refused changes nothing.
pub proof fn scope_changes_are_refused_for_what_stands_in_their_way(
    order: TextOrder,
    request: MutateScopeRequest,
    adds: bool,
    grant: GrantModel,
    operation: StorageOperationModel,
    now: int,
    before: Tables,
    outcome: Result<HoldModel, StorageErrorModel>,
    after: Tables,
)
    requires
        is_prepared_for(
            if adds {
                AdminRequest::AddScope(request)
            } else {
                AdminRequest::RemoveScope(request)
            },
            grant,
            operation,
        ),
        tables_are_valid(before),
        !before.receipts.contains_key(
            ReceiptKey {
                caller: grant.caller,
                actor: grant.actor,
                operation: if adds {
                    "add_scope"@
                } else {
                    "remove_scope"@
                },
                idempotency_key: request.idempotency_key@,
            },
        ),
        command_leads(order, operation->Command_0, now, before, outcome, after),
        outcome is Ok || outcome->Err_0 is Domain,
    ensures
        ({
            let row = before.holds[request.hold_id@];
            let scope = ScopeKey {
                hold_id: request.hold_id@,
                scope_kind: request.scope_kind@,
                scope_id: request.scope_id@,
                subject: match request.subject {
                    Some(subject) => Some(subject@),
                    None => None,
                },
            };
            let refused = |failure: DomainFailure|
                after == before && outcome == Err::<HoldModel, StorageErrorModel>(
                    StorageErrorModel::Domain(failure),
                );
            if !before.holds.contains_key(request.hold_id@) || row.organization_id
                != request.organization_id@ {
                refused(DomainFailure::NotFound)
            } else if row.status == "released"@ {
                refused(DomainFailure::HoldReleased)
            } else if parsed_revision(request.expected_revision@) != Some(row.revision) {
                refused(DomainFailure::RevisionConflict)
            } else if adds == before.scopes.contains_key(scope) {
                refused(DomainFailure::ScopeConflict)
            } else {
                outcome is Ok
            }
        }),
{
    lemma_statuses_differ();
    let command = operation->Command_0;
    assert(command.receipt_key() == (ReceiptKey {
        caller: grant.caller,
        actor: grant.actor,
        operation: if adds {
            "add_scope"@
        } else {
            "remove_scope"@
        },
        idempotency_key: request.idempotency_key@,
    }));
    commands_settle(order, command, now, before, outcome, after);
    assert(command.scope() == (ScopeKey {
        hold_id: request.hold_id@,
        scope_kind: request.scope_kind@,
        scope_id: request.scope_id@,
        subject: match request.subject {
            Some(subject) => Some(subject@),
            None => None,
        },
    }));
    scope_changes_carry_what_was_requested(request, adds, grant, operation);
}

/// A release is refused exactly for what stands in its way: there is no such hold in the
/// organization of the request, it is released already, or it is at another revision
/// than the request expects. A request that is refused changes nothing.
pub proof fn releases_are_refused_for_what_stands_in_their_way(
    order: TextOrder,
    request: ReleaseHoldRequest,
    grant: GrantModel,
    operation: StorageOperationModel,
    now: int,
    before: Tables,
    outcome: Result<HoldModel, StorageErrorModel>,
    after: Tables,
)
    requires
        is_prepared_for(AdminRequest::ReleaseHold(request), grant, operation),
        tables_are_valid(before),
        !before.receipts.contains_key(
            ReceiptKey {
                caller: grant.caller,
                actor: grant.actor,
                operation: "release_hold"@,
                idempotency_key: request.idempotency_key@,
            },
        ),
        command_leads(order, operation->Command_0, now, before, outcome, after),
        outcome is Ok || outcome->Err_0 is Domain,
    ensures
        ({
            let row = before.holds[request.hold_id@];
            let refused = |failure: DomainFailure|
                after == before && outcome == Err::<HoldModel, StorageErrorModel>(
                    StorageErrorModel::Domain(failure),
                );
            if !before.holds.contains_key(request.hold_id@) || row.organization_id
                != request.organization_id@ {
                refused(DomainFailure::NotFound)
            } else if row.status == "released"@ {
                refused(DomainFailure::HoldReleased)
            } else if parsed_revision(request.expected_revision@) != Some(row.revision) {
                refused(DomainFailure::RevisionConflict)
            } else {
                outcome is Ok
            }
        }),
{
    lemma_statuses_differ();
    let command = operation->Command_0;
    assert(command.receipt_key() == (ReceiptKey {
        caller: grant.caller,
        actor: grant.actor,
        operation: "release_hold"@,
        idempotency_key: request.idempotency_key@,
    }));
    commands_settle(order, command, now, before, outcome, after);
    releases_carry_what_was_requested(request, grant, operation);
}

/// Whether a hold shows, field by field, what its row holds.
pub open spec fn shows_row(row: HoldRowModel, hold: HoldModel) -> bool {
    &&& hold.organization_id == row.organization_id
    &&& hold.hold_id == row.hold_id
    &&& hold.title == row.title
    &&& hold.reason == row.reason
    &&& hold.legal_authority == row.legal_authority
    &&& hold.status == row.status
    &&& hold.revision == decimal(row.revision)
    &&& hold.created_by == row.created_by
    &&& rfc3339(row.created_at) == Ok::<Text, Text>(hold.created_at)
    &&& hold.released_by == row.released_by
    &&& hold.released_at is Some == row.released_at is Some
    &&& row.released_at matches Some(at) ==> rfc3339(at) == Ok::<Text, Text>(hold.released_at->0)
    &&& hold.release_reason == row.release_reason
}

proof fn lemma_stored_holds_are_shown(
    order: TextOrder,
    tables: Tables,
    organization_id: Text,
    hold_id: Text,
    hold: HoldModel,
)
    requires
        is_stored(order, tables, organization_id, hold_id, hold),
    ensures
        tables.holds.contains_key(hold_id),
        tables.holds[hold_id].organization_id == organization_id,
        shows_row(tables.holds[hold_id], hold),
        lists_stored_scopes(tables, hold_id, hold.scopes),
{
    let row = tables.holds[hold_id];
    let rows = choose|rows: Seq<ScopeRowModel>|
        #![trigger tables.lists_scopes(order, hold_id, rows)]
        tables.lists_scopes(order, hold_id, rows) && presented_hold(row, rows) == Ok::<
            HoldModel,
            Text,
        >(hold);
    holds_are_presented_field_by_field(row, rows, hold);
    lemma_answers_list_stored_scopes(order, tables, hold_id, row, rows, hold);
}

/// A request for one hold is answered with the hold that it names, as it is stored in
/// the organization that it names, or that there is none. It changes nothing.
pub proof fn reads_answer_what_was_asked_for(
    order: TextOrder,
    request: GetHoldRequest,
    grant: GrantModel,
    operation: StorageOperationModel,
    now: int,
    before: Tables,
    outcome: Result<HoldModel, StorageErrorModel>,
    after: Tables,
)
    requires
        is_prepared_for(AdminRequest::GetHold(request), grant, operation),
        get_hold_leads(order, operation->GetHold_0, now, before, outcome, after),
    ensures
        operation is GetHold,
        after == before,
        outcome matches Ok(hold) ==> {
            &&& before.holds.contains_key(request.hold_id@)
            &&& before.holds[request.hold_id@].organization_id == request.organization_id@
            &&& shows_row(before.holds[request.hold_id@], hold)
            &&& lists_stored_scopes(before, request.hold_id@, hold.scopes)
        },
        outcome matches Err(StorageErrorModel::Domain(failure)) ==> {
            &&& failure == DomainFailure::NotFound
            &&& !(before.holds.contains_key(request.hold_id@)
                && before.holds[request.hold_id@].organization_id == request.organization_id@)
        },
{
    reads_answer_what_is_stored(order, operation->GetHold_0, now, before, outcome, after);
    if let Ok(hold) = outcome {
        lemma_stored_holds_are_shown(
            order,
            before,
            request.organization_id@,
            request.hold_id@,
            hold,
        );
    }
}

/// Whether a listing is to show a hold: one of the organization of the request, of its
/// status where it names one, and after its cursor where it has one.
pub open spec fn is_asked_for(
    order: TextOrder,
    request: ListHoldsRequest,
    tables: Tables,
    hold_id: Text,
) -> bool {
    &&& tables.holds.contains_key(hold_id)
    &&& tables.holds[hold_id].organization_id == request.organization_id@
    &&& request.status == Some(ListHoldsRequestStatus::Active) ==> tables.holds[hold_id].status
        == "active"@
    &&& request.status == Some(ListHoldsRequestStatus::Released) ==> tables.holds[hold_id].status
        == "released"@
    &&& request.cursor matches Some(cursor) ==> order(cursor@, hold_id) && cursor@ != hold_id
}

/// A page of holds shows only holds that the request asks for, as they are stored, in
/// order and none twice, and no more than it asks for. Where it names no next page it
/// shows all of them; where it does, it is full, and every one that it does not show
/// comes after it.
pub proof fn hold_pages_show_what_was_asked_for(
    order: TextOrder,
    request: ListHoldsRequest,
    grant: GrantModel,
    operation: StorageOperationModel,
    now: int,
    before: Tables,
    page: HoldPageModel,
    after: Tables,
)
    requires
        is_prepared_for(AdminRequest::ListHolds(request), grant, operation),
        tables_are_valid(before),
        list_holds_leads(order, operation->ListHolds_0, now, before, Ok(page), after),
    ensures
        operation is ListHolds,
        after == before,
        page.holds.len() <= request.limit,
        forall|i: int|
            0 <= i < page.holds.len() ==> {
                let hold = #[trigger] page.holds[i];
                &&& is_asked_for(order, request, before, hold.hold_id)
                &&& shows_row(before.holds[hold.hold_id], hold)
                &&& lists_stored_scopes(before, hold.hold_id, hold.scopes)
            },
        forall|i: int, j: int|
            0 <= i < j < page.holds.len() ==> order(
                (#[trigger] page.holds[i]).hold_id,
                (#[trigger] page.holds[j]).hold_id,
            ) && page.holds[i].hold_id != page.holds[j].hold_id,
        page.next_cursor is None ==> forall|hold_id: Text| #[trigger]
            is_asked_for(order, request, before, hold_id) ==> is_on_page(page, hold_id),
        page.next_cursor matches Some(cursor) ==> {
            &&& page.holds.len() == request.limit
            &&& cursor == page.holds.last().hold_id
            &&& forall|hold_id: Text| #[trigger]
                is_asked_for(order, request, before, hold_id) ==> is_on_page(page, hold_id)
                    || order(cursor, hold_id)
            &&& exists|hold_id: Text| #[trigger]
                is_asked_for(order, request, before, hold_id) && !is_on_page(page, hold_id)
        },
{
    let query = operation->ListHolds_0;
    reads_carry_what_was_requested(AdminRequest::ListHolds(request), grant, operation);
    requests_are_valid_within_bounds(AdminRequest::ListHolds(request), grant);
    hold_pages_show_what_is_stored(order, query, now, before, page, after);
    let ids = choose|ids: Seq<Text>| #[trigger] shows_listing(order, query, before, ids, page);
    lemma_listing_repeats_nothing(
        order,
        before,
        query.organization_id,
        query.status,
        query.cursor,
        ids,
    );
    ids.to_multiset_ensures();
    let shown = first(ids, query.limit);
    assert forall|hold_id: Text| before.is_listed(
        order,
        query.organization_id,
        query.status,
        query.cursor,
        hold_id,
    ) == #[trigger] is_asked_for(order, request, before, hold_id) by {
    }
    assert forall|i: int| 0 <= i < ids.len() implies is_asked_for(
        order,
        request,
        before,
        #[trigger] ids[i],
    ) by {
        assert(ids.contains(ids[i]));
        assert(ids.to_multiset().count(ids[i]) > 0);
    }
    assert forall|i: int| 0 <= i < page.holds.len() implies {
        let hold = #[trigger] page.holds[i];
        &&& hold.hold_id == ids[i]
        &&& is_asked_for(order, request, before, hold.hold_id)
        &&& shows_row(before.holds[hold.hold_id], hold)
        &&& lists_stored_scopes(before, hold.hold_id, hold.scopes)
    } by {
        assert(shown[i] == ids[i]);
        lemma_stored_holds_are_shown(
            order,
            before,
            query.organization_id,
            shown[i],
            page.holds[i],
        );
    }
    assert forall|i: int, j: int| 0 <= i < j < page.holds.len() implies order(
        (#[trigger] page.holds[i]).hold_id,
        (#[trigger] page.holds[j]).hold_id,
    ) && page.holds[i].hold_id != page.holds[j].hold_id by {
        assert(page.holds[i].hold_id == ids[i] && page.holds[j].hold_id == ids[j]);
        assert(order(ids[i], ids[j]));
    }
    assert forall|hold_id: Text| #[trigger]
        is_asked_for(order, request, before, hold_id) implies is_on_page(page, hold_id) || (
    ids.len() > query.limit && order(ids[query.limit - 1], hold_id)) by {
        assert(ids.to_multiset().count(hold_id) == 1);
        assert(ids.contains(hold_id));
        let at = choose|i: int| 0 <= i < ids.len() && ids[i] == hold_id;
        if at < page.holds.len() {
            assert(page.holds[at].hold_id == hold_id);
        } else {
            assert(order(ids[query.limit - 1], ids[at]));
        }
    }
    if page.next_cursor is Some {
        let last = page.holds.len() - 1;
        assert(page.holds[last].hold_id == ids[last]);
        let next = ids[query.limit];
        assert(is_asked_for(order, request, before, next));
        if is_on_page(page, next) {
            let at = choose|i: int|
                0 <= i < page.holds.len() && (#[trigger] page.holds[i]).hold_id == next;
            assert(ids[at] == ids[query.limit]);
        }
    }
}

/// Whether a page shows a hold.
pub open spec fn is_on_page(page: HoldPageModel, hold_id: Text) -> bool {
    exists|i: int| 0 <= i < page.holds.len() && (#[trigger] page.holds[i]).hold_id == hold_id
}

/// A page of activity shows the first events of the hold that the request names, after
/// its cursor or from the beginning, oldest first and no more than it asks for, each
/// with what its row holds. It ends at the last of them. Where the organization of the
/// request has no such hold, that is answered. It changes nothing.
pub proof fn activity_pages_show_what_was_asked_for(
    order: TextOrder,
    request: ListActivityRequest,
    grant: GrantModel,
    operation: StorageOperationModel,
    now: int,
    before: Database,
    exchanges: Seq<Exchange>,
    outcome: Result<ActivityPageModel, StorageErrorModel>,
    after: Tables,
)
    requires
        is_prepared_for(AdminRequest::ListActivity(request), grant, operation),
        list_activity_runs(
            order,
            operation->ListActivity_0,
            now,
            ListActivityPhaseModel::Hold(GetHoldPhaseModel::Begin),
            StatementModel::Begin,
            before,
            exchanges,
            outcome,
            after,
        ),
    ensures
        operation is ListActivity,
        after == before.durable,
        ({
            let is_there = before.durable.holds.contains_key(request.hold_id@)
                && before.durable.holds[request.hold_id@].organization_id
                == request.organization_id@;
            let start = match request.after {
                None => 0,
                Some(text) => parsed_cursor(text@)->0,
            };
            let rows = first(
                before.durable.activity_after(
                    request.organization_id@,
                    request.hold_id@,
                    start,
                ),
                request.limit as int,
            );
            &&& outcome matches Ok(page) ==> {
                &&& is_there
                &&& page.events.len() == rows.len()
                &&& page.next_cursor == if rows.len() > 0 {
                    rows.last().activity_id
                } else {
                    start
                }
                &&& forall|i: int|
                    0 <= i < rows.len() ==> {
                        &&& (#[trigger] page.events[i]).activity_id == decimal(rows[i].activity_id)
                        &&& page.events[i].kind == rows[i].kind
                        &&& page.events[i].actor_subject == rows[i].actor_subject
                        &&& page.events[i].payload == rows[i].payload
                        &&& rfc3339(rows[i].created_at) == Ok::<Text, Text>(
                            page.events[i].created_at,
                        )
                    }
            }
            &&& outcome matches Err(StorageErrorModel::Domain(failure)) ==> failure
                == DomainFailure::NotFound && !is_there
        }),
{
    let query = operation->ListActivity_0;
    reads_carry_what_was_requested(AdminRequest::ListActivity(request), grant, operation);
    requests_are_valid_within_bounds(AdminRequest::ListActivity(request), grant);
    activity_pages_show_what_is_stored(order, query, now, before, exchanges, outcome, after);
    events_are_presented_in_order(rows_asked_for(query, before.durable));
}

/// Whether the next statement of a run stands outside a transaction: the listing of the
/// identifiers of holds, and that of events.
pub open spec fn stands_alone(run: StorageRunModel) -> bool {
    match run {
        StorageRunModel::ListHolds(_, phase) => phase is Ids,
        StorageRunModel::ListActivity(_, phase) => phase is Events,
        _ => false,
    }
}

/// Whether exchanges with storage take a run to its answer.
pub open spec fn run_is_answered(
    order: TextOrder,
    now: int,
    run: StorageRunModel,
    statement: StatementModel,
    before: Database,
    exchanges: Seq<Exchange>,
    answer: Result<AdminResponseModel, PluginErrorModel<LegalHoldError>>,
    after: Tables,
) -> bool
    decreases exchanges.len(),
{
    &&& exchanges.len() > 0
    &&& if stands_alone(run) {
        executes_alone(
            order,
            before.durable,
            statement,
            now,
            exchanges[0].reply,
            exchanges[0].after.durable,
        )
    } else {
        executes(order, before, statement, now, exchanges[0].reply, exchanges[0].after)
    }
    &&& match admin_next(
        AdminPhaseModel::Storage(run),
        AdminEventModel::Storage(exchanges[0].reply),
    ) {
        AdminStepModel::Continue(
            AdminPhaseModel::Storage(next),
            AdminActionModel::Execute(next_statement),
        ) => run_is_answered(
            order,
            now,
            next,
            next_statement,
            exchanges[0].after,
            exchanges.drop_first(),
            answer,
            after,
        ),
        AdminStepModel::Continue(..) => false,
        AdminStepModel::Finished(result) => {
            &&& exchanges.len() == 1
            &&& answer == result
            &&& after == exchanges[0].after.durable
        },
    }
}

/// Whether a granted request may be answered, and leave tables.
pub open spec fn request_is_answered(
    order: TextOrder,
    request: AdminRequest,
    grant: GrantModel,
    now: int,
    before: Tables,
    answer: Result<AdminResponseModel, PluginErrorModel<LegalHoldError>>,
    after: Tables,
) -> bool {
    match authorized(request, AuthorizationStepModel::Granted(grant)) {
        AdminStepModel::Continue(
            AdminPhaseModel::Storage(run),
            AdminActionModel::Execute(statement),
        ) => exists|idle: Tables, exchanges: Seq<Exchange>| #[trigger]
            run_is_answered(
                order,
                now,
                run,
                statement,
                Database { durable: before, working: idle },
                exchanges,
                answer,
                after,
            ),
        AdminStepModel::Continue(..) => false,
        AdminStepModel::Finished(result) => answer == result && after == before,
    }
}

proof fn lemma_command_is_answered(
    order: TextOrder,
    now: int,
    command: CommandModel,
    phase: CommandPhaseModel,
    statement: StatementModel,
    before: Database,
    exchanges: Seq<Exchange>,
    answer: Result<AdminResponseModel, PluginErrorModel<LegalHoldError>>,
    after: Tables,
) -> (outcome: Result<HoldModel, StorageErrorModel>)
    requires
        run_is_answered(
            order,
            now,
            StorageRunModel::Command(command, phase),
            statement,
            before,
            exchanges,
            answer,
            after,
        ),
    ensures
        command_runs(
            order,
            command,
            now,
            phase,
            statement,
            before,
            exchanges,
            outcome,
            after,
        ),
        answers_hold(command is Create, outcome, answer),
    decreases exchanges.len(),
{
    let reply = exchanges[0].reply;
    runs_are_answered_with_what_comes_of_them(StorageRunModel::Command(command, phase), reply);
    match command_next(command, phase, reply) {
        CommandStepModel::Run(next, next_statement) => lemma_command_is_answered(
            order,
            now,
            command,
            next,
            next_statement,
            exchanges[0].after,
            exchanges.drop_first(),
            answer,
            after,
        ),
        CommandStepModel::Finished(outcome) => outcome,
    }
}

/// Whether an answer is that to what came of an operation on one hold: the hold, or the
/// failure for what it is.
pub open spec fn answers_hold(
    creates: bool,
    outcome: Result<HoldModel, StorageErrorModel>,
    answer: Result<AdminResponseModel, PluginErrorModel<LegalHoldError>>,
) -> bool {
    match outcome {
        Ok(hold) => answer == Ok::<AdminResponseModel, PluginErrorModel<LegalHoldError>>(
            AdminResponseModel::Hold(hold),
        ),
        Err(error) => answer == Err::<AdminResponseModel, PluginErrorModel<LegalHoldError>>(
            storage_failure(creates, error),
        ),
    }
}

proof fn lemma_read_is_answered(
    order: TextOrder,
    now: int,
    query: GetHoldModel,
    phase: GetHoldPhaseModel,
    statement: StatementModel,
    before: Database,
    exchanges: Seq<Exchange>,
    answer: Result<AdminResponseModel, PluginErrorModel<LegalHoldError>>,
    after: Tables,
) -> (outcome: Result<HoldModel, StorageErrorModel>)
    requires
        run_is_answered(
            order,
            now,
            StorageRunModel::GetHold(query, phase),
            statement,
            before,
            exchanges,
            answer,
            after,
        ),
    ensures
        get_hold_runs(order, query, now, phase, statement, before, exchanges, outcome, after),
        answers_hold(false, outcome, answer),
    decreases exchanges.len(),
{
    let reply = exchanges[0].reply;
    runs_are_answered_with_what_comes_of_them(StorageRunModel::GetHold(query, phase), reply);
    match get_hold_next(query, phase, reply) {
        GetHoldStepModel::Run(next, next_statement) => lemma_read_is_answered(
            order,
            now,
            query,
            next,
            next_statement,
            exchanges[0].after,
            exchanges.drop_first(),
            answer,
            after,
        ),
        GetHoldStepModel::Finished(outcome) => outcome,
    }
}

proof fn lemma_hold_page_is_answered(
    order: TextOrder,
    now: int,
    query: ListHoldsModel,
    phase: ListHoldsPhaseModel,
    statement: StatementModel,
    before: Database,
    exchanges: Seq<Exchange>,
    answer: Result<AdminResponseModel, PluginErrorModel<LegalHoldError>>,
    after: Tables,
) -> (outcome: Result<HoldPageModel, StorageErrorModel>)
    requires
        run_is_answered(
            order,
            now,
            StorageRunModel::ListHolds(query, phase),
            statement,
            before,
            exchanges,
            answer,
            after,
        ),
    ensures
        list_holds_runs(order, query, now, phase, statement, before, exchanges, outcome, after),
        answers_hold_page(outcome, answer),
    decreases exchanges.len(),
{
    let reply = exchanges[0].reply;
    runs_are_answered_with_what_comes_of_them(StorageRunModel::ListHolds(query, phase), reply);
    match list_holds_next(query, phase, reply) {
        ListHoldsStepModel::Run(next, next_statement) => lemma_hold_page_is_answered(
            order,
            now,
            query,
            next,
            next_statement,
            exchanges[0].after,
            exchanges.drop_first(),
            answer,
            after,
        ),
        ListHoldsStepModel::Finished(outcome) => outcome,
    }
}

/// Whether an answer is that to what came of a listing of holds.
pub open spec fn answers_hold_page(
    outcome: Result<HoldPageModel, StorageErrorModel>,
    answer: Result<AdminResponseModel, PluginErrorModel<LegalHoldError>>,
) -> bool {
    match outcome {
        Ok(page) => answer == Ok::<AdminResponseModel, PluginErrorModel<LegalHoldError>>(
            AdminResponseModel::Holds(page),
        ),
        Err(error) => answer == Err::<AdminResponseModel, PluginErrorModel<LegalHoldError>>(
            storage_failure(false, error),
        ),
    }
}

proof fn lemma_activity_page_is_answered(
    order: TextOrder,
    now: int,
    query: ListActivityModel,
    phase: ListActivityPhaseModel,
    statement: StatementModel,
    before: Database,
    exchanges: Seq<Exchange>,
    answer: Result<AdminResponseModel, PluginErrorModel<LegalHoldError>>,
    after: Tables,
) -> (outcome: Result<ActivityPageModel, StorageErrorModel>)
    requires
        run_is_answered(
            order,
            now,
            StorageRunModel::ListActivity(query, phase),
            statement,
            before,
            exchanges,
            answer,
            after,
        ),
    ensures
        list_activity_runs(order, query, now, phase, statement, before, exchanges, outcome, after),
        answers_activity_page(outcome, answer),
    decreases exchanges.len(),
{
    let reply = exchanges[0].reply;
    runs_are_answered_with_what_comes_of_them(StorageRunModel::ListActivity(query, phase), reply);
    match list_activity_next(query, phase, reply) {
        ListActivityStepModel::Run(next, next_statement) => lemma_activity_page_is_answered(
            order,
            now,
            query,
            next,
            next_statement,
            exchanges[0].after,
            exchanges.drop_first(),
            answer,
            after,
        ),
        ListActivityStepModel::Finished(outcome) => outcome,
    }
}

/// Whether an answer is that to what came of a listing of activity.
pub open spec fn answers_activity_page(
    outcome: Result<ActivityPageModel, StorageErrorModel>,
    answer: Result<AdminResponseModel, PluginErrorModel<LegalHoldError>>,
) -> bool {
    match outcome {
        Ok(page) => answer == Ok::<AdminResponseModel, PluginErrorModel<LegalHoldError>>(
            AdminResponseModel::Activity {
                events: page.events,
                next_cursor: decimal(page.next_cursor),
            },
        ),
        Err(error) => answer == Err::<AdminResponseModel, PluginErrorModel<LegalHoldError>>(
            storage_failure(false, error),
        ),
    }
}

/// A granted request is answered with what comes of what it was prepared for, and with
/// nothing else; one that cannot be prepared is answered why, and changes nothing.
pub proof fn requests_are_answered_with_what_comes_of_them(
    order: TextOrder,
    request: AdminRequest,
    grant: GrantModel,
    now: int,
    before: Tables,
    answer: Result<AdminResponseModel, PluginErrorModel<LegalHoldError>>,
    after: Tables,
)
    requires
        request_is_answered(order, request, grant, now, before, answer, after),
    ensures
        match prepared(request, grant) {
            Err(error) => after == before && answer == Err::<
                AdminResponseModel,
                PluginErrorModel<LegalHoldError>,
            >(error),
            Ok(StorageOperationModel::Command(command)) => exists|
                outcome: Result<HoldModel, StorageErrorModel>,
            | #[trigger]
                command_leads(order, command, now, before, outcome, after) && answers_hold(
                    command is Create,
                    outcome,
                    answer,
                ),
            Ok(StorageOperationModel::GetHold(query)) => exists|
                outcome: Result<HoldModel, StorageErrorModel>,
            | #[trigger]
                get_hold_leads(order, query, now, before, outcome, after) && answers_hold(
                    false,
                    outcome,
                    answer,
                ),
            Ok(StorageOperationModel::ListHolds(query)) => exists|
                outcome: Result<HoldPageModel, StorageErrorModel>,
            | #[trigger]
                list_holds_leads(order, query, now, before, outcome, after) && answers_hold_page(
                    outcome,
                    answer,
                ),
            Ok(StorageOperationModel::ListActivity(query)) => exists|
                outcome: Result<ActivityPageModel, StorageErrorModel>,
                idle: Tables,
                exchanges: Seq<Exchange>,
            | #[trigger]
                list_activity_runs(
                    order,
                    query,
                    now,
                    ListActivityPhaseModel::Hold(GetHoldPhaseModel::Begin),
                    StatementModel::Begin,
                    Database { durable: before, working: idle },
                    exchanges,
                    outcome,
                    after,
                ) && answers_activity_page(outcome, answer),
        },
{
    if let Ok(operation) = prepared(request, grant) {
        let step = authorized(request, AuthorizationStepModel::Granted(grant));
        authorizations_are_answered_for_what_they_are(
            request,
            AuthorizationStepModel::Granted(grant),
        );
        let run = step->Continue_0->Storage_0;
        let statement = step->Continue_1->Execute_0;
        let (idle, exchanges) = choose|idle: Tables, exchanges: Seq<Exchange>| #[trigger]
            run_is_answered(
                order,
                now,
                run,
                statement,
                Database { durable: before, working: idle },
                exchanges,
                answer,
                after,
            );
        let database = Database { durable: before, working: idle };
        match run {
            StorageRunModel::Command(command, phase) => {
                let outcome = lemma_command_is_answered(
                    order,
                    now,
                    command,
                    phase,
                    statement,
                    database,
                    exchanges,
                    answer,
                    after,
                );
                assert(command_leads(order, command, now, before, outcome, after));
            },
            StorageRunModel::GetHold(query, phase) => {
                let outcome = lemma_read_is_answered(
                    order,
                    now,
                    query,
                    phase,
                    statement,
                    database,
                    exchanges,
                    answer,
                    after,
                );
                assert(get_hold_leads(order, query, now, before, outcome, after));
            },
            StorageRunModel::ListHolds(query, phase) => {
                let outcome = lemma_hold_page_is_answered(
                    order,
                    now,
                    query,
                    phase,
                    statement,
                    database,
                    exchanges,
                    answer,
                    after,
                );
                assert(list_holds_leads(order, query, now, before, outcome, after));
            },
            StorageRunModel::ListActivity(query, phase) => {
                let outcome = lemma_activity_page_is_answered(
                    order,
                    now,
                    query,
                    phase,
                    statement,
                    database,
                    exchanges,
                    answer,
                    after,
                );
            },
        }
    }
}

/// The answer to a request that creates a hold, and first succeeds, is an active hold
/// with the title, the reason and the legal authority of the request, and it is stored
/// as that.
pub proof fn creations_are_answered_with_what_was_requested(
    order: TextOrder,
    request: CreateHoldRequest,
    grant: GrantModel,
    now: int,
    before: Tables,
    response: AdminResponseModel,
    after: Tables,
)
    requires
        tables_are_valid(before),
        !before.receipts.contains_key(
            ReceiptKey {
                caller: grant.caller,
                actor: grant.actor,
                operation: "create_hold"@,
                idempotency_key: request.idempotency_key@,
            },
        ),
        request_is_answered(
            order,
            AdminRequest::CreateHold(request),
            grant,
            now,
            before,
            Ok(response),
            after,
        ),
    ensures
        response matches AdminResponseModel::Hold(hold) && {
            &&& hold.organization_id == request.organization_id@
            &&& hold.hold_id == request.hold_id@
            &&& hold.title == request.title@
            &&& hold.reason == request.reason@
            &&& hold.legal_authority == request.legal_authority@
            &&& hold.status == "active"@
            &&& hold.created_by == grant.actor
            &&& after.holds.contains_key(request.hold_id@)
            &&& shows_row(after.holds[request.hold_id@], hold)
        },
{
    let creation = AdminRequest::CreateHold(request);
    requests_are_answered_with_what_comes_of_them(
        order,
        creation,
        grant,
        now,
        before,
        Ok(response),
        after,
    );
    let operation = prepared(creation, grant)->Ok_0;
    let command = operation->Command_0;
    let outcome = choose|outcome: Result<HoldModel, StorageErrorModel>| #[trigger]
        command_leads(order, command, now, before, outcome, after) && answers_hold(
            command is Create,
            outcome,
            Ok(response),
        );
    created_holds_are_what_was_requested(
        order,
        request,
        grant,
        operation,
        now,
        before,
        outcome->Ok_0,
        after,
    );
}

/// The answer to a request that adds a scope, and first succeeds, lists the scope that
/// the request names, and the scope is stored; that to one that removes a scope does not
/// list it, and it is not stored.
pub proof fn scope_changes_are_answered_with_what_was_requested(
    order: TextOrder,
    request: MutateScopeRequest,
    adds: bool,
    grant: GrantModel,
    now: int,
    before: Tables,
    response: AdminResponseModel,
    after: Tables,
)
    requires
        !before.receipts.contains_key(
            ReceiptKey {
                caller: grant.caller,
                actor: grant.actor,
                operation: if adds {
                    "add_scope"@
                } else {
                    "remove_scope"@
                },
                idempotency_key: request.idempotency_key@,
            },
        ),
        request_is_answered(
            order,
            if adds {
                AdminRequest::AddScope(request)
            } else {
                AdminRequest::RemoveScope(request)
            },
            grant,
            now,
            before,
            Ok(response),
            after,
        ),
    ensures
        response matches AdminResponseModel::Hold(hold) && {
            let scope = ScopeKey {
                hold_id: request.hold_id@,
                scope_kind: request.scope_kind@,
                scope_id: request.scope_id@,
                subject: match request.subject {
                    Some(subject) => Some(subject@),
                    None => None,
                },
            };
            &&& hold.organization_id == request.organization_id@
            &&& hold.status == "active"@
            &&& after.scopes.contains_key(scope) == adds
            &&& before.scopes.contains_key(scope) == !adds
            &&& adds == exists|i: int|
                0 <= i < hold.scopes.len() && is_scope(scope, #[trigger] hold.scopes[i])
        },
{
    let change = if adds {
        AdminRequest::AddScope(request)
    } else {
        AdminRequest::RemoveScope(request)
    };
    requests_are_answered_with_what_comes_of_them(
        order,
        change,
        grant,
        now,
        before,
        Ok(response),
        after,
    );
    let operation = prepared(change, grant)->Ok_0;
    let command = operation->Command_0;
    let outcome = choose|outcome: Result<HoldModel, StorageErrorModel>| #[trigger]
        command_leads(order, command, now, before, outcome, after) && answers_hold(
            command is Create,
            outcome,
            Ok(response),
        );
    changed_scopes_are_what_was_requested(
        order,
        request,
        adds,
        grant,
        operation,
        now,
        before,
        outcome->Ok_0,
        after,
    );
}

/// The answer to a request that releases a hold, and first succeeds, names the actor,
/// the reason and the instant of the release.
pub proof fn releases_are_answered_with_what_was_requested(
    order: TextOrder,
    request: ReleaseHoldRequest,
    grant: GrantModel,
    now: int,
    before: Tables,
    response: AdminResponseModel,
    after: Tables,
)
    requires
        !before.receipts.contains_key(
            ReceiptKey {
                caller: grant.caller,
                actor: grant.actor,
                operation: "release_hold"@,
                idempotency_key: request.idempotency_key@,
            },
        ),
        request_is_answered(
            order,
            AdminRequest::ReleaseHold(request),
            grant,
            now,
            before,
            Ok(response),
            after,
        ),
    ensures
        response matches AdminResponseModel::Hold(hold) && {
            &&& hold.organization_id == request.organization_id@
            &&& hold.status == "released"@
            &&& hold.released_by == Some(grant.actor)
            &&& hold.release_reason == Some(request.reason@)
            &&& hold.released_at matches Some(text) && rfc3339(now) == Ok::<Text, Text>(text)
            &&& after.holds.contains_key(request.hold_id@)
            &&& shows_row(after.holds[request.hold_id@], hold)
        },
{
    let release = AdminRequest::ReleaseHold(request);
    requests_are_answered_with_what_comes_of_them(
        order,
        release,
        grant,
        now,
        before,
        Ok(response),
        after,
    );
    let operation = prepared(release, grant)->Ok_0;
    let command = operation->Command_0;
    let outcome = choose|outcome: Result<HoldModel, StorageErrorModel>| #[trigger]
        command_leads(order, command, now, before, outcome, after) && answers_hold(
            command is Create,
            outcome,
            Ok(response),
        );
    released_holds_are_what_was_requested(
        order,
        request,
        grant,
        operation,
        now,
        before,
        outcome->Ok_0,
        after,
    );
}

} // verus!
