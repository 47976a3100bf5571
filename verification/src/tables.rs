//! A model of the tables that statements work on.
//!
//! The model says what each statement does to the tables and which replies may
//! come back. A transaction works on a copy of the tables, which becomes the
//! durable state when the transaction commits and is dropped when it does not;
//! it is taken to run alone, as the lock on the hold row and the unique keys
//! make it appear to others on the same hold. Of the identifiers of events, no
//! order is taken for granted between different holds.
use vstd::prelude::*;
use vstd::relations::{sorted_by, total_ordering};
use crate::command::{ACTIVE, RELEASED};
use crate::hold::{
    presented_instant, ActivityRowModel, HoldRowModel, ScopeRowModel, StoredHoldModel,
};
use crate::json::Json;
use crate::statement::{
    LockedHoldModel, MatchingHoldModel, ReceiptModel, ReplyModel, StatementModel,
};
use crate::text::Text;
use crate::timestamp::rfc3339;

verus! {

/// What tells the scopes of one hold apart.
#[verifier::ext_equal]
pub struct ScopeKey {
    pub hold_id: Text,
    pub scope_kind: Text,
    pub scope_id: Text,
    pub subject: Option<Text>,
}

/// What tells receipts apart.
#[verifier::ext_equal]
pub struct ReceiptKey {
    pub caller: Text,
    pub actor: Text,
    pub operation: Text,
    pub idempotency_key: Text,
}

/// A stored activity event.
#[verifier::ext_equal]
pub struct ActivityEntry {
    pub organization_id: Text,
    pub hold_id: Text,
    pub row: ActivityRowModel,
}

/// A stored guard decision.
#[verifier::ext_equal]
pub struct DecisionEntry {
    pub action_id: Text,
    pub caller_instance: Text,
    pub request_hash: Seq<u8>,
    pub allowed: bool,
    pub reason_code: Option<Text>,
    pub matching_holds: Json,
}

/// What is stored of a scope: by whom and when it was added.
#[verifier::ext_equal]
pub struct ScopeEntry {
    pub created_by: Text,
    pub created_at: int,
}

/// The tables.
#[verifier::ext_equal]
pub struct Tables {
    pub holds: Map<Text, HoldRowModel>,
    pub scopes: Map<ScopeKey, ScopeEntry>,
    pub activity: Seq<ActivityEntry>,
    pub receipts: Map<ReceiptKey, ReceiptModel>,
    pub decisions: Map<Text, DecisionEntry>,
}

/// The durable tables, and the copy on which the open transaction works.
#[verifier::ext_equal]
pub struct Database {
    pub durable: Tables,
    pub working: Tables,
}

/// The order in which the database sorts text: whether one text comes no later
/// than another.
pub type TextOrder = spec_fn(Text, Text) -> bool;

/// The value under a key, if there is one.
pub open spec fn lookup<K, V>(map: Map<K, V>, key: K) -> Option<V> {
    if map.contains_key(key) {
        Some(map[key])
    } else {
        None
    }
}

/// The key of a scope row of a hold.
pub open spec fn scope_key(hold_id: Text, row: ScopeRowModel) -> ScopeKey {
    ScopeKey {
        hold_id,
        scope_kind: row.scope_kind,
        scope_id: row.scope_id,
        subject: row.subject,
    }
}

/// A scope subject comes no later than another: none comes first.
pub open spec fn subject_order(order: TextOrder, left: Option<Text>, right: Option<Text>) -> bool {
    match (left, right) {
        (None, _) => true,
        (Some(_), None) => false,
        (Some(left), Some(right)) => order(left, right),
    }
}

/// Scope rows are sorted by kind, identifier and subject.
pub open spec fn scope_order(order: TextOrder) -> spec_fn(ScopeRowModel, ScopeRowModel) -> bool {
    |left: ScopeRowModel, right: ScopeRowModel|
        if left.scope_kind != right.scope_kind {
            order(left.scope_kind, right.scope_kind)
        } else if left.scope_id != right.scope_id {
            order(left.scope_id, right.scope_id)
        } else if left.subject != right.subject {
            subject_order(order, left.subject, right.subject)
        } else {
            left.created_at <= right.created_at
        }
}

/// Matching holds are sorted by identifier.
pub open spec fn matching_order(order: TextOrder) -> spec_fn(
    MatchingHoldModel,
    MatchingHoldModel,
) -> bool {
    |left: MatchingHoldModel, right: MatchingHoldModel|
        if left.hold_id != right.hold_id {
            order(left.hold_id, right.hold_id)
        } else {
            left.revision <= right.revision
        }
}

impl Tables {
    /// The row of a hold of an organization, if there is one.
    pub open spec fn hold(self, organization_id: Text, hold_id: Text) -> Option<HoldRowModel> {
        if self.holds.contains_key(hold_id) && self.holds[hold_id].organization_id
            == organization_id {
            Some(self.holds[hold_id])
        } else {
            None
        }
    }

    /// How often a row occurs among the scopes of a hold.
    pub open spec fn scope_count(self, hold_id: Text, row: ScopeRowModel) -> nat {
        let key = scope_key(hold_id, row);
        if self.scopes.contains_key(key) && self.scopes[key].created_at == row.created_at {
            1
        } else {
            0
        }
    }

    /// Whether rows are the scopes of a hold, in order.
    pub open spec fn lists_scopes(
        self,
        order: TextOrder,
        hold_id: Text,
        rows: Seq<ScopeRowModel>,
    ) -> bool {
        &&& sorted_by(rows, scope_order(order))
        &&& forall|row: ScopeRowModel| #[trigger]
            rows.to_multiset().count(row) == self.scope_count(hold_id, row)
    }

    /// Whether rows are read of the scopes of a hold, in order.
    pub open spec fn reads_scopes(
        self,
        order: TextOrder,
        hold_id: Text,
        rows: Seq<ScopeRowModel>,
        fault: Option<Text>,
    ) -> bool {
        exists|listed: Seq<ScopeRowModel>| #[trigger]
            self.lists_scopes(order, hold_id, listed) && are_read(listed, rows, fault)
    }

    /// Whether a hold has a scope for one subject, or for all of them.
    pub open spec fn has_scope(
        self,
        hold_id: Text,
        scope_kind: Text,
        scope_id: Text,
        subject: Option<Text>,
    ) -> bool {
        self.scopes.contains_key(ScopeKey { hold_id, scope_kind, scope_id, subject })
    }

    /// Whether a hold is active and one of its scopes covers a subject: a scope
    /// without a subject covers all of them.
    pub open spec fn blocks(
        self,
        hold_id: Text,
        scope_kind: Text,
        scope_id: Text,
        subject: Text,
    ) -> bool {
        &&& self.holds.contains_key(hold_id)
        &&& self.holds[hold_id].status == ACTIVE@
        &&& self.has_scope(hold_id, scope_kind, scope_id, None) || self.has_scope(
            hold_id,
            scope_kind,
            scope_id,
            Some(subject),
        )
    }

    /// How often a hold occurs among those that cover a subject: once for each
    /// of its scopes that does.
    pub open spec fn matching_count(
        self,
        scope_kind: Text,
        scope_id: Text,
        subject: Text,
        hold: MatchingHoldModel,
    ) -> nat {
        if self.blocks(hold.hold_id, scope_kind, scope_id, subject)
            && self.holds[hold.hold_id].revision == hold.revision {
            if self.has_scope(hold.hold_id, scope_kind, scope_id, None) && self.has_scope(
                hold.hold_id,
                scope_kind,
                scope_id,
                Some(subject),
            ) {
                2
            } else {
                1
            }
        } else {
            0
        }
    }

    /// Whether rows are the holds that cover a subject, in order.
    pub open spec fn lists_matches(
        self,
        order: TextOrder,
        scope_kind: Text,
        scope_id: Text,
        subject: Text,
        rows: Seq<MatchingHoldModel>,
    ) -> bool {
        &&& sorted_by(rows, matching_order(order))
        &&& forall|hold: MatchingHoldModel| #[trigger]
            rows.to_multiset().count(hold) == self.matching_count(
                scope_kind,
                scope_id,
                subject,
                hold,
            )
    }

    /// Whether a hold belongs to a listing.
    pub open spec fn is_listed(
        self,
        order: TextOrder,
        organization_id: Text,
        status: Option<Text>,
        cursor: Option<Text>,
        hold_id: Text,
    ) -> bool {
        &&& self.hold(organization_id, hold_id) is Some
        &&& status matches Some(status) ==> self.holds[hold_id].status == status
        &&& cursor matches Some(cursor) ==> order(cursor, hold_id) && cursor != hold_id
    }

    /// Whether identifiers are those of a listing, in order.
    pub open spec fn lists_holds(
        self,
        order: TextOrder,
        organization_id: Text,
        status: Option<Text>,
        cursor: Option<Text>,
        ids: Seq<Text>,
    ) -> bool {
        &&& sorted_by(ids, order)
        &&& forall|hold_id: Text| #[trigger]
            ids.to_multiset().count(hold_id) == if self.is_listed(
                order,
                organization_id,
                status,
                cursor,
                hold_id,
            ) {
                1nat
            } else {
                0
            }
    }

    /// The activity of a hold after a cursor, oldest first.
    pub open spec fn activity_after(self, organization_id: Text, hold_id: Text, after: int) -> Seq<
        ActivityRowModel,
    > {
        self.activity.filter(
            |entry: ActivityEntry|
                entry.organization_id == organization_id && entry.hold_id == hold_id
                    && entry.row.activity_id > after,
        ).map_values(|entry: ActivityEntry| entry.row)
    }

    /// The tables with another row for a hold.
    pub open spec fn with_hold(self, hold_id: Text, row: HoldRowModel) -> Tables {
        Tables { holds: self.holds.insert(hold_id, row), ..self }
    }

    /// Whether an identifier of an event is larger than all of its hold.
    pub open spec fn is_next_event(self, hold_id: Text, activity_id: int) -> bool {
        forall|i: int|
            0 <= i < self.activity.len() && (#[trigger] self.activity[i]).hold_id == hold_id
                ==> self.activity[i].row.activity_id < activity_id
    }

    /// Whether an activity event was appended, with an identifier larger than
    /// all before it of its hold.
    pub open spec fn appends(self, entry: ActivityEntry, after: Tables) -> bool {
        &&& after == Tables { activity: self.activity.push(entry), ..self }
        &&& self.is_next_event(entry.hold_id, entry.row.activity_id)
    }
}

/// The first items of a list, or all of them.
pub open spec fn first<A>(items: Seq<A>, limit: int) -> Seq<A> {
    if items.len() > limit {
        items.take(limit)
    } else {
        items
    }
}

/// Whether a row is read as it is stored, or cannot be decoded.
pub open spec fn is_read(row: Option<HoldRowModel>, read: Option<StoredHoldModel>) -> bool {
    match (row, read) {
        (None, None) => true,
        (Some(row), Some(StoredHoldModel::Decoded(decoded))) => decoded == row,
        (Some(_), Some(StoredHoldModel::Undecodable(_))) => true,
        _ => false,
    }
}

/// Whether rows are read as they are stored: all of them, or those before the
/// first that cannot be decoded.
pub open spec fn are_read<A>(stored: Seq<A>, rows: Seq<A>, fault: Option<Text>) -> bool {
    match fault {
        None => rows == stored,
        Some(_) => rows.len() < stored.len() && rows == stored.take(rows.len() as int),
    }
}

/// Whether identifiers are read as they are stored, each where it can be decoded.
pub open spec fn ids_are_read(stored: Seq<Text>, found: Seq<Option<Text>>) -> bool {
    &&& found.len() == stored.len()
    &&& forall|i: int|
        0 <= i < found.len() ==> ((#[trigger] found[i]) matches Some(id) ==> id == stored[i])
}

/// The row of a new hold.
pub open spec fn new_hold(
    organization_id: Text,
    hold_id: Text,
    title: Text,
    reason: Text,
    legal_authority: Text,
    created_by: Text,
    now: int,
) -> HoldRowModel {
    HoldRowModel {
        organization_id,
        hold_id,
        title,
        reason,
        legal_authority,
        status: ACTIVE@,
        revision: 1,
        created_by,
        created_at: now,
        released_by: None,
        released_at: None,
        release_reason: None,
    }
}

/// The row of a hold at its next revision.
pub open spec fn advanced(row: HoldRowModel) -> HoldRowModel {
    HoldRowModel { revision: row.revision + 1, ..row }
}

/// The row of a released hold.
pub open spec fn released(
    row: HoldRowModel,
    released_by: Text,
    release_reason: Text,
    now: int,
) -> HoldRowModel {
    HoldRowModel {
        status: RELEASED@,
        revision: row.revision + 1,
        released_by: Some(released_by),
        released_at: Some(now),
        release_reason: Some(release_reason),
        ..row
    }
}

/// A reply that says that the statement was not carried out, or that what it
/// read cannot be used.
pub open spec fn is_failure(reply: ReplyModel) -> bool {
    reply is NotPrepared || reply is Failed || reply is Undecodable || reply is Unserializable
}

/// A reply with a stored value that cannot be decoded.
pub open spec fn is_partial(reply: ReplyModel) -> bool {
    match reply {
        ReplyModel::Hold(stored) => stored matches Some(StoredHoldModel::Undecodable(_)),
        ReplyModel::Scopes(_, fault) => fault is Some,
        ReplyModel::HoldIds(ids) => exists|i: int|
            0 <= i < ids.len() && (#[trigger] ids[i]) is None,
        ReplyModel::Activity(_, fault) => fault is Some,
        _ => false,
    }
}

/// A reply that does not give what its statement was for.
pub open spec fn falls_short(reply: ReplyModel) -> bool {
    is_failure(reply) || is_partial(reply)
}

/// What a statement inside a transaction may do to its working copy, and reply.
pub open spec fn works(
    order: TextOrder,
    before: Tables,
    statement: StatementModel,
    now: int,
    reply: ReplyModel,
    after: Tables,
) -> bool {
    match statement {
        StatementModel::ReadReceipt { caller, actor, operation, idempotency_key } => {
            &&& reply == ReplyModel::Receipt(
                lookup(before.receipts, ReceiptKey { caller, actor, operation, idempotency_key }),
            )
            &&& after == before
        },
        StatementModel::InsertHold {
            hold_id,
            organization_id,
            title,
            reason,
            legal_authority,
            created_by,
        } => if before.holds.contains_key(hold_id) {
            reply == ReplyModel::Affected(0) && after == before
        } else {
            &&& reply == ReplyModel::Affected(1)
            &&& after == before.with_hold(
                hold_id,
                new_hold(
                    organization_id,
                    hold_id,
                    title,
                    reason,
                    legal_authority,
                    created_by,
                    now,
                ),
            )
        },
        StatementModel::LockHold { organization_id, hold_id } => {
            &&& reply == ReplyModel::Locked(
                match before.hold(organization_id, hold_id) {
                    Some(row) => Some(
                        LockedHoldModel { status: row.status, revision: row.revision },
                    ),
                    None => None,
                },
            )
            &&& after == before
        },
        StatementModel::InsertScope { hold_id, scope_kind, scope_id, subject, created_by } => {
            let key = ScopeKey { hold_id, scope_kind, scope_id, subject };
            if before.scopes.contains_key(key) {
                reply == ReplyModel::Affected(0) && after == before
            } else {
                &&& reply == ReplyModel::Affected(1)
                &&& after == Tables {
                    scopes: before.scopes.insert(key, ScopeEntry { created_by, created_at: now }),
                    ..before
                }
            }
        },
        StatementModel::DeleteScope { hold_id, scope_kind, scope_id, subject } => {
            let key = ScopeKey { hold_id, scope_kind, scope_id, subject };
            if before.scopes.contains_key(key) {
                &&& reply == ReplyModel::Affected(1)
                &&& after == Tables { scopes: before.scopes.remove(key), ..before }
            } else {
                reply == ReplyModel::Affected(0) && after == before
            }
        },
        StatementModel::AdvanceRevision { hold_id } => if before.holds.contains_key(hold_id) {
            &&& reply == ReplyModel::Affected(1)
            &&& after == before.with_hold(hold_id, advanced(before.holds[hold_id]))
        } else {
            reply == ReplyModel::Affected(0) && after == before
        },
        StatementModel::MarkReleased { hold_id, released_by, release_reason } =>
            if before.holds.contains_key(hold_id) {
            &&& reply == ReplyModel::Affected(1)
            &&& after == before.with_hold(
                hold_id,
                released(before.holds[hold_id], released_by, release_reason, now),
            )
        } else {
            reply == ReplyModel::Affected(0) && after == before
        },
        StatementModel::AppendActivity { organization_id, hold_id, kind, actor_subject, payload } =>
            {
            &&& reply == ReplyModel::Affected(1)
            &&& after.activity.len() == before.activity.len() + 1
            &&& before.appends(
                ActivityEntry {
                    organization_id,
                    hold_id,
                    row: ActivityRowModel {
                        activity_id: after.activity.last().row.activity_id,
                        kind,
                        actor_subject,
                        payload,
                        created_at: now,
                    },
                },
                after,
            )
        },
        StatementModel::ReadHold { organization_id, hold_id } => {
            &&& reply matches ReplyModel::Hold(stored)
            &&& is_read(before.hold(organization_id, hold_id), stored)
            &&& after == before
        },
        StatementModel::ReadScopes { hold_id } => {
            &&& reply matches ReplyModel::Scopes(rows, fault)
            &&& before.reads_scopes(order, hold_id, rows, fault)
            &&& after == before
        },
        StatementModel::StoreReceipt {
            caller,
            actor,
            operation,
            idempotency_key,
            request_hash,
            response,
        } => {
            let key = ReceiptKey { caller, actor, operation, idempotency_key };
            &&& !before.receipts.contains_key(key)
            &&& reply == ReplyModel::Affected(1)
            &&& after == Tables {
                receipts: before.receipts.insert(
                    key,
                    ReceiptModel { request_hash, response: Ok(response) },
                ),
                ..before
            }
        },
        StatementModel::ListHoldIds { organization_id, status, cursor, limit } => {
            &&& after == before
            &&& exists|ids: Seq<Text>|
                #![trigger before.lists_holds(order, organization_id, status, cursor, ids)]
                before.lists_holds(order, organization_id, status, cursor, ids) && (
                reply matches ReplyModel::HoldIds(found) && ids_are_read(first(ids, limit), found))
        },
        StatementModel::ListActivity { organization_id, hold_id, after: cursor, limit } => {
            &&& after == before
            &&& reply matches ReplyModel::Activity(rows, fault)
            &&& are_read(
                first(before.activity_after(organization_id, hold_id, cursor), limit),
                rows,
                fault,
            )
        },
        StatementModel::MatchHolds { scope_kind, scope_id, subject } => {
            &&& reply matches ReplyModel::Matches(rows)
            &&& before.lists_matches(order, scope_kind, scope_id, subject, rows)
            &&& after == before
        },
        StatementModel::StoreDecision {
            decision_id,
            action_id,
            caller_instance,
            request_hash,
            allowed,
            reason_code,
            matching_holds,
        } => if before.decisions.contains_key(decision_id) {
            reply == ReplyModel::Affected(0) && after == before
        } else {
            &&& reply == ReplyModel::Affected(1)
            &&& after == Tables {
                decisions: before.decisions.insert(
                    decision_id,
                    DecisionEntry {
                        action_id,
                        caller_instance,
                        request_hash,
                        allowed,
                        reason_code,
                        matching_holds,
                    },
                ),
                ..before
            }
        },
        StatementModel::Begin => false,
        StatementModel::Commit => false,
    }
}

/// What a statement of a transaction may do to the database, and reply. Whether
/// a commit that failed took effect is not known.
pub open spec fn executes(
    order: TextOrder,
    before: Database,
    statement: StatementModel,
    now: int,
    reply: ReplyModel,
    after: Database,
) -> bool {
    match statement {
        StatementModel::Begin => if is_failure(reply) {
            after == before
        } else {
            &&& reply == ReplyModel::Done
            &&& after == Database { durable: before.durable, working: before.durable }
        },
        StatementModel::Commit => if is_failure(reply) {
            after.durable == before.durable || after.durable == before.working
        } else {
            &&& reply == ReplyModel::Done
            &&& after == Database { durable: before.working, working: before.working }
        },
        _ => if is_failure(reply) {
            after == before
        } else {
            &&& works(order, before.working, statement, now, reply, after.working)
            &&& after.durable == before.durable
        },
    }
}

/// What a statement outside a transaction may do to the tables, and reply.
/// Whether one that failed took effect is not known.
pub open spec fn executes_alone(
    order: TextOrder,
    before: Tables,
    statement: StatementModel,
    now: int,
    reply: ReplyModel,
    after: Tables,
) -> bool {
    if is_failure(reply) {
        after == before || exists|lost: ReplyModel|
            #[trigger] works(order, before, statement, now, lost, after)
    } else {
        works(order, before, statement, now, reply, after)
    }
}

/// What holds of the tables at all times: rows are kept under their identifier,
/// a hold is active or released and only a released one says by whom, when and
/// why, revisions are positive, scopes belong to holds, and the activity
/// identifiers of a hold grow.
pub open spec fn tables_are_valid(tables: Tables) -> bool {
    &&& forall|hold_id: Text| #[trigger]
        tables.holds.contains_key(hold_id) ==> hold_is_valid(hold_id, tables.holds[hold_id])
    &&& forall|key: ScopeKey| #[trigger]
        tables.scopes.contains_key(key) ==> tables.holds.contains_key(key.hold_id)
    &&& forall|i: int, j: int|
        0 <= i < j < tables.activity.len() && (#[trigger] tables.activity[i]).hold_id == (
        #[trigger] tables.activity[j]).hold_id ==> tables.activity[i].row.activity_id
            < tables.activity[j].row.activity_id
}

/// What holds of a hold row at all times.
pub open spec fn hold_is_valid(hold_id: Text, row: HoldRowModel) -> bool {
    &&& row.hold_id == hold_id
    &&& row.revision >= 1
    &&& row.status == ACTIVE@ || row.status == RELEASED@
    &&& row.released_by is Some <==> row.status == RELEASED@
    &&& row.released_at is Some <==> row.status == RELEASED@
    &&& row.release_reason is Some <==> row.status == RELEASED@
}

/// Whether every stored instant of a hold, a scope or an event has a text.
pub open spec fn times_have_text(tables: Tables) -> bool {
    &&& forall|hold_id: Text| #[trigger]
        tables.holds.contains_key(hold_id) ==> {
            &&& rfc3339(tables.holds[hold_id].created_at) is Ok
            &&& presented_instant(tables.holds[hold_id].released_at) is Ok
        }
    &&& forall|key: ScopeKey| #[trigger]
        tables.scopes.contains_key(key) ==> rfc3339(tables.scopes[key].created_at) is Ok
    &&& forall|i: int|
        0 <= i < tables.activity.len() ==> rfc3339(
            (#[trigger] tables.activity[i]).row.created_at,
        ) is Ok
}

proof fn lemma_scope_order_is_total(order: TextOrder)
    requires
        total_ordering(order),
    ensures
        total_ordering(scope_order(order)),
{
}

proof fn lemma_matching_order_is_total(order: TextOrder)
    requires
        total_ordering(order),
    ensures
        total_ordering(matching_order(order)),
{
}

/// The scopes of a hold have one listing.
pub proof fn scope_listing_is_unique(
    order: TextOrder,
    tables: Tables,
    hold_id: Text,
    left: Seq<ScopeRowModel>,
    right: Seq<ScopeRowModel>,
)
    requires
        total_ordering(order),
        tables.lists_scopes(order, hold_id, left),
        tables.lists_scopes(order, hold_id, right),
    ensures
        left == right,
{
    lemma_scope_order_is_total(order);
    assert(left.to_multiset() =~= right.to_multiset());
    vstd::seq_lib::lemma_sorted_unique(left, right, scope_order(order));
}

/// A listing of holds is one sequence of identifiers.
pub proof fn hold_listing_is_unique(
    order: TextOrder,
    tables: Tables,
    organization_id: Text,
    status: Option<Text>,
    cursor: Option<Text>,
    left: Seq<Text>,
    right: Seq<Text>,
)
    requires
        total_ordering(order),
        tables.lists_holds(order, organization_id, status, cursor, left),
        tables.lists_holds(order, organization_id, status, cursor, right),
    ensures
        left == right,
{
    assert(left.to_multiset() =~= right.to_multiset());
    vstd::seq_lib::lemma_sorted_unique(left, right, order);
}

/// The holds that cover a subject have one listing.
pub proof fn matching_listing_is_unique(
    order: TextOrder,
    tables: Tables,
    scope_kind: Text,
    scope_id: Text,
    subject: Text,
    left: Seq<MatchingHoldModel>,
    right: Seq<MatchingHoldModel>,
)
    requires
        total_ordering(order),
        tables.lists_matches(order, scope_kind, scope_id, subject, left),
        tables.lists_matches(order, scope_kind, scope_id, subject, right),
    ensures
        left == right,
{
    lemma_matching_order_is_total(order);
    assert(left.to_multiset() =~= right.to_multiset());
    vstd::seq_lib::lemma_sorted_unique(left, right, matching_order(order));
}

} // verus!
