//! What holds of pages: they are bounded, and one takes up where the last ended.
use vstd::prelude::*;
use vstd::relations::total_ordering;
use crate::hold::{
    presented_activity, presented_hold, presented_scopes, ActivityModel, ActivityRowModel,
    HoldModel, ScopeRowModel,
};
use crate::query::{
    cursor_after, get_hold_next, hold_page, list_activity_next, list_holds_next, ActivityPageModel,
    GetHoldModel, GetHoldPhaseModel, GetHoldStepModel, HoldPageModel, ListActivityModel,
    ListActivityPhaseModel, ListActivityStepModel, ListHoldsModel, ListHoldsPhaseModel,
    ListHoldsStepModel, PageProgressModel,
};
use crate::statement::{DomainFailure, ReplyModel, StatementModel, StorageErrorModel};
use crate::tables::{
    executes, executes_alone, falls_short, first, hold_listing_is_unique, ids_are_read, is_failure,
    is_partial, is_read, scope_key, scope_listing_is_unique, tables_are_valid, times_have_text,
    ActivityEntry, Database, Tables, TextOrder,
};
use crate::text::Text;
use crate::timestamp::rfc3339;
use crate::transaction::{awaited_by_read, is_stored, Exchange};

verus! {

/// The rows of a hold's events after a cursor.
spec fn rows_after(
    entries: Seq<ActivityEntry>,
    organization_id: Text,
    hold_id: Text,
    after: int,
) -> Seq<ActivityRowModel> {
    entries.filter(
        |entry: ActivityEntry|
            entry.organization_id == organization_id && entry.hold_id == hold_id
                && entry.row.activity_id > after,
    ).map_values(|entry: ActivityEntry| entry.row)
}

spec fn ids_grow(entries: Seq<ActivityEntry>) -> bool {
    forall|i: int, j: int|
        0 <= i < j < entries.len() && (#[trigger] entries[i]).hold_id == (
        #[trigger] entries[j]).hold_id ==> entries[i].row.activity_id < entries[j].row.activity_id
}

proof fn lemma_one_more_entry(
    entries: Seq<ActivityEntry>,
    organization_id: Text,
    hold_id: Text,
    after: int,
)
    requires
        entries.len() > 0,
    ensures
        rows_after(entries, organization_id, hold_id, after) == {
            let earlier = rows_after(entries.drop_last(), organization_id, hold_id, after);
            let entry = entries.last();
            if entry.organization_id == organization_id && entry.hold_id == hold_id
                && entry.row.activity_id > after {
                earlier.push(entry.row)
            } else {
                earlier
            }
        },
{
    reveal(Seq::filter);
    assert(rows_after(entries, organization_id, hold_id, after) =~= {
        let earlier = rows_after(entries.drop_last(), organization_id, hold_id, after);
        let entry = entries.last();
        if entry.organization_id == organization_id && entry.hold_id == hold_id
            && entry.row.activity_id > after {
            earlier.push(entry.row)
        } else {
            earlier
        }
    });
}

proof fn lemma_rows_come_before(
    entries: Seq<ActivityEntry>,
    organization_id: Text,
    hold_id: Text,
    after: int,
    bound: int,
)
    requires
        forall|i: int|
            0 <= i < entries.len() && (#[trigger] entries[i]).hold_id == hold_id
                ==> entries[i].row.activity_id < bound,
    ensures
        forall|i: int|
            0 <= i < rows_after(entries, organization_id, hold_id, after).len() ==> (
            #[trigger] rows_after(entries, organization_id, hold_id, after)[i]).activity_id < bound,
    decreases entries.len(),
{
    if entries.len() == 0 {
        reveal(Seq::filter);
    } else {
        lemma_one_more_entry(entries, organization_id, hold_id, after);
        assert(entries[entries.len() - 1] == entries.last());
        lemma_rows_come_before(entries.drop_last(), organization_id, hold_id, after, bound);
    }
}

/// Rows after a later cursor are the end of those after an earlier one.
proof fn lemma_later_rows_are_a_suffix(
    entries: Seq<ActivityEntry>,
    organization_id: Text,
    hold_id: Text,
    after: int,
    cursor: int,
) -> (skipped: int)
    requires
        ids_grow(entries),
        after <= cursor,
    ensures
        ({
            let rows = rows_after(entries, organization_id, hold_id, after);
            &&& 0 <= skipped <= rows.len()
            &&& rows_after(entries, organization_id, hold_id, cursor) == rows.skip(skipped)
            &&& forall|i: int| 0 <= i < skipped ==> (#[trigger] rows[i]).activity_id <= cursor
            &&& forall|i: int|
                skipped <= i < rows.len() ==> (#[trigger] rows[i]).activity_id > cursor
            &&& forall|i: int, j: int|
                0 <= i < j < rows.len() ==> (#[trigger] rows[i]).activity_id < (
                #[trigger] rows[j]).activity_id
        }),
    decreases entries.len(),
{
    let rows = rows_after(entries, organization_id, hold_id, after);
    let later = rows_after(entries, organization_id, hold_id, cursor);
    if entries.len() == 0 {
        reveal(Seq::filter);
        assert(later == rows.skip(0));
        0
    } else {
        let earlier = entries.drop_last();
        lemma_one_more_entry(entries, organization_id, hold_id, after);
        lemma_one_more_entry(entries, organization_id, hold_id, cursor);
        let skipped = lemma_later_rows_are_a_suffix(
            earlier,
            organization_id,
            hold_id,
            after,
            cursor,
        );
        let entry = entries.last();
        let old_rows = rows_after(earlier, organization_id, hold_id, after);
        let matches = entry.organization_id == organization_id && entry.hold_id == hold_id;
        if matches {
            assert forall|i: int|
                0 <= i < earlier.len() && (
                #[trigger] earlier[i]).hold_id == hold_id implies earlier[i].row.activity_id
                < entry.row.activity_id by {
                assert(entries[i].row.activity_id < entries[entries.len() - 1].row.activity_id);
            }
            lemma_rows_come_before(
                earlier,
                organization_id,
                hold_id,
                after,
                entry.row.activity_id,
            );
        }
        if matches && entry.row.activity_id > after && entry.row.activity_id <= cursor {
            assert(skipped == old_rows.len()) by {
                if skipped < old_rows.len() {
                    assert(old_rows[skipped].activity_id > cursor);
                }
            }
            assert(later == rows.skip(skipped + 1));
            skipped + 1
        } else {
            assert(later == rows.skip(skipped));
            skipped
        }
    }
}

/// Two pages of activity in a row, the second from where the first ended, are
/// one larger page: no event is missed and none comes twice.
pub proof fn activity_pages_follow_on(
    tables: Tables,
    organization_id: Text,
    hold_id: Text,
    after: int,
    limit: int,
    next_limit: int,
)
    requires
        tables_are_valid(tables),
        limit >= 1,
        next_limit >= 1,
    ensures
        ({
            let page = first(tables.activity_after(organization_id, hold_id, after), limit);
            let next = first(
                tables.activity_after(organization_id, hold_id, cursor_after(page, after)),
                next_limit,
            );
            page + next == first(
                tables.activity_after(organization_id, hold_id, after),
                limit + next_limit,
            )
        }),
{
    let rows = tables.activity_after(organization_id, hold_id, after);
    let page = first(rows, limit);
    let cursor = cursor_after(page, after);
    let rest = tables.activity_after(organization_id, hold_id, cursor);
    assert(rows == rows_after(tables.activity, organization_id, hold_id, after));
    assert(rest == rows_after(tables.activity, organization_id, hold_id, cursor));
    let same = lemma_later_rows_are_a_suffix(
        tables.activity,
        organization_id,
        hold_id,
        after,
        after,
    );
    assert(same == 0 || rows[0].activity_id <= after) by {
        if same > 0 {
            assert(rows[0].activity_id <= after);
        }
    }
    if page.len() == 0 {
        assert(page + first(rest, next_limit) =~= first(rows, limit + next_limit));
    } else {
        assert(page.last() == rows[page.len() - 1]);
        lemma_rows_come_after(tables.activity, organization_id, hold_id, after);
        assert(cursor > after);
        let skipped = lemma_later_rows_are_a_suffix(
            tables.activity,
            organization_id,
            hold_id,
            after,
            cursor,
        );
        assert(skipped == page.len()) by {
            if skipped > page.len() {
                assert(rows[page.len() as int].activity_id <= cursor);
            }
            if skipped < page.len() {
                assert(rows[page.len() - 1].activity_id > cursor);
            }
        }
        assert(page + first(rest, next_limit) =~= first(rows, limit + next_limit));
    }
}

proof fn lemma_rows_come_after(
    entries: Seq<ActivityEntry>,
    organization_id: Text,
    hold_id: Text,
    after: int,
)
    ensures
        forall|i: int|
            0 <= i < rows_after(entries, organization_id, hold_id, after).len() ==> (
            #[trigger] rows_after(entries, organization_id, hold_id, after)[i]).activity_id > after,
    decreases entries.len(),
{
    if entries.len() == 0 {
        reveal(Seq::filter);
    } else {
        lemma_one_more_entry(entries, organization_id, hold_id, after);
        lemma_rows_come_after(entries.drop_last(), organization_id, hold_id, after);
    }
}

/// What follows a page of a listing of holds, from its last identifier on, is the
/// rest of the listing.
pub proof fn hold_pages_follow_on(
    order: TextOrder,
    tables: Tables,
    organization_id: Text,
    status: Option<Text>,
    cursor: Option<Text>,
    ids: Seq<Text>,
    limit: int,
    rest: Seq<Text>,
)
    requires
        total_ordering(order),
        tables.lists_holds(order, organization_id, status, cursor, ids),
        1 <= limit <= ids.len(),
        tables.lists_holds(order, organization_id, status, Some(ids[limit - 1]), rest),
    ensures
        ids.take(limit) + rest == ids,
{
    broadcast use vstd::multiset::group_multiset_axioms;

    let last = ids[limit - 1];
    let tail = ids.skip(limit);
    ids.to_multiset_ensures();
    tail.to_multiset_ensures();
    lemma_listing_repeats_nothing(order, tables, organization_id, status, cursor, ids);
    assert forall|i: int, j: int| 0 <= i < j < tail.len() implies #[trigger] order(
        tail[i],
        tail[j],
    ) by {
        assert(order(ids[i + limit], ids[j + limit]));
    }
    assert(ids.contains(last));
    assert(tables.is_listed(order, organization_id, status, cursor, last)) by {
        assert(ids.to_multiset().count(last) > 0);
    }
    assert forall|id: Text|
        tail.to_multiset().count(id) == #[trigger] rest.to_multiset().count(id) by {
        let listed = tables.is_listed(order, organization_id, status, cursor, id);
        let follows = tables.is_listed(order, organization_id, status, Some(last), id);
        assert(listed == ids.contains(id)) by {
            assert(ids.to_multiset().count(id) == if listed {
                1nat
            } else {
                0
            });
        }
        if follows {
            if let Some(cursor) = cursor {
                assert(order(cursor, last) && order(last, id));
            }
            assert(listed);
            let at = choose|at: int| 0 <= at < ids.len() && ids[at] == id;
            if at < limit - 1 {
                assert(order(ids[at], ids[limit - 1]));
            }
            assert(at >= limit);
            assert(tail[at - limit] == id);
            assert(tail.contains(id));
        }
        if tail.contains(id) {
            let at = choose|at: int| 0 <= at < tail.len() && tail[at] == id;
            assert(ids[at + limit] == id);
            assert(order(ids[limit - 1], ids[at + limit]));
            assert(ids.contains(id));
            assert(follows);
        }
        lemma_no_duplicates_count_once(tail, id);
    }
    assert(tail.to_multiset() =~= rest.to_multiset());
    vstd::seq_lib::lemma_sorted_unique(tail, rest, order);
    assert(ids.take(limit) + rest == ids);
}

proof fn lemma_no_duplicates_count_once(items: Seq<Text>, item: Text)
    requires
        items.no_duplicates(),
    ensures
        items.to_multiset().count(item) == if items.contains(item) {
            1nat
        } else {
            0
        },
{
    items.to_multiset_ensures();
    items.lemma_multiset_has_no_duplicates();
}

/// A listing names no hold twice.
pub(crate) proof fn lemma_listing_repeats_nothing(
    order: TextOrder,
    tables: Tables,
    organization_id: Text,
    status: Option<Text>,
    cursor: Option<Text>,
    ids: Seq<Text>,
)
    requires
        tables.lists_holds(order, organization_id, status, cursor, ids),
    ensures
        ids.no_duplicates(),
{
    broadcast use {
        vstd::multiset::group_multiset_axioms,
        vstd::multiset::group_multiset_properties,
    };

    ids.to_multiset_ensures();
    assert forall|i: int, j: int| 0 <= i < ids.len() && 0 <= j < ids.len() && i != j implies ids[i]
        != ids[j] by {
        if ids[i] == ids[j] {
            let id = ids[i];
            let others = ids.remove(i);
            others.to_multiset_ensures();
            assert(others.to_multiset() == ids.to_multiset().remove(id));
            if j < i {
                assert(others[j] == id);
            } else {
                assert(others[j - 1] == id);
            }
            assert(others.contains(id));
            assert(others.to_multiset().count(id) > 0);
            assert(ids.to_multiset().count(id) == others.to_multiset().count(id) + 1);
        }
    }
}

/// Where the listing of holds stands after replies.
pub open spec fn list_holds_after(
    query: ListHoldsModel,
    replies: Seq<ReplyModel>,
) -> ListHoldsStepModel
    decreases replies.len(),
{
    if replies.len() == 0 {
        ListHoldsStepModel::Run(ListHoldsPhaseModel::Ids, query.list_ids())
    } else {
        match list_holds_after(query, replies.drop_last()) {
            ListHoldsStepModel::Run(phase, _) => list_holds_next(query, phase, replies.last()),
            ListHoldsStepModel::Finished(outcome) => ListHoldsStepModel::Finished(outcome),
        }
    }
}

/// What is known of a page that is being loaded.
spec fn page_is_on_course(
    query: ListHoldsModel,
    found: Seq<Option<Text>>,
    progress: PageProgressModel,
) -> bool {
    &&& progress.ids == first(found, query.limit)
    &&& progress.has_more == (found.len() > query.limit)
    &&& progress.loaded.len() <= progress.ids.len()
}

/// What is known of a finished page.
spec fn page_is_complete(
    query: ListHoldsModel,
    found: Seq<Option<Text>>,
    page: HoldPageModel,
) -> bool {
    &&& page.holds.len() == first(found, query.limit).len()
    &&& page.next_cursor == if found.len() > query.limit {
        Some(page.holds.last().hold_id)
    } else {
        None
    }
}

proof fn lemma_listing_is_on_course(query: ListHoldsModel, replies: Seq<ReplyModel>)
    requires
        query.limit >= 1,
    ensures
        match list_holds_after(query, replies) {
            ListHoldsStepModel::Run(ListHoldsPhaseModel::Ids, _) => replies.len() == 0,
            ListHoldsStepModel::Run(ListHoldsPhaseModel::Holds(progress), _) => {
                &&& replies.len() > 0
                &&& replies[0] is HoldIds
                &&& page_is_on_course(query, replies[0]->HoldIds_0, progress)
            },
            ListHoldsStepModel::Finished(Ok(page)) => {
                &&& replies.len() > 0
                &&& replies[0] is HoldIds
                &&& page_is_complete(query, replies[0]->HoldIds_0, page)
            },
            ListHoldsStepModel::Finished(Err(_)) => true,
        },
    decreases replies.len(),
{
    if replies.len() > 0 {
        let earlier = replies.drop_last();
        lemma_listing_is_on_course(query, earlier);
        if earlier.len() > 0 {
            assert(replies[0] == earlier[0]);
        }
    }
}

/// A page of holds is no larger than was asked for. It has as many holds as were
/// found, up to that; and it says where the next page starts, after its last
/// hold, exactly when more were found.
pub proof fn hold_pages_are_bounded(
    query: ListHoldsModel,
    replies: Seq<ReplyModel>,
    page: HoldPageModel,
)
    requires
        query.limit >= 1,
        list_holds_after(query, replies) == ListHoldsStepModel::Finished(Ok(page)),
    ensures
        replies.len() > 0,
        replies[0] matches ReplyModel::HoldIds(found) && {
            &&& page.holds.len() <= query.limit
            &&& page.holds.len() == first(found, query.limit).len()
            &&& page.next_cursor == if found.len() > query.limit {
                Some(page.holds.last().hold_id)
            } else {
                None
            }
        },
{
    lemma_listing_is_on_course(query, replies);
}

/// Whether exchanges are a listing of holds from a phase to its end. Identifiers
/// are listed outside a transaction, and each hold is read in one.
pub open spec fn list_holds_runs(
    order: TextOrder,
    query: ListHoldsModel,
    now: int,
    phase: ListHoldsPhaseModel,
    statement: StatementModel,
    before: Database,
    exchanges: Seq<Exchange>,
    outcome: Result<HoldPageModel, StorageErrorModel>,
    after: Tables,
) -> bool
    decreases exchanges.len(),
{
    &&& exchanges.len() > 0
    &&& if phase is Ids {
        executes_alone(
            order,
            before.durable,
            statement,
            now,
            exchanges[0].reply,
            exchanges[0].after.durable,
        )
    } else {
        executes(order, before, statement, now, exchanges[0].reply, exchanges[0].after)
    }
    &&& match list_holds_next(query, phase, exchanges[0].reply) {
        ListHoldsStepModel::Run(next_phase, next_statement) => list_holds_runs(
            order,
            query,
            now,
            next_phase,
            next_statement,
            exchanges[0].after,
            exchanges.drop_first(),
            outcome,
            after,
        ),
        ListHoldsStepModel::Finished(result) => {
            &&& exchanges.len() == 1
            &&& outcome == result
            &&& after == exchanges[0].after.durable
        },
    }
}

/// Whether a listing of holds may have an outcome and leave tables.
pub open spec fn list_holds_leads(
    order: TextOrder,
    query: ListHoldsModel,
    now: int,
    before: Tables,
    outcome: Result<HoldPageModel, StorageErrorModel>,
    after: Tables,
) -> bool {
    exists|idle: Tables, exchanges: Seq<Exchange>| #[trigger]
        list_holds_runs(
            order,
            query,
            now,
            ListHoldsPhaseModel::Ids,
            query.list_ids(),
            Database { durable: before, working: idle },
            exchanges,
            outcome,
            after,
        )
}

/// Whether holds are what the tables hold under identifiers, in order.
pub open spec fn are_stored(
    order: TextOrder,
    tables: Tables,
    organization_id: Text,
    ids: Seq<Text>,
    holds: Seq<HoldModel>,
) -> bool {
    &&& holds.len() <= ids.len()
    &&& forall|i: int|
        #![trigger holds[i]]
        0 <= i < holds.len() ==> is_stored(order, tables, organization_id, ids[i], holds[i])
}

/// Whether a statement among exchanges failed, or did not give what it was for.
pub open spec fn something_failed(exchanges: Seq<Exchange>) -> bool {
    exists|i: int| 0 <= i < exchanges.len() && falls_short((#[trigger] exchanges[i]).reply)
}

proof fn lemma_failures_stay(exchanges: Seq<Exchange>)
    requires
        exchanges.len() > 0,
    ensures
        falls_short(exchanges[0].reply) ==> something_failed(exchanges),
        something_failed(exchanges.drop_first()) ==> something_failed(exchanges),
{
    let further = exchanges.drop_first();
    if something_failed(further) {
        let at = choose|i: int|
            0 <= i < further.len() && falls_short((#[trigger] further[i]).reply);
        assert(exchanges[at + 1] == further[at]);
    }
}

proof fn lemma_scopes_have_text(rows: Seq<ScopeRowModel>)
    requires
        forall|i: int| 0 <= i < rows.len() ==> rfc3339((#[trigger] rows[i]).created_at) is Ok,
    ensures
        presented_scopes(rows) is Ok,
    decreases rows.len(),
{
    if rows.len() > 0 {
        lemma_scopes_have_text(rows.drop_last());
        assert(rows[rows.len() - 1] == rows.last());
    }
}

proof fn lemma_stored_holds_have_text(
    order: TextOrder,
    tables: Tables,
    organization_id: Text,
    hold_id: Text,
    rows: Seq<ScopeRowModel>,
)
    requires
        times_have_text(tables),
        tables.hold(organization_id, hold_id) is Some,
        tables.lists_scopes(order, hold_id, rows),
    ensures
        presented_hold(tables.holds[hold_id], rows) is Ok,
{
    rows.to_multiset_ensures();
    assert forall|i: int| 0 <= i < rows.len() implies rfc3339(
        (#[trigger] rows[i]).created_at,
    ) is Ok by {
        assert(rows.contains(rows[i]));
        assert(rows.to_multiset().count(rows[i]) > 0);
        let key = scope_key(hold_id, rows[i]);
        assert(tables.scopes.contains_key(key));
    }
    lemma_scopes_have_text(rows);
    assert(tables.holds.contains_key(hold_id));
}

proof fn lemma_events_have_text(rows: Seq<ActivityRowModel>)
    requires
        forall|i: int| 0 <= i < rows.len() ==> rfc3339((#[trigger] rows[i]).created_at) is Ok,
    ensures
        presented_activity(rows) is Ok,
    decreases rows.len(),
{
    if rows.len() > 0 {
        lemma_events_have_text(rows.drop_last());
        assert(rows[rows.len() - 1] == rows.last());
    }
}

proof fn lemma_stored_events_have_text(
    entries: Seq<ActivityEntry>,
    organization_id: Text,
    hold_id: Text,
    after: int,
)
    requires
        forall|i: int|
            0 <= i < entries.len() ==> rfc3339((#[trigger] entries[i]).row.created_at) is Ok,
    ensures
        forall|i: int|
            0 <= i < rows_after(entries, organization_id, hold_id, after).len() ==> rfc3339(
                (#[trigger] rows_after(entries, organization_id, hold_id, after)[i]).created_at,
            ) is Ok,
    decreases entries.len(),
{
    if entries.len() == 0 {
        reveal(Seq::filter);
    } else {
        lemma_one_more_entry(entries, organization_id, hold_id, after);
        assert(entries[entries.len() - 1] == entries.last());
        lemma_stored_events_have_text(entries.drop_last(), organization_id, hold_id, after);
    }
}

/// What is known of a hold that is being read.
spec fn reading(
    order: TextOrder,
    query: GetHoldModel,
    phase: GetHoldPhaseModel,
    before: Database,
) -> bool {
    match phase {
        GetHoldPhaseModel::Begin => true,
        GetHoldPhaseModel::Hold => before.working == before.durable,
        GetHoldPhaseModel::Scopes(stored) => {
            &&& before.working == before.durable
            &&& is_read(before.durable.hold(query.organization_id, query.hold_id), Some(stored))
        },
        GetHoldPhaseModel::Commit(hold) => {
            &&& before.working == before.durable
            &&& is_stored(order, before.durable, query.organization_id, query.hold_id, hold)
        },
    }
}

/// Whether the row of a hold that is being read could not be decoded.
spec fn is_cut_short(phase: GetHoldPhaseModel) -> bool {
    phase matches GetHoldPhaseModel::Scopes(stored) && stored is Undecodable
}

/// One exchange of the read of a hold.
proof fn lemma_read_goes_on(
    order: TextOrder,
    query: GetHoldModel,
    now: int,
    phase: GetHoldPhaseModel,
    before: Database,
    reply: ReplyModel,
    next: Database,
)
    requires
        reading(order, query, phase, before),
        executes(order, before, awaited_by_read(query, phase), now, reply, next),
    ensures
        next.durable == before.durable,
        match get_hold_next(query, phase, reply) {
            GetHoldStepModel::Run(further, statement) => {
                &&& statement == awaited_by_read(query, further)
                &&& reading(order, query, further, next)
                &&& is_cut_short(further) ==> falls_short(reply)
            },
            GetHoldStepModel::Finished(Ok(hold)) => is_stored(
                order,
                before.durable,
                query.organization_id,
                query.hold_id,
                hold,
            ),
            GetHoldStepModel::Finished(Err(StorageErrorModel::Domain(failure))) => {
                &&& failure == DomainFailure::NotFound
                &&& before.durable.hold(query.organization_id, query.hold_id) is None
            },
            GetHoldStepModel::Finished(Err(_)) => falls_short(reply) || {
                &&& before.durable.hold(query.organization_id, query.hold_id) is Some
                &&& is_cut_short(phase) || !times_have_text(before.durable)
            },
        },
{
    if let GetHoldPhaseModel::Scopes(stored) = phase {
        if !falls_short(reply) {
            let rows = reply->Scopes_0;
            assert(before.durable.lists_scopes(order, query.hold_id, rows));
            if times_have_text(before.durable) {
                lemma_stored_holds_have_text(
                    order,
                    before.durable,
                    query.organization_id,
                    query.hold_id,
                    rows,
                );
            }
        }
    }
}

/// The read of the hold that a listing loads next.
spec fn next_read(
    query: ListHoldsModel,
    ids: Seq<Text>,
    progress: PageProgressModel,
) -> GetHoldModel {
    GetHoldModel {
        organization_id: query.organization_id,
        hold_id: ids[progress.loaded.len() as int],
    }
}

proof fn lemma_page_is_read(
    order: TextOrder,
    query: ListHoldsModel,
    now: int,
    ids: Seq<Text>,
    progress: PageProgressModel,
    before: Database,
    exchanges: Seq<Exchange>,
    outcome: Result<HoldPageModel, StorageErrorModel>,
    after: Tables,
)
    requires
        ids_are_read(ids, progress.ids),
        progress.loaded.len() < ids.len(),
        progress.ids[progress.loaded.len() as int] is Some,
        forall|i: int|
            0 <= i < ids.len() ==> before.durable.hold(
                query.organization_id,
                #[trigger] ids[i],
            ) is Some,
        are_stored(order, before.durable, query.organization_id, ids, progress.loaded),
        reading(order, next_read(query, ids, progress), progress.read, before),
        list_holds_runs(
            order,
            query,
            now,
            ListHoldsPhaseModel::Holds(progress),
            awaited_by_read(next_read(query, ids, progress), progress.read),
            before,
            exchanges,
            outcome,
            after,
        ),
    ensures
        after == before.durable,
        match outcome {
            Ok(page) => {
                &&& are_stored(order, before.durable, query.organization_id, ids, page.holds)
                &&& page.holds.len() == ids.len()
                &&& page == hold_page(page.holds, progress.has_more)
            },
            Err(error) => {
                &&& !(error is Domain)
                &&& something_failed(exchanges) || is_cut_short(progress.read) || is_partial(
                    ReplyModel::HoldIds(progress.ids),
                ) || !times_have_text(before.durable)
            },
        },
    decreases exchanges.len(),
{
    let read = next_read(query, ids, progress);
    let reply = exchanges[0].reply;
    let next = exchanges[0].after;
    assert(progress.ids[progress.loaded.len() as int] == Some(read.hold_id));
    lemma_read_goes_on(order, read, now, progress.read, before, reply, next);
    lemma_failures_stay(exchanges);
    match get_hold_next(read, progress.read, reply) {
        GetHoldStepModel::Run(phase, statement) => {
            let further = PageProgressModel { read: phase, ..progress };
            lemma_page_is_read(
                order,
                query,
                now,
                ids,
                further,
                next,
                exchanges.drop_first(),
                outcome,
                after,
            );
        },
        GetHoldStepModel::Finished(Ok(hold)) => {
            let loaded = progress.loaded.push(hold);
            let further = PageProgressModel {
                loaded,
                read: GetHoldPhaseModel::Begin,
                ..progress
            };
            assert(are_stored(order, before.durable, query.organization_id, ids, loaded));
            if loaded.len() < ids.len() && further.ids[loaded.len() as int] is Some {
                lemma_page_is_read(
                    order,
                    query,
                    now,
                    ids,
                    further,
                    next,
                    exchanges.drop_first(),
                    outcome,
                    after,
                );
            }
        },
        GetHoldStepModel::Finished(Err(_)) => {},
    }
}

/// Whether a page shows the first of a listing, each hold as it is stored, and
/// names the identifier after which the next page starts exactly when the
/// listing goes on.
pub open spec fn shows_listing(
    order: TextOrder,
    query: ListHoldsModel,
    tables: Tables,
    ids: Seq<Text>,
    page: HoldPageModel,
) -> bool {
    &&& tables.lists_holds(order, query.organization_id, query.status, query.cursor, ids)
    &&& page.holds.len() == first(ids, query.limit).len()
    &&& are_stored(order, tables, query.organization_id, first(ids, query.limit), page.holds)
    &&& page.next_cursor == if ids.len() > query.limit {
        Some(ids[query.limit - 1])
    } else {
        None
    }
}

proof fn lemma_listing_ends(
    order: TextOrder,
    query: ListHoldsModel,
    now: int,
    before: Database,
    exchanges: Seq<Exchange>,
    outcome: Result<HoldPageModel, StorageErrorModel>,
    after: Tables,
)
    requires
        query.limit >= 1,
        tables_are_valid(before.durable),
        list_holds_runs(
            order,
            query,
            now,
            ListHoldsPhaseModel::Ids,
            query.list_ids(),
            before,
            exchanges,
            outcome,
            after,
        ),
    ensures
        after == before.durable,
        match outcome {
            Ok(page) => exists|ids: Seq<Text>| #[trigger]
                shows_listing(order, query, before.durable, ids, page),
            Err(error) => {
                &&& !(error is Domain)
                &&& something_failed(exchanges) || !times_have_text(before.durable)
            },
        },
{
    let tables = before.durable;
    let reply = exchanges[0].reply;
    lemma_failures_stay(exchanges);
    if !is_failure(reply) {
        let ids = choose|ids: Seq<Text>|
            #![trigger tables.lists_holds(order, query.organization_id, query.status, query.cursor, ids)]
            tables.lists_holds(order, query.organization_id, query.status, query.cursor, ids)
                && ids_are_read(first(ids, query.limit + 1), reply->HoldIds_0);
        let shown = first(ids, query.limit);
        let found = reply->HoldIds_0;
        let progress = PageProgressModel {
            ids: first(found, query.limit),
            has_more: ids.len() > query.limit,
            loaded: Seq::empty(),
            read: GetHoldPhaseModel::Begin,
        };
        assert(ids_are_read(shown, progress.ids));
        if is_partial(ReplyModel::HoldIds(progress.ids)) {
            let at = choose|i: int|
                0 <= i < progress.ids.len() && (#[trigger] progress.ids[i]) is None;
            assert(found[at] is None);
            assert(falls_short(reply));
        }
        ids.to_multiset_ensures();
        assert forall|i: int| 0 <= i < shown.len() implies tables.hold(
            query.organization_id,
            #[trigger] shown[i],
        ) is Some by {
            assert(ids.contains(ids[i]));
            assert(ids.to_multiset().count(ids[i]) > 0);
        }
        if shown.len() > 0 && progress.ids[0] is None {
            assert(is_partial(ReplyModel::HoldIds(progress.ids)));
        } else if shown.len() > 0 {
            lemma_page_is_read(
                order,
                query,
                now,
                shown,
                progress,
                exchanges[0].after,
                exchanges.drop_first(),
                outcome,
                after,
            );
            if let Ok(page) = outcome {
                let last = page.holds.len() - 1;
                assert(page.holds[last] == page.holds.last());
                assert(is_stored(
                    order,
                    tables,
                    query.organization_id,
                    shown[last],
                    page.holds[last],
                ));
                assert(tables.holds.contains_key(shown[last]));
                assert(shows_listing(order, query, tables, ids, page));
            }
        } else {
            assert(shows_listing(order, query, tables, ids, outcome->Ok_0));
        }
    }
}

/// A page of holds shows the first of a listing, each as it is stored, and
/// changes nothing. It names the identifier after which the next page starts
/// exactly when the listing goes on.
pub proof fn hold_pages_show_what_is_stored(
    order: TextOrder,
    query: ListHoldsModel,
    now: int,
    before: Tables,
    page: HoldPageModel,
    after: Tables,
)
    requires
        query.limit >= 1,
        tables_are_valid(before),
        list_holds_leads(order, query, now, before, Ok(page), after),
    ensures
        after == before,
        exists|ids: Seq<Text>| #[trigger] shows_listing(order, query, before, ids, page),
{
    let (idle, exchanges) = choose|idle: Tables, exchanges: Seq<Exchange>| #[trigger]
        list_holds_runs(
            order,
            query,
            now,
            ListHoldsPhaseModel::Ids,
            query.list_ids(),
            Database { durable: before, working: idle },
            exchanges,
            Ok(page),
            after,
        );
    lemma_listing_ends(
        order,
        query,
        now,
        Database { durable: before, working: idle },
        exchanges,
        Ok(page),
        after,
    );
}

/// A page of holds is given wherever no statement falls short and every stored
/// instant has a text, whatever is listed. A listing changes nothing in any case, and
/// never answers that a hold is missing.
pub proof fn hold_pages_are_given(
    order: TextOrder,
    query: ListHoldsModel,
    now: int,
    before: Database,
    exchanges: Seq<Exchange>,
    outcome: Result<HoldPageModel, StorageErrorModel>,
    after: Tables,
)
    requires
        query.limit >= 1,
        tables_are_valid(before.durable),
        list_holds_runs(
            order,
            query,
            now,
            ListHoldsPhaseModel::Ids,
            query.list_ids(),
            before,
            exchanges,
            outcome,
            after,
        ),
    ensures
        after == before.durable,
        !something_failed(exchanges) && times_have_text(before.durable) ==> outcome is Ok,
        outcome matches Err(error) ==> !(error is Domain),
{
    lemma_listing_ends(order, query, now, before, exchanges, outcome, after);
}

/// The query for one page of a walk: it starts where the page before says.
pub open spec fn page_query(
    query: ListHoldsModel,
    pages: Seq<HoldPageModel>,
    at: int,
) -> ListHoldsModel {
    ListHoldsModel {
        cursor: if at == 0 {
            query.cursor
        } else {
            pages[at - 1].next_cursor
        },
        ..query
    }
}

/// Whether a query may be answered with a page, at some time.
pub open spec fn is_answered(
    order: TextOrder,
    query: ListHoldsModel,
    tables: Tables,
    page: HoldPageModel,
) -> bool {
    exists|now: int| #[trigger] list_holds_leads(order, query, now, tables, Ok(page), tables)
}

/// Whether pages are read one after the other, each from where the last one says
/// that the next one starts.
pub open spec fn is_walk(
    order: TextOrder,
    query: ListHoldsModel,
    tables: Tables,
    pages: Seq<HoldPageModel>,
) -> bool {
    &&& forall|i: int|
        0 <= i < pages.len() ==> #[trigger] is_answered(
            order,
            page_query(query, pages, i),
            tables,
            pages[i],
        )
    &&& forall|i: int| 0 <= i < pages.len() - 1 ==> (#[trigger] pages[i]).next_cursor is Some
}

/// Whether a walk came to its end: its last page names no next one.
pub open spec fn walk_is_over(pages: Seq<HoldPageModel>) -> bool {
    pages.len() > 0 && pages.last().next_cursor is None
}

/// The holds on pages, in order.
pub open spec fn holds_on(pages: Seq<HoldPageModel>) -> Seq<HoldModel>
    decreases pages.len(),
{
    if pages.len() == 0 {
        Seq::empty()
    } else {
        holds_on(pages.drop_last()) + pages.last().holds
    }
}

/// A walk over pages shows the holds of a listing, each as it is stored, in the
/// order of the listing and none twice. Every page but the last is full. While
/// the walk is not over, it has shown fewer holds than the listing has, so that
/// it ends; when it is over, it has shown all of them.
pub proof fn hold_walks_show_every_hold_once(
    order: TextOrder,
    query: ListHoldsModel,
    tables: Tables,
    ids: Seq<Text>,
    pages: Seq<HoldPageModel>,
)
    requires
        total_ordering(order),
        query.limit >= 1,
        tables_are_valid(tables),
        tables.lists_holds(order, query.organization_id, query.status, query.cursor, ids),
        is_walk(order, query, tables, pages),
    ensures
        ids.no_duplicates(),
        are_stored(order, tables, query.organization_id, ids, holds_on(pages)),
        forall|i: int|
            0 <= i < pages.len() - 1 ==> (#[trigger] pages[i]).holds.len() == query.limit,
        walk_is_over(pages) ==> holds_on(pages).len() == ids.len(),
        pages.len() > 0 && !walk_is_over(pages) ==> {
            &&& holds_on(pages).len() == pages.len() * query.limit < ids.len()
            &&& pages.last().next_cursor == Some(ids[pages.len() * query.limit - 1])
            &&& pages.last().holds.len() == query.limit
        },
        pages.len() > 1 ==> pages.len() <= ids.len(),
    decreases pages.len(),
{
    lemma_listing_repeats_nothing(
        order,
        tables,
        query.organization_id,
        query.status,
        query.cursor,
        ids,
    );
    if pages.len() > 0 {
        let earlier = pages.drop_last();
        let page = pages.last();
        let done = earlier.len() * query.limit;
        assert(is_walk(order, query, tables, earlier)) by {
            assert forall|i: int| 0 <= i < earlier.len() implies #[trigger] is_answered(
                order,
                page_query(query, earlier, i),
                tables,
                earlier[i],
            ) by {
                assert(page_query(query, earlier, i) == page_query(query, pages, i));
                assert(is_answered(order, page_query(query, pages, i), tables, pages[i]));
            }
        }
        hold_walks_show_every_hold_once(order, query, tables, ids, earlier);
        let asked = page_query(query, pages, pages.len() - 1);
        assert(is_answered(order, asked, tables, pages[pages.len() - 1]));
        let now = choose|now: int| #[trigger]
            list_holds_leads(order, asked, now, tables, Ok(page), tables);
        hold_pages_show_what_is_stored(order, asked, now, tables, page, tables);
        let rest = choose|rest: Seq<Text>| #[trigger]
            shows_listing(order, asked, tables, rest, page);
        assert(pages.len() * query.limit == done + query.limit) by (nonlinear_arith)
            requires
                done == (pages.len() - 1) * query.limit,
        ;
        if earlier.len() == 0 {
            hold_listing_is_unique(
                order,
                tables,
                query.organization_id,
                query.status,
                query.cursor,
                ids,
                rest,
            );
            assert(holds_on(pages) == page.holds);
        } else {
            assert(pages[pages.len() - 2] == earlier.last());
            assert(done >= earlier.len() && done >= 1) by (nonlinear_arith)
                requires
                    done == earlier.len() * query.limit,
                    earlier.len() >= 1,
                    query.limit >= 1,
            ;
            hold_pages_follow_on(
                order,
                tables,
                query.organization_id,
                query.status,
                query.cursor,
                ids,
                done,
                rest,
            );
        }
        assert(rest == ids.skip(done));
        assert forall|i: int| 0 <= i < pages.len() - 1 implies (
        #[trigger] pages[i]).holds.len() == query.limit by {
            assert(pages[i] == earlier[i]);
        }
        let shown = holds_on(pages);
        assert forall|i: int| #![trigger shown[i]] 0 <= i < shown.len() implies is_stored(
            order,
            tables,
            query.organization_id,
            ids[i],
            shown[i],
        ) by {
            let before = holds_on(earlier);
            if i < before.len() {
                assert(shown[i] == before[i]);
            } else {
                assert(shown[i] == page.holds[i - before.len()]);
                assert(first(rest, query.limit)[i - before.len()] == ids[i]);
            }
        }
    }
}

proof fn lemma_stored_holds_are_told_apart(
    order: TextOrder,
    tables: Tables,
    organization_id: Text,
    hold_id: Text,
    left: HoldModel,
    right: HoldModel,
)
    requires
        total_ordering(order),
        is_stored(order, tables, organization_id, hold_id, left),
        is_stored(order, tables, organization_id, hold_id, right),
    ensures
        left == right,
{
    let left_rows = choose|rows: Seq<ScopeRowModel>|
        #![trigger tables.lists_scopes(order, hold_id, rows)]
        tables.lists_scopes(order, hold_id, rows) && presented_hold(tables.holds[hold_id], rows)
            == Ok::<HoldModel, Text>(left);
    let right_rows = choose|rows: Seq<ScopeRowModel>|
        #![trigger tables.lists_scopes(order, hold_id, rows)]
        tables.lists_scopes(order, hold_id, rows) && presented_hold(tables.holds[hold_id], rows)
            == Ok::<HoldModel, Text>(right);
    scope_listing_is_unique(order, tables, hold_id, left_rows, right_rows);
}

/// Walks to the end show the same holds, however many a page may hold.
pub proof fn hold_walks_agree(
    order: TextOrder,
    query: ListHoldsModel,
    limit: int,
    tables: Tables,
    left: Seq<HoldPageModel>,
    right: Seq<HoldPageModel>,
)
    requires
        total_ordering(order),
        query.limit >= 1,
        limit >= 1,
        tables_are_valid(tables),
        is_walk(order, query, tables, left),
        walk_is_over(left),
        is_walk(order, ListHoldsModel { limit, ..query }, tables, right),
        walk_is_over(right),
    ensures
        holds_on(left) == holds_on(right),
{
    assert(page_query(query, left, 0) == query);
    assert(is_answered(order, page_query(query, left, 0), tables, left[0]));
    let now = choose|now: int| #[trigger]
        list_holds_leads(order, query, now, tables, Ok(left[0]), tables);
    hold_pages_show_what_is_stored(order, query, now, tables, left[0], tables);
    let ids = choose|ids: Seq<Text>| #[trigger] shows_listing(order, query, tables, ids, left[0]);
    hold_walks_show_every_hold_once(order, query, tables, ids, left);
    hold_walks_show_every_hold_once(
        order,
        ListHoldsModel { limit, ..query },
        tables,
        ids,
        right,
    );
    assert forall|i: int| 0 <= i < ids.len() implies holds_on(left)[i] == holds_on(right)[i] by {
        lemma_stored_holds_are_told_apart(
            order,
            tables,
            query.organization_id,
            ids[i],
            holds_on(left)[i],
            holds_on(right)[i],
        );
    }
}

/// Whether exchanges are a listing of activity from a phase to its end. The hold
/// is read in a transaction, and its events are listed after it, outside one.
pub open spec fn list_activity_runs(
    order: TextOrder,
    query: ListActivityModel,
    now: int,
    phase: ListActivityPhaseModel,
    statement: StatementModel,
    before: Database,
    exchanges: Seq<Exchange>,
    outcome: Result<ActivityPageModel, StorageErrorModel>,
    after: Tables,
) -> bool
    decreases exchanges.len(),
{
    &&& exchanges.len() > 0
    &&& if phase is Events {
        executes_alone(
            order,
            before.durable,
            statement,
            now,
            exchanges[0].reply,
            exchanges[0].after.durable,
        )
    } else {
        executes(order, before, statement, now, exchanges[0].reply, exchanges[0].after)
    }
    &&& match list_activity_next(query, phase, exchanges[0].reply) {
        ListActivityStepModel::Run(next_phase, next_statement) => list_activity_runs(
            order,
            query,
            now,
            next_phase,
            next_statement,
            exchanges[0].after,
            exchanges.drop_first(),
            outcome,
            after,
        ),
        ListActivityStepModel::Finished(result) => {
            &&& exchanges.len() == 1
            &&& outcome == result
            &&& after == exchanges[0].after.durable
        },
    }
}

/// The events that a page of activity is to show.
pub open spec fn rows_asked_for(query: ListActivityModel, tables: Tables) -> Seq<ActivityRowModel> {
    first(
        tables.activity_after(query.organization_id, query.hold_id, query.after),
        query.limit,
    )
}

/// What a listing of activity may answer.
pub open spec fn activity_is_answered(
    query: ListActivityModel,
    tables: Tables,
    outcome: Result<ActivityPageModel, StorageErrorModel>,
) -> bool {
    let hold = tables.hold(query.organization_id, query.hold_id);
    match outcome {
        Ok(page) => {
            &&& hold is Some
            &&& presented_activity(rows_asked_for(query, tables)) == Ok::<Seq<ActivityModel>, Text>(
                page.events,
            )
            &&& page.next_cursor == cursor_after(rows_asked_for(query, tables), query.after)
        },
        Err(StorageErrorModel::Domain(failure)) => {
            &&& failure == DomainFailure::NotFound
            &&& hold is None
        },
        Err(_) => true,
    }
}

proof fn lemma_activity_is_listed(
    order: TextOrder,
    query: ListActivityModel,
    now: int,
    before: Database,
    exchanges: Seq<Exchange>,
    outcome: Result<ActivityPageModel, StorageErrorModel>,
    after: Tables,
)
    requires
        query.limit >= 1,
        before.durable.hold(query.organization_id, query.hold_id) is Some,
        list_activity_runs(
            order,
            query,
            now,
            ListActivityPhaseModel::Events,
            query.list_events(),
            before,
            exchanges,
            outcome,
            after,
        ),
    ensures
        after == before.durable,
        activity_is_answered(query, before.durable, outcome),
        !something_failed(exchanges) && times_have_text(before.durable) ==> outcome is Ok,
{
    let tables = before.durable;
    lemma_failures_stay(exchanges);
    if times_have_text(tables) {
        lemma_stored_events_have_text(
            tables.activity,
            query.organization_id,
            query.hold_id,
            query.after,
        );
        assert(tables.activity_after(query.organization_id, query.hold_id, query.after)
            == rows_after(tables.activity, query.organization_id, query.hold_id, query.after));
        lemma_events_have_text(rows_asked_for(query, tables));
    }
}

proof fn lemma_activity_is_read(
    order: TextOrder,
    query: ListActivityModel,
    now: int,
    phase: GetHoldPhaseModel,
    before: Database,
    exchanges: Seq<Exchange>,
    outcome: Result<ActivityPageModel, StorageErrorModel>,
    after: Tables,
)
    requires
        query.limit >= 1,
        reading(order, hold_of(query), phase, before),
        list_activity_runs(
            order,
            query,
            now,
            ListActivityPhaseModel::Hold(phase),
            awaited_by_read(hold_of(query), phase),
            before,
            exchanges,
            outcome,
            after,
        ),
    ensures
        after == before.durable,
        activity_is_answered(query, before.durable, outcome),
        !something_failed(exchanges) && !is_cut_short(phase) ==> match before.durable.hold(
            query.organization_id,
            query.hold_id,
        ) {
            Some(_) => times_have_text(before.durable) ==> outcome is Ok,
            None => outcome == Err::<ActivityPageModel, StorageErrorModel>(
                StorageErrorModel::Domain(DomainFailure::NotFound),
            ),
        },
    decreases exchanges.len(),
{
    let reply = exchanges[0].reply;
    let next = exchanges[0].after;
    lemma_read_goes_on(order, hold_of(query), now, phase, before, reply, next);
    lemma_failures_stay(exchanges);
    match get_hold_next(hold_of(query), phase, reply) {
        GetHoldStepModel::Run(further, _) => {
            lemma_activity_is_read(
                order,
                query,
                now,
                further,
                next,
                exchanges.drop_first(),
                outcome,
                after,
            );
        },
        GetHoldStepModel::Finished(Ok(_)) => {
            lemma_activity_is_listed(
                order,
                query,
                now,
                next,
                exchanges.drop_first(),
                outcome,
                after,
            );
        },
        GetHoldStepModel::Finished(Err(_)) => {},
    }
}

/// The read of the hold whose activity is listed.
spec fn hold_of(query: ListActivityModel) -> GetHoldModel {
    GetHoldModel { organization_id: query.organization_id, hold_id: query.hold_id }
}

/// A listing of activity changes nothing. The page that it gives is of a hold
/// that exists, shows the first events after its cursor, each as it is stored,
/// and ends at the last of them; that the hold is not found is only answered
/// where there is none. Where no statement falls short, a missing hold is not found;
/// and the page of one that exists is given if every stored instant has a text.
pub proof fn activity_pages_show_what_is_stored(
    order: TextOrder,
    query: ListActivityModel,
    now: int,
    before: Database,
    exchanges: Seq<Exchange>,
    outcome: Result<ActivityPageModel, StorageErrorModel>,
    after: Tables,
)
    requires
        query.limit >= 1,
        list_activity_runs(
            order,
            query,
            now,
            ListActivityPhaseModel::Hold(GetHoldPhaseModel::Begin),
            StatementModel::Begin,
            before,
            exchanges,
            outcome,
            after,
        ),
    ensures
        after == before.durable,
        activity_is_answered(query, before.durable, outcome),
        !something_failed(exchanges) ==> match before.durable.hold(
            query.organization_id,
            query.hold_id,
        ) {
            Some(_) => times_have_text(before.durable) ==> outcome is Ok,
            None => outcome == Err::<ActivityPageModel, StorageErrorModel>(
                StorageErrorModel::Domain(DomainFailure::NotFound),
            ),
        },
{
    lemma_activity_is_read(
        order,
        query,
        now,
        GetHoldPhaseModel::Begin,
        before,
        exchanges,
        outcome,
        after,
    );
}

/// The query for one page of a walk over activity: it starts where the page
/// before ended.
pub open spec fn activity_page_query(
    query: ListActivityModel,
    pages: Seq<ActivityPageModel>,
    at: int,
) -> ListActivityModel {
    ListActivityModel {
        after: if at == 0 {
            query.after
        } else {
            pages[at - 1].next_cursor
        },
        ..query
    }
}

/// Whether a query for activity may be answered with a page, at some time.
pub open spec fn activity_page_is_given(
    order: TextOrder,
    query: ListActivityModel,
    tables: Tables,
    page: ActivityPageModel,
) -> bool {
    exists|now: int, idle: Tables, exchanges: Seq<Exchange>| #[trigger]
        list_activity_runs(
            order,
            query,
            now,
            ListActivityPhaseModel::Hold(GetHoldPhaseModel::Begin),
            StatementModel::Begin,
            Database { durable: tables, working: idle },
            exchanges,
            Ok(page),
            tables,
        )
}

/// Whether pages of activity are read one after the other, each from where the
/// last one ended.
pub open spec fn is_activity_walk(
    order: TextOrder,
    query: ListActivityModel,
    tables: Tables,
    pages: Seq<ActivityPageModel>,
) -> bool {
    forall|i: int|
        0 <= i < pages.len() ==> #[trigger] activity_page_is_given(
            order,
            activity_page_query(query, pages, i),
            tables,
            pages[i],
        )
}

/// The events on pages, in order.
pub open spec fn events_on(pages: Seq<ActivityPageModel>) -> Seq<ActivityModel>
    decreases pages.len(),
{
    if pages.len() == 0 {
        Seq::empty()
    } else {
        events_on(pages.drop_last()) + pages.last().events
    }
}

proof fn lemma_events_are_presented_in_parts(
    left: Seq<ActivityRowModel>,
    right: Seq<ActivityRowModel>,
)
    requires
        presented_activity(left) is Ok,
        presented_activity(right) is Ok,
    ensures
        presented_activity(left + right) == Ok::<Seq<ActivityModel>, Text>(
            presented_activity(left)->Ok_0 + presented_activity(right)->Ok_0,
        ),
        presented_activity(right)->Ok_0.len() == right.len(),
    decreases right.len(),
{
    if right.len() == 0 {
        assert(left + right == left);
        assert(presented_activity(left)->Ok_0 + presented_activity(right)->Ok_0
            == presented_activity(left)->Ok_0);
    } else {
        lemma_events_are_presented_in_parts(left, right.drop_last());
        let both = left + right;
        assert(both.drop_last() == left + right.drop_last());
        assert(both.last() == right.last());
        assert(presented_activity(both)->Ok_0 =~= presented_activity(left)->Ok_0
            + presented_activity(right)->Ok_0);
    }
}

/// A walk over pages of activity shows the events of a hold from where it started,
/// each as it is stored and none twice: as many as its pages may hold, or all of
/// them. It goes on after the last event that it has shown.
pub proof fn activity_walks_show_every_event_once(
    order: TextOrder,
    query: ListActivityModel,
    tables: Tables,
    pages: Seq<ActivityPageModel>,
)
    requires
        query.limit >= 1,
        tables_are_valid(tables),
        is_activity_walk(order, query, tables, pages),
    ensures
        ({
            let all = tables.activity_after(query.organization_id, query.hold_id, query.after);
            let rows = first(all, pages.len() * query.limit);
            &&& presented_activity(rows) == Ok::<Seq<ActivityModel>, Text>(events_on(pages))
            &&& events_on(pages).len() == rows.len()
            &&& pages.len() > 0 ==> pages.last().next_cursor == cursor_after(rows, query.after)
        }),
    decreases pages.len(),
{
    let all = tables.activity_after(query.organization_id, query.hold_id, query.after);
    if pages.len() == 0 {
        assert(first(all, 0) =~= Seq::empty());
    } else {
        let earlier = pages.drop_last();
        let page = pages.last();
        let done = earlier.len() * query.limit;
        assert(is_activity_walk(order, query, tables, earlier)) by {
            assert forall|i: int| 0 <= i < earlier.len() implies #[trigger] activity_page_is_given(
                order,
                activity_page_query(query, earlier, i),
                tables,
                earlier[i],
            ) by {
                assert(activity_page_query(query, earlier, i) == activity_page_query(
                    query,
                    pages,
                    i,
                ));
                assert(activity_page_is_given(
                    order,
                    activity_page_query(query, pages, i),
                    tables,
                    pages[i],
                ));
            }
        }
        activity_walks_show_every_event_once(order, query, tables, earlier);
        let asked = activity_page_query(query, pages, pages.len() - 1);
        assert(activity_page_is_given(order, asked, tables, pages[pages.len() - 1]));
        let (now, idle, exchanges) = choose|now: int, idle: Tables, exchanges: Seq<Exchange>|
            #[trigger]
            list_activity_runs(
                order,
                asked,
                now,
                ListActivityPhaseModel::Hold(GetHoldPhaseModel::Begin),
                StatementModel::Begin,
                Database { durable: tables, working: idle },
                exchanges,
                Ok(page),
                tables,
            );
        activity_pages_show_what_is_stored(
            order,
            asked,
            now,
            Database { durable: tables, working: idle },
            exchanges,
            Ok(page),
            tables,
        );
        assert(pages.len() * query.limit == done + query.limit) by (nonlinear_arith)
            requires
                done == (pages.len() - 1) * query.limit,
        ;
        let shown = first(all, done);
        let further = rows_asked_for(asked, tables);
        if earlier.len() == 0 {
            assert(shown =~= Seq::empty());
            assert(shown + further == further);
        } else {
            assert(pages[pages.len() - 2] == earlier.last());
            assert(done >= 1) by (nonlinear_arith)
                requires
                    done == earlier.len() * query.limit,
                    earlier.len() >= 1,
                    query.limit >= 1,
            ;
            activity_pages_follow_on(
                tables,
                query.organization_id,
                query.hold_id,
                query.after,
                done,
                query.limit,
            );
        }
        assert(shown + further == first(all, pages.len() * query.limit));
        lemma_events_are_presented_in_parts(shown, further);
        if further.len() > 0 {
            assert((shown + further).last() == further.last());
        } else {
            assert(shown + further == shown);
        }
    }
}

} // verus!
