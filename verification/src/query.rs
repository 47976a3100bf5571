//! Reads: one hold, a page of holds, and a page of a hold's activity.
use vstd::prelude::*;
use crate::command::hold_outcome;
use crate::hold::{
    activity_models, activity_rows, hold_models, present_activity, present_hold, present_instant,
    present_scopes, presented_activity, presented_hold, presented_instant, presented_scopes,
    scope_rows, ActivityModel, ActivityRow, ActivityRowModel, ActivityView, HoldFault,
    HoldFaultModel, HoldModel, HoldView, ScopeRow, ScopeRowModel, StoredHold, StoredHoldModel,
};
use crate::statement::{
    DomainFailure, Reply, ReplyModel, Statement, StatementModel, StorageError, StorageErrorModel,
};
use crate::text::{copy_optional, optional_text, optional_texts, text_of, Text};
use crate::timestamp::rfc3339;

verus! {

/// The most items that one page may hold.
pub const MAX_PAGE_SIZE: i64 = 200;

/// A requested page size is at least one and not too large.
pub open spec fn page_size_is_valid(limit: int) -> bool {
    1 <= limit <= MAX_PAGE_SIZE
}

/// The number of items that a page may hold.
#[derive(Clone, Copy, Debug, PartialEq, Eq)]
pub struct PageLimit {
    limit: i64,
}

impl View for PageLimit {
    type V = int;

    closed spec fn view(&self) -> int {
        self.limit as int
    }
}

impl PageLimit {
    #[verifier::type_invariant]
    spec fn within_bounds(self) -> bool {
        page_size_is_valid(self.limit as int)
    }

    /// Accepts a valid page size.
    pub fn new(limit: i64) -> (accepted: Option<PageLimit>)
        ensures
            accepted is Some == page_size_is_valid(limit as int),
            accepted matches Some(accepted) ==> accepted@ == limit,
    {
        if 1 <= limit && limit <= MAX_PAGE_SIZE {
            Some(PageLimit { limit })
        } else {
            None
        }
    }

    /// The page size.
    pub fn get(&self) -> (limit: i64)
        ensures
            limit == self@,
            page_size_is_valid(limit as int),
    {
        proof {
            use_type_invariant(self);
        }
        self.limit
    }
}

/// Reads one hold with its scopes.
#[derive(Debug, PartialEq, Eq)]
pub struct GetHold {
    pub organization_id: String,
    pub hold_id: String,
}

/// What a [`GetHold`] says.
#[verifier::ext_equal]
pub struct GetHoldModel {
    pub organization_id: Text,
    pub hold_id: Text,
}

impl View for GetHold {
    type V = GetHoldModel;

    open spec fn view(&self) -> GetHoldModel {
        GetHoldModel { organization_id: self.organization_id@, hold_id: self.hold_id@ }
    }
}

/// The failure of a read whose hold row could not be decoded: the instants before
/// the fault are presented first.
pub open spec fn undecoded(fault: HoldFaultModel) -> StorageErrorModel {
    match presented_instant(fault.created_at) {
        Err(message) => StorageErrorModel::InvalidStored(message),
        Ok(_) => match presented_instant(fault.released_at) {
            Err(message) => StorageErrorModel::InvalidStored(message),
            Ok(_) => StorageErrorModel::Database { operation: fault.step },
        },
    }
}

/// The hold that was read, or why it cannot be given. Scopes come first, each
/// presented before the next is decoded, and then the row.
pub open spec fn loaded_hold(
    stored: StoredHoldModel,
    rows: Seq<ScopeRowModel>,
    fault: Option<Text>,
) -> Result<HoldModel, StorageErrorModel> {
    match (presented_scopes(rows), fault, stored) {
        (Err(message), _, _) => Err(StorageErrorModel::InvalidStored(message)),
        (_, Some(operation), _) => Err(StorageErrorModel::Database { operation }),
        (_, _, StoredHoldModel::Undecodable(fault)) => Err(undecoded(fault)),
        (_, _, StoredHoldModel::Decoded(row)) => match presented_hold(row, rows) {
            Ok(hold) => Ok(hold),
            Err(message) => Err(StorageErrorModel::InvalidStored(message)),
        },
    }
}

fn undecoded_error(fault: HoldFault) -> (error: StorageError)
    ensures
        error@ == undecoded(fault@),
{
    match present_instant(fault.created_at) {
        Err(message) => StorageError::InvalidStored(message),
        Ok(_) => match present_instant(fault.released_at) {
            Err(message) => StorageError::InvalidStored(message),
            Ok(_) => StorageError::Database { operation: fault.step },
        },
    }
}

/// Gives the hold that was read, or says why it cannot be given.
pub fn load_hold(stored: StoredHold, rows: Vec<ScopeRow>, fault: Option<String>) -> (hold: Result<
    HoldView,
    StorageError,
>)
    ensures
        hold_outcome(hold) == loaded_hold(stored@, scope_rows(rows@), optional_text(fault)),
{
    let scopes = match present_scopes(rows) {
        Ok(scopes) => scopes,
        Err(message) => {
            return Err(StorageError::InvalidStored(message));
        },
    };
    match (fault, stored) {
        (Some(operation), _) => Err(StorageError::Database { operation }),
        (None, StoredHold::Undecodable(fault)) => Err(undecoded_error(fault)),
        (None, StoredHold::Decoded(row)) => match present_hold(row, scopes) {
            Ok(hold) => Ok(hold),
            Err(message) => Err(StorageError::InvalidStored(message)),
        },
    }
}

/// How far the read of a hold has come: what it waits for.
#[derive(Debug, PartialEq, Eq)]
pub enum GetHoldPhase {
    Begin,
    Hold,
    Scopes(StoredHold),
    Commit(HoldView),
}

/// What a [`GetHoldPhase`] says.
#[verifier::ext_equal]
pub enum GetHoldPhaseModel {
    Begin,
    Hold,
    Scopes(StoredHoldModel),
    Commit(HoldModel),
}

impl View for GetHoldPhase {
    type V = GetHoldPhaseModel;

    open spec fn view(&self) -> GetHoldPhaseModel {
        match *self {
            GetHoldPhase::Begin => GetHoldPhaseModel::Begin,
            GetHoldPhase::Hold => GetHoldPhaseModel::Hold,
            GetHoldPhase::Scopes(stored) => GetHoldPhaseModel::Scopes(stored@),
            GetHoldPhase::Commit(hold) => GetHoldPhaseModel::Commit(hold@),
        }
    }
}

/// The name of the database step that the read of a hold waits for.
pub open spec fn get_hold_step_name(phase: GetHoldPhaseModel) -> Text {
    match phase {
        GetHoldPhaseModel::Begin => "begin read hold"@,
        GetHoldPhaseModel::Hold => "read legal hold"@,
        GetHoldPhaseModel::Scopes(_) => "read legal hold scopes"@,
        GetHoldPhaseModel::Commit(_) => "commit read hold"@,
    }
}

/// What comes after a reply in the read of a hold.
#[derive(Debug, PartialEq, Eq)]
pub enum GetHoldStep {
    Run(GetHoldPhase, Statement),
    Finished(Result<HoldView, StorageError>),
}

/// What a [`GetHoldStep`] says.
#[verifier::ext_equal]
pub enum GetHoldStepModel {
    Run(GetHoldPhaseModel, StatementModel),
    Finished(Result<HoldModel, StorageErrorModel>),
}

impl View for GetHoldStep {
    type V = GetHoldStepModel;

    open spec fn view(&self) -> GetHoldStepModel {
        match *self {
            GetHoldStep::Run(phase, statement) => GetHoldStepModel::Run(phase@, statement@),
            GetHoldStep::Finished(outcome) => GetHoldStepModel::Finished(hold_outcome(outcome)),
        }
    }
}

/// What the read of a hold does on a reply.
pub open spec fn get_hold_next(
    query: GetHoldModel,
    phase: GetHoldPhaseModel,
    reply: ReplyModel,
) -> GetHoldStepModel {
    match (phase, reply) {
        (_, ReplyModel::Undecodable(operation)) => GetHoldStepModel::Finished(
            Err(StorageErrorModel::Database { operation }),
        ),
        (_, ReplyModel::NotPrepared) => GetHoldStepModel::Finished(
            Err(StorageErrorModel::NotPrepared),
        ),
        (GetHoldPhaseModel::Begin, ReplyModel::Done) => GetHoldStepModel::Run(
            GetHoldPhaseModel::Hold,
            StatementModel::ReadHold {
                organization_id: query.organization_id,
                hold_id: query.hold_id,
            },
        ),
        (GetHoldPhaseModel::Hold, ReplyModel::Hold(None)) => GetHoldStepModel::Finished(
            Err(StorageErrorModel::Domain(DomainFailure::NotFound)),
        ),
        (GetHoldPhaseModel::Hold, ReplyModel::Hold(Some(stored))) => GetHoldStepModel::Run(
            GetHoldPhaseModel::Scopes(stored),
            StatementModel::ReadScopes { hold_id: query.hold_id },
        ),
        (GetHoldPhaseModel::Scopes(stored), ReplyModel::Scopes(rows, fault)) => match loaded_hold(
            stored,
            rows,
            fault,
        ) {
            Ok(hold) => GetHoldStepModel::Run(
                GetHoldPhaseModel::Commit(hold),
                StatementModel::Commit,
            ),
            Err(error) => GetHoldStepModel::Finished(Err(error)),
        },
        (GetHoldPhaseModel::Commit(hold), ReplyModel::Done) => GetHoldStepModel::Finished(Ok(hold)),
        (_, _) => GetHoldStepModel::Finished(
            Err(StorageErrorModel::Database { operation: get_hold_step_name(phase) }),
        ),
    }
}

fn get_hold_step_text(phase: &GetHoldPhase) -> (name: &'static str)
    ensures
        name@ == get_hold_step_name(phase@),
{
    match phase {
        GetHoldPhase::Begin => "begin read hold",
        GetHoldPhase::Hold => "read legal hold",
        GetHoldPhase::Scopes(_) => "read legal hold scopes",
        GetHoldPhase::Commit(_) => "commit read hold",
    }
}

impl GetHold {
    /// Decides on a reply what the read does next.
    pub fn next(&self, phase: GetHoldPhase, reply: Reply) -> (step: GetHoldStep)
        ensures
            step@ == get_hold_next(self@, phase@, reply@),
    {
        match reply {
            Reply::Undecodable(operation) => GetHoldStep::Finished(
                Err(StorageError::Database { operation }),
            ),
            Reply::NotPrepared => GetHoldStep::Finished(Err(StorageError::NotPrepared)),
            reply => match (phase, reply) {
                (GetHoldPhase::Begin, Reply::Done) => GetHoldStep::Run(
                    GetHoldPhase::Hold,
                    Statement::ReadHold {
                        organization_id: self.organization_id.clone(),
                        hold_id: self.hold_id.clone(),
                    },
                ),
                (GetHoldPhase::Hold, Reply::Hold(None)) => GetHoldStep::Finished(
                    Err(StorageError::Domain(DomainFailure::NotFound)),
                ),
                (GetHoldPhase::Hold, Reply::Hold(Some(stored))) => GetHoldStep::Run(
                    GetHoldPhase::Scopes(stored),
                    Statement::ReadScopes { hold_id: self.hold_id.clone() },
                ),
                (GetHoldPhase::Scopes(stored), Reply::Scopes(rows, fault)) => match load_hold(
                    stored,
                    rows,
                    fault,
                ) {
                    Ok(hold) => GetHoldStep::Run(GetHoldPhase::Commit(hold), Statement::Commit),
                    Err(error) => GetHoldStep::Finished(Err(error)),
                },
                (GetHoldPhase::Commit(hold), Reply::Done) => GetHoldStep::Finished(Ok(hold)),
                (phase, _) => GetHoldStep::Finished(
                    Err(StorageError::Database { operation: text_of(get_hold_step_text(&phase)) }),
                ),
            },
        }
    }
}

/// Reads a page of an organization's holds, by identifier after a cursor.
#[derive(Debug, PartialEq, Eq)]
pub struct ListHolds {
    pub organization_id: String,
    pub status: Option<String>,
    pub cursor: Option<String>,
    pub limit: PageLimit,
}

/// What a [`ListHolds`] says.
#[verifier::ext_equal]
pub struct ListHoldsModel {
    pub organization_id: Text,
    pub status: Option<Text>,
    pub cursor: Option<Text>,
    pub limit: int,
}

impl View for ListHolds {
    type V = ListHoldsModel;

    open spec fn view(&self) -> ListHoldsModel {
        ListHoldsModel {
            organization_id: self.organization_id@,
            status: optional_text(self.status),
            cursor: optional_text(self.cursor),
            limit: self.limit@,
        }
    }
}

/// A page of holds, and where the next page starts if there is one.
#[derive(Debug, PartialEq, Eq)]
pub struct HoldPage {
    pub holds: Vec<HoldView>,
    pub next_cursor: Option<String>,
}

/// What a [`HoldPage`] holds.
#[verifier::ext_equal]
pub struct HoldPageModel {
    pub holds: Seq<HoldModel>,
    pub next_cursor: Option<Text>,
}

impl View for HoldPage {
    type V = HoldPageModel;

    open spec fn view(&self) -> HoldPageModel {
        HoldPageModel {
            holds: hold_models(self.holds@),
            next_cursor: optional_text(self.next_cursor),
        }
    }
}

/// The page that loaded holds make up: there is a next page exactly when more
/// identifiers were found than the page may hold, and it starts after the last
/// hold of this one.
pub open spec fn hold_page(loaded: Seq<HoldModel>, has_more: bool) -> HoldPageModel {
    HoldPageModel {
        holds: loaded,
        next_cursor: if has_more && loaded.len() > 0 {
            Some(loaded.last().hold_id)
        } else {
            None
        },
    }
}

/// A page that is being loaded hold by hold.
#[derive(Debug, PartialEq, Eq)]
pub struct PageProgress {
    pub ids: Vec<Option<String>>,
    pub has_more: bool,
    pub loaded: Vec<HoldView>,
    pub read: GetHoldPhase,
}

/// What a [`PageProgress`] says.
#[verifier::ext_equal]
pub struct PageProgressModel {
    pub ids: Seq<Option<Text>>,
    pub has_more: bool,
    pub loaded: Seq<HoldModel>,
    pub read: GetHoldPhaseModel,
}

impl View for PageProgress {
    type V = PageProgressModel;

    open spec fn view(&self) -> PageProgressModel {
        PageProgressModel {
            ids: optional_texts(self.ids@),
            has_more: self.has_more,
            loaded: hold_models(self.loaded@),
            read: self.read@,
        }
    }
}

/// How far the listing of holds has come.
#[derive(Debug, PartialEq, Eq)]
pub enum ListHoldsPhase {
    Ids,
    Holds(PageProgress),
}

/// What a [`ListHoldsPhase`] says.
#[verifier::ext_equal]
pub enum ListHoldsPhaseModel {
    Ids,
    Holds(PageProgressModel),
}

impl View for ListHoldsPhase {
    type V = ListHoldsPhaseModel;

    open spec fn view(&self) -> ListHoldsPhaseModel {
        match *self {
            ListHoldsPhase::Ids => ListHoldsPhaseModel::Ids,
            ListHoldsPhase::Holds(progress) => ListHoldsPhaseModel::Holds(progress@),
        }
    }
}

/// What comes after a reply in the listing of holds.
#[derive(Debug, PartialEq, Eq)]
pub enum ListHoldsStep {
    Run(ListHoldsPhase, Statement),
    Finished(Result<HoldPage, StorageError>),
}

/// What a [`ListHoldsStep`] says.
#[verifier::ext_equal]
pub enum ListHoldsStepModel {
    Run(ListHoldsPhaseModel, StatementModel),
    Finished(Result<HoldPageModel, StorageErrorModel>),
}

impl View for ListHoldsStep {
    type V = ListHoldsStepModel;

    open spec fn view(&self) -> ListHoldsStepModel {
        match *self {
            ListHoldsStep::Run(phase, statement) => ListHoldsStepModel::Run(phase@, statement@),
            ListHoldsStep::Finished(Ok(page)) => ListHoldsStepModel::Finished(Ok(page@)),
            ListHoldsStep::Finished(Err(error)) => ListHoldsStepModel::Finished(Err(error@)),
        }
    }
}

impl ListHoldsModel {
    /// Lists one identifier more than the page may hold, to learn whether there
    /// is a next page.
    pub open spec fn list_ids(self) -> StatementModel {
        StatementModel::ListHoldIds {
            organization_id: self.organization_id,
            status: self.status,
            cursor: self.cursor,
            limit: self.limit + 1,
        }
    }
}

/// What the listing of holds does once a page is complete or has one more to
/// load. An identifier is needed when its hold is to be loaded.
pub open spec fn page_continued(progress: PageProgressModel) -> ListHoldsStepModel {
    if progress.loaded.len() < progress.ids.len() {
        match progress.ids[progress.loaded.len() as int] {
            Some(_) => ListHoldsStepModel::Run(
                ListHoldsPhaseModel::Holds(
                    PageProgressModel { read: GetHoldPhaseModel::Begin, ..progress },
                ),
                StatementModel::Begin,
            ),
            None => ListHoldsStepModel::Finished(
                Err(StorageErrorModel::Database { operation: "decode listed hold"@ }),
            ),
        }
    } else {
        ListHoldsStepModel::Finished(Ok(hold_page(progress.loaded, progress.has_more)))
    }
}

/// What the listing of holds does on a reply.
pub open spec fn list_holds_next(
    query: ListHoldsModel,
    phase: ListHoldsPhaseModel,
    reply: ReplyModel,
) -> ListHoldsStepModel {
    match phase {
        ListHoldsPhaseModel::Ids => match reply {
            ReplyModel::Undecodable(operation) => ListHoldsStepModel::Finished(
                Err(StorageErrorModel::Database { operation }),
            ),
            ReplyModel::NotPrepared => ListHoldsStepModel::Finished(
                Err(StorageErrorModel::NotPrepared),
            ),
            ReplyModel::HoldIds(ids) => page_continued(
                PageProgressModel {
                    ids: if ids.len() > query.limit {
                        ids.take(query.limit)
                    } else {
                        ids
                    },
                    has_more: ids.len() > query.limit,
                    loaded: Seq::empty(),
                    read: GetHoldPhaseModel::Begin,
                },
            ),
            _ => ListHoldsStepModel::Finished(
                Err(StorageErrorModel::Database { operation: "list legal holds"@ }),
            ),
        },
        ListHoldsPhaseModel::Holds(progress) => if progress.loaded.len() >= progress.ids.len()
            || progress.ids[progress.loaded.len() as int] is None {
            page_continued(progress)
        } else {
            let read = GetHoldModel {
                organization_id: query.organization_id,
                hold_id: progress.ids[progress.loaded.len() as int]->0,
            };
            match get_hold_next(read, progress.read, reply) {
                GetHoldStepModel::Run(read, statement) => ListHoldsStepModel::Run(
                    ListHoldsPhaseModel::Holds(PageProgressModel { read, ..progress }),
                    statement,
                ),
                GetHoldStepModel::Finished(Err(error)) => ListHoldsStepModel::Finished(Err(error)),
                GetHoldStepModel::Finished(Ok(hold)) => page_continued(
                    PageProgressModel { loaded: progress.loaded.push(hold), ..progress },
                ),
            }
        },
    }
}

fn finished_page(loaded: Vec<HoldView>, has_more: bool) -> (page: HoldPage)
    ensures
        page@ == hold_page(hold_models(loaded@), has_more),
{
    let next_cursor = if has_more && loaded.len() > 0 {
        Some(loaded[loaded.len() - 1].hold_id.clone())
    } else {
        None
    };
    HoldPage { holds: loaded, next_cursor }
}

fn continue_page(progress: PageProgress) -> (step: ListHoldsStep)
    ensures
        step@ == page_continued(progress@),
{
    if progress.loaded.len() < progress.ids.len() {
        if progress.ids[progress.loaded.len()].is_none() {
            return ListHoldsStep::Finished(
                Err(StorageError::Database { operation: text_of("decode listed hold") }),
            );
        }
        ListHoldsStep::Run(
            ListHoldsPhase::Holds(
                PageProgress {
                    ids: progress.ids,
                    has_more: progress.has_more,
                    loaded: progress.loaded,
                    read: GetHoldPhase::Begin,
                },
            ),
            Statement::Begin,
        )
    } else {
        ListHoldsStep::Finished(Ok(finished_page(progress.loaded, progress.has_more)))
    }
}

impl ListHolds {
    /// Opens the listing.
    pub fn start(&self) -> (step: (ListHoldsPhase, Statement))
        ensures
            step.0@ == ListHoldsPhaseModel::Ids,
            step.1@ == self@.list_ids(),
    {
        let limit: i64 = self.limit.get();
        (
            ListHoldsPhase::Ids,
            Statement::ListHoldIds {
                organization_id: self.organization_id.clone(),
                status: copy_optional(&self.status),
                cursor: copy_optional(&self.cursor),
                limit: limit + 1,
            },
        )
    }

    fn after_ids(&self, ids: Vec<Option<String>>) -> (step: ListHoldsStep)
        ensures
            step@ == list_holds_next(
                self@,
                ListHoldsPhaseModel::Ids,
                ReplyModel::HoldIds(optional_texts(ids@)),
            ),
    {
        let limit: usize = self.limit.get() as usize;
        let mut ids = ids;
        let has_more = ids.len() > limit;
        let ghost found = ids@;
        if has_more {
            ids.truncate(limit);
            assert(optional_texts(ids@) == optional_texts(found).take(limit as int));
        }
        let loaded: Vec<HoldView> = Vec::new();
        assert(hold_models(loaded@) == Seq::<HoldModel>::empty());
        continue_page(PageProgress { ids, has_more, loaded, read: GetHoldPhase::Begin })
    }

    fn after_read(&self, progress: PageProgress, reply: Reply) -> (step: ListHoldsStep)
        requires
            progress.loaded.len() < progress.ids.len(),
        ensures
            step@ == list_holds_next(self@, ListHoldsPhaseModel::Holds(progress@), reply@),
    {
        let hold_id = match &progress.ids[progress.loaded.len()] {
            Some(hold_id) => hold_id.clone(),
            None => return continue_page(progress),
        };
        let query = GetHold { organization_id: self.organization_id.clone(), hold_id };
        let PageProgress { ids, has_more, loaded, read } = progress;
        match query.next(read, reply) {
            GetHoldStep::Run(read, statement) => ListHoldsStep::Run(
                ListHoldsPhase::Holds(PageProgress { ids, has_more, loaded, read }),
                statement,
            ),
            GetHoldStep::Finished(Err(error)) => ListHoldsStep::Finished(Err(error)),
            GetHoldStep::Finished(Ok(hold)) => {
                let ghost before = loaded@;
                let mut loaded = loaded;
                loaded.push(hold);
                assert(hold_models(loaded@) == hold_models(before).push(hold@));
                continue_page(PageProgress { ids, has_more, loaded, read: GetHoldPhase::Begin })
            },
        }
    }

    /// Decides on a reply what the listing does next.
    pub fn next(&self, phase: ListHoldsPhase, reply: Reply) -> (step: ListHoldsStep)
        ensures
            step@ == list_holds_next(self@, phase@, reply@),
    {
        match phase {
            ListHoldsPhase::Ids => match reply {
                Reply::Undecodable(operation) => ListHoldsStep::Finished(
                    Err(StorageError::Database { operation }),
                ),
                Reply::NotPrepared => ListHoldsStep::Finished(Err(StorageError::NotPrepared)),
                Reply::HoldIds(ids) => self.after_ids(ids),
                _ => ListHoldsStep::Finished(
                    Err(StorageError::Database { operation: text_of("list legal holds") }),
                ),
            },
            ListHoldsPhase::Holds(progress) => if progress.loaded.len() >= progress.ids.len() {
                continue_page(progress)
            } else {
                self.after_read(progress, reply)
            },
        }
    }
}

/// Reads a page of the activity of a hold, after a cursor.
#[derive(Debug, PartialEq, Eq)]
pub struct ListActivity {
    pub organization_id: String,
    pub hold_id: String,
    pub after: i64,
    pub limit: PageLimit,
}

/// What a [`ListActivity`] says.
#[verifier::ext_equal]
pub struct ListActivityModel {
    pub organization_id: Text,
    pub hold_id: Text,
    pub after: int,
    pub limit: int,
}

impl View for ListActivity {
    type V = ListActivityModel;

    open spec fn view(&self) -> ListActivityModel {
        ListActivityModel {
            organization_id: self.organization_id@,
            hold_id: self.hold_id@,
            after: self.after as int,
            limit: self.limit@,
        }
    }
}

/// A page of activity, and the cursor after it.
#[derive(Debug, PartialEq, Eq)]
pub struct ActivityPage {
    pub events: Vec<ActivityView>,
    pub next_cursor: i64,
}

/// What an [`ActivityPage`] holds.
#[verifier::ext_equal]
pub struct ActivityPageModel {
    pub events: Seq<ActivityModel>,
    pub next_cursor: int,
}

impl View for ActivityPage {
    type V = ActivityPageModel;

    open spec fn view(&self) -> ActivityPageModel {
        ActivityPageModel {
            events: activity_models(self.events@),
            next_cursor: self.next_cursor as int,
        }
    }
}

/// The cursor after rows: the last of them, or where they were to start.
pub open spec fn cursor_after(rows: Seq<ActivityRowModel>, after: int) -> int {
    if rows.len() > 0 {
        rows.last().activity_id
    } else {
        after
    }
}

/// How far the listing of activity has come: the hold is read first, so that
/// activity is only ever shown of a hold that exists.
#[derive(Debug, PartialEq, Eq)]
pub enum ListActivityPhase {
    Hold(GetHoldPhase),
    Events,
}

/// What a [`ListActivityPhase`] says.
#[verifier::ext_equal]
pub enum ListActivityPhaseModel {
    Hold(GetHoldPhaseModel),
    Events,
}

impl View for ListActivityPhase {
    type V = ListActivityPhaseModel;

    open spec fn view(&self) -> ListActivityPhaseModel {
        match *self {
            ListActivityPhase::Hold(phase) => ListActivityPhaseModel::Hold(phase@),
            ListActivityPhase::Events => ListActivityPhaseModel::Events,
        }
    }
}

/// What comes after a reply in the listing of activity.
#[derive(Debug, PartialEq, Eq)]
pub enum ListActivityStep {
    Run(ListActivityPhase, Statement),
    Finished(Result<ActivityPage, StorageError>),
}

/// What a [`ListActivityStep`] says.
#[verifier::ext_equal]
pub enum ListActivityStepModel {
    Run(ListActivityPhaseModel, StatementModel),
    Finished(Result<ActivityPageModel, StorageErrorModel>),
}

impl View for ListActivityStep {
    type V = ListActivityStepModel;

    open spec fn view(&self) -> ListActivityStepModel {
        match *self {
            ListActivityStep::Run(phase, statement) => ListActivityStepModel::Run(
                phase@,
                statement@,
            ),
            ListActivityStep::Finished(Ok(page)) => ListActivityStepModel::Finished(Ok(page@)),
            ListActivityStep::Finished(Err(error)) => ListActivityStepModel::Finished(Err(error@)),
        }
    }
}

impl ListActivityModel {
    /// Lists the events after the cursor.
    pub open spec fn list_events(self) -> StatementModel {
        StatementModel::ListActivity {
            organization_id: self.organization_id,
            hold_id: self.hold_id,
            after: self.after,
            limit: self.limit,
        }
    }
}

/// What the listing of activity does once the events are known: each is presented
/// before the next is decoded.
pub open spec fn events_listed(
    query: ListActivityModel,
    rows: Seq<ActivityRowModel>,
    fault: Option<Text>,
) -> ListActivityStepModel {
    match presented_activity(rows) {
        Ok(events) => ListActivityStepModel::Finished(
            match fault {
                Some(operation) => Err(StorageErrorModel::Database { operation }),
                None => Ok(
                    ActivityPageModel { events, next_cursor: cursor_after(rows, query.after) },
                ),
            },
        ),
        Err(message) => ListActivityStepModel::Finished(
            Err(StorageErrorModel::InvalidStored(message)),
        ),
    }
}

/// What the listing of activity does on a reply.
pub open spec fn list_activity_next(
    query: ListActivityModel,
    phase: ListActivityPhaseModel,
    reply: ReplyModel,
) -> ListActivityStepModel {
    match phase {
        ListActivityPhaseModel::Hold(phase) => {
            let read = GetHoldModel {
                organization_id: query.organization_id,
                hold_id: query.hold_id,
            };
            match get_hold_next(read, phase, reply) {
                GetHoldStepModel::Run(phase, statement) => ListActivityStepModel::Run(
                    ListActivityPhaseModel::Hold(phase),
                    statement,
                ),
                GetHoldStepModel::Finished(Err(error)) => ListActivityStepModel::Finished(
                    Err(error),
                ),
                GetHoldStepModel::Finished(Ok(_)) => ListActivityStepModel::Run(
                    ListActivityPhaseModel::Events,
                    query.list_events(),
                ),
            }
        },
        ListActivityPhaseModel::Events => match reply {
            ReplyModel::Undecodable(operation) => ListActivityStepModel::Finished(
                Err(StorageErrorModel::Database { operation }),
            ),
            ReplyModel::NotPrepared => ListActivityStepModel::Finished(
                Err(StorageErrorModel::NotPrepared),
            ),
            ReplyModel::Activity(rows, fault) => events_listed(query, rows, fault),
            _ => ListActivityStepModel::Finished(
                Err(StorageErrorModel::Database { operation: "list legal hold activity"@ }),
            ),
        },
    }
}

impl ListActivity {
    fn after_events(&self, rows: Vec<ActivityRow>, fault: Option<String>) -> (step:
        ListActivityStep)
        ensures
            step@ == events_listed(self@, activity_rows(rows@), optional_text(fault)),
    {
        let next_cursor: i64 = if rows.len() > 0 {
            rows[rows.len() - 1].activity_id
        } else {
            self.after
        };
        match present_activity(rows) {
            Ok(events) => ListActivityStep::Finished(
                match fault {
                    Some(operation) => Err(StorageError::Database { operation }),
                    None => Ok(ActivityPage { events, next_cursor }),
                },
            ),
            Err(message) => ListActivityStep::Finished(Err(StorageError::InvalidStored(message))),
        }
    }

    /// Decides on a reply what the listing does next.
    pub fn next(&self, phase: ListActivityPhase, reply: Reply) -> (step: ListActivityStep)
        ensures
            step@ == list_activity_next(self@, phase@, reply@),
    {
        match phase {
            ListActivityPhase::Hold(phase) => {
                let query = GetHold {
                    organization_id: self.organization_id.clone(),
                    hold_id: self.hold_id.clone(),
                };
                match query.next(phase, reply) {
                    GetHoldStep::Run(phase, statement) => ListActivityStep::Run(
                        ListActivityPhase::Hold(phase),
                        statement,
                    ),
                    GetHoldStep::Finished(Err(error)) => ListActivityStep::Finished(Err(error)),
                    GetHoldStep::Finished(Ok(_)) => ListActivityStep::Run(
                        ListActivityPhase::Events,
                        Statement::ListActivity {
                            organization_id: self.organization_id.clone(),
                            hold_id: self.hold_id.clone(),
                            after: self.after,
                            limit: self.limit.get(),
                        },
                    ),
                }
            },
            ListActivityPhase::Events => match reply {
                Reply::Undecodable(operation) => ListActivityStep::Finished(
                    Err(StorageError::Database { operation }),
                ),
                Reply::NotPrepared => ListActivityStep::Finished(Err(StorageError::NotPrepared)),
                Reply::Activity(rows, fault) => self.after_events(rows, fault),
                _ => ListActivityStep::Finished(
                    Err(StorageError::Database { operation: text_of("list legal hold activity") }),
                ),
            },
        }
    }
}

/// A hold is given exactly as its row and its scopes are presented, where all of them
/// could be decoded. Otherwise the failure is the first there is: a scope that cannot be
/// presented, a scope that cannot be decoded, and then what is wrong with the row.
pub proof fn holds_are_given_as_they_are_read(
    stored: StoredHoldModel,
    rows: Seq<ScopeRowModel>,
    fault: Option<Text>,
)
    ensures
        loaded_hold(stored, rows, fault) matches Ok(hold) ==> {
            &&& fault is None
            &&& stored matches StoredHoldModel::Decoded(row)
            &&& presented_hold(row, rows) == Ok::<HoldModel, Text>(hold)
        },
        presented_scopes(rows) matches Err(message) ==> loaded_hold(stored, rows, fault) == Err::<
            HoldModel,
            StorageErrorModel,
        >(StorageErrorModel::InvalidStored(message)),
        presented_scopes(rows) is Ok ==> {
            let failed = |error: StorageErrorModel|
                loaded_hold(stored, rows, fault) == Err::<HoldModel, StorageErrorModel>(error);
            &&& fault matches Some(operation) ==> failed(StorageErrorModel::Database { operation })
            &&& fault is None ==> match stored {
                StoredHoldModel::Decoded(row) => match presented_hold(row, rows) {
                    Ok(hold) => loaded_hold(stored, rows, fault) == Ok::<
                        HoldModel,
                        StorageErrorModel,
                    >(hold),
                    Err(message) => failed(StorageErrorModel::InvalidStored(message)),
                },
                StoredHoldModel::Undecodable(fault) => {
                    let created = fault.created_at matches Some(at) ==> rfc3339(at) is Ok;
                    let released = fault.released_at matches Some(at) ==> rfc3339(at) is Ok;
                    &&& !created ==> failed(
                        StorageErrorModel::InvalidStored(rfc3339(fault.created_at->0)->Err_0),
                    )
                    &&& created && !released ==> failed(
                        StorageErrorModel::InvalidStored(rfc3339(fault.released_at->0)->Err_0),
                    )
                    &&& created && released ==> failed(
                        StorageErrorModel::Database { operation: fault.step },
                    )
                },
            }
        },
{
}

/// A read that gets no answer to what it asked fails, and names the step at which it
/// failed, or passes on what could not be decoded, or that storage is not prepared.
pub proof fn failed_reads_name_their_step(
    query: GetHoldModel,
    phase: GetHoldPhaseModel,
    reply: ReplyModel,
)
    ensures
        ({
            let failed = |error: StorageErrorModel|
                get_hold_next(query, phase, reply) == GetHoldStepModel::Finished(Err(error));
            let is_awaited = match phase {
                GetHoldPhaseModel::Begin => reply is Done,
                GetHoldPhaseModel::Hold => reply is Hold,
                GetHoldPhaseModel::Scopes(_) => reply is Scopes,
                GetHoldPhaseModel::Commit(_) => reply is Done,
            };
            &&& reply is NotPrepared ==> failed(StorageErrorModel::NotPrepared)
            &&& reply matches ReplyModel::Undecodable(operation) ==> failed(
                StorageErrorModel::Database { operation },
            )
            &&& !(reply is NotPrepared || reply is Undecodable) && !is_awaited ==> failed(
                StorageErrorModel::Database {
                    operation: match phase {
                        GetHoldPhaseModel::Begin => "begin read hold"@,
                        GetHoldPhaseModel::Hold => "read legal hold"@,
                        GetHoldPhaseModel::Scopes(_) => "read legal hold scopes"@,
                        GetHoldPhaseModel::Commit(_) => "commit read hold"@,
                    },
                },
            )
        }),
{
}

/// A listing that fails names the step at which it failed, or passes on what could not
/// be decoded, or that storage is not prepared.
pub proof fn failed_listings_name_their_step(
    holds: ListHoldsModel,
    activity: ListActivityModel,
    reply: ReplyModel,
)
    ensures
        ({
            let failed = |error: StorageErrorModel|
                {
                    &&& list_holds_next(holds, ListHoldsPhaseModel::Ids, reply)
                        == ListHoldsStepModel::Finished(Err(error))
                    &&& list_activity_next(activity, ListActivityPhaseModel::Events, reply)
                        == ListActivityStepModel::Finished(Err(error))
                };
            &&& reply is NotPrepared ==> failed(StorageErrorModel::NotPrepared)
            &&& reply matches ReplyModel::Undecodable(operation) ==> failed(
                StorageErrorModel::Database { operation },
            )
        }),
        !(reply is NotPrepared || reply is Undecodable) ==> {
            &&& !(reply is HoldIds) ==> list_holds_next(holds, ListHoldsPhaseModel::Ids, reply)
                == ListHoldsStepModel::Finished(
                Err(StorageErrorModel::Database { operation: "list legal holds"@ }),
            )
            &&& !(reply is Activity) ==> list_activity_next(
                activity,
                ListActivityPhaseModel::Events,
                reply,
            ) == ListActivityStepModel::Finished(
                Err(StorageErrorModel::Database { operation: "list legal hold activity"@ }),
            )
        },
        holds.limit >= 1 ==> (reply matches ReplyModel::HoldIds(ids) ==> ids.len() > 0
            && ids[0] is None ==> list_holds_next(holds, ListHoldsPhaseModel::Ids, reply)
            == ListHoldsStepModel::Finished(
            Err(StorageErrorModel::Database { operation: "decode listed hold"@ }),
        )),
        reply matches ReplyModel::Activity(rows, fault) ==> {
            &&& presented_activity(rows) matches Err(message) ==> list_activity_next(
                activity,
                ListActivityPhaseModel::Events,
                reply,
            ) == ListActivityStepModel::Finished(Err(StorageErrorModel::InvalidStored(message)))
            &&& presented_activity(rows) is Ok ==> (fault matches Some(operation)
                ==> list_activity_next(activity, ListActivityPhaseModel::Events, reply)
                == ListActivityStepModel::Finished(
                Err(StorageErrorModel::Database { operation }),
            ))
        },
{
}

/// A listing reads each hold whose identifier it found, in its organization, and passes
/// on a read that fails; an identifier that could not be decoded fails it when its turn
/// comes. A listing of activity reads the hold first, and passes on that it fails.
pub proof fn failed_reads_fail_their_listing(
    holds: ListHoldsModel,
    progress: PageProgressModel,
    activity: ListActivityModel,
    phase: GetHoldPhaseModel,
    reply: ReplyModel,
    error: StorageErrorModel,
)
    ensures
        progress.loaded.len() < progress.ids.len() ==> {
            let step = list_holds_next(holds, ListHoldsPhaseModel::Holds(progress), reply);
            match progress.ids[progress.loaded.len() as int] {
                Some(hold_id) => get_hold_next(
                    GetHoldModel { organization_id: holds.organization_id, hold_id },
                    progress.read,
                    reply,
                ) == GetHoldStepModel::Finished(Err(error)) ==> step
                    == ListHoldsStepModel::Finished(Err(error)),
                None => step == ListHoldsStepModel::Finished(
                    Err(StorageErrorModel::Database { operation: "decode listed hold"@ }),
                ),
            }
        },
        get_hold_next(
            GetHoldModel {
                organization_id: activity.organization_id,
                hold_id: activity.hold_id,
            },
            phase,
            reply,
        ) == GetHoldStepModel::Finished(Err(error)) ==> list_activity_next(
            activity,
            ListActivityPhaseModel::Hold(phase),
            reply,
        ) == ListActivityStepModel::Finished(Err(error)),
        get_hold_next(
            GetHoldModel {
                organization_id: activity.organization_id,
                hold_id: activity.hold_id,
            },
            GetHoldPhaseModel::Hold,
            ReplyModel::Hold(None),
        ) == GetHoldStepModel::Finished(
            Err(StorageErrorModel::Domain(DomainFailure::NotFound)),
        ),
{
}

} // verus!
