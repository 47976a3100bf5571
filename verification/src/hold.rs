//! Legal holds, their scopes and their activity: the rows that storage keeps
//! and the records that responses carry.
use vstd::prelude::*;
use crate::json::{json_content, Json};
use crate::text::{copy_optional, decimal, decimal_text, optional_text, Text};
use crate::timestamp::{format_time, rfc3339};

verus! {

/// The row of one hold. Instants are nanoseconds since the Unix epoch.
#[derive(Debug, PartialEq, Eq)]
pub struct HoldRow {
    pub organization_id: String,
    pub hold_id: String,
    pub title: String,
    pub reason: String,
    pub legal_authority: String,
    pub status: String,
    pub revision: i64,
    pub created_by: String,
    pub created_at: i128,
    pub released_by: Option<String>,
    pub released_at: Option<i128>,
    pub release_reason: Option<String>,
}

/// What a [`HoldRow`] holds.
#[verifier::ext_equal]
pub struct HoldRowModel {
    pub organization_id: Text,
    pub hold_id: Text,
    pub title: Text,
    pub reason: Text,
    pub legal_authority: Text,
    pub status: Text,
    pub revision: int,
    pub created_by: Text,
    pub created_at: int,
    pub released_by: Option<Text>,
    pub released_at: Option<int>,
    pub release_reason: Option<Text>,
}

impl View for HoldRow {
    type V = HoldRowModel;

    open spec fn view(&self) -> HoldRowModel {
        HoldRowModel {
            organization_id: self.organization_id@,
            hold_id: self.hold_id@,
            title: self.title@,
            reason: self.reason@,
            legal_authority: self.legal_authority@,
            status: self.status@,
            revision: self.revision as int,
            created_by: self.created_by@,
            created_at: self.created_at as int,
            released_by: optional_text(self.released_by),
            released_at: optional_instant(self.released_at),
            release_reason: optional_text(self.release_reason),
        }
    }
}

/// Why the row of a hold could not be decoded: the step that failed, and the
/// instants that come before it, which are presented first.
#[derive(Debug, PartialEq, Eq)]
pub struct HoldFault {
    pub created_at: Option<i128>,
    pub released_at: Option<i128>,
    pub step: String,
}

/// What a [`HoldFault`] says.
#[verifier::ext_equal]
pub struct HoldFaultModel {
    pub created_at: Option<int>,
    pub released_at: Option<int>,
    pub step: Text,
}

/// An optional instant.
pub open spec fn optional_instant(at: Option<i128>) -> Option<int> {
    match at {
        Some(at) => Some(at as int),
        None => None,
    }
}

impl View for HoldFault {
    type V = HoldFaultModel;

    open spec fn view(&self) -> HoldFaultModel {
        HoldFaultModel {
            created_at: optional_instant(self.created_at),
            released_at: optional_instant(self.released_at),
            step: self.step@,
        }
    }
}

/// The row of one hold as it was read, decoded or not.
#[derive(Debug, PartialEq, Eq)]
pub enum StoredHold {
    Decoded(HoldRow),
    Undecodable(HoldFault),
}

/// What a [`StoredHold`] says.
#[verifier::ext_equal]
pub enum StoredHoldModel {
    Decoded(HoldRowModel),
    Undecodable(HoldFaultModel),
}

impl View for StoredHold {
    type V = StoredHoldModel;

    open spec fn view(&self) -> StoredHoldModel {
        match *self {
            StoredHold::Decoded(row) => StoredHoldModel::Decoded(row@),
            StoredHold::Undecodable(fault) => StoredHoldModel::Undecodable(fault@),
        }
    }
}

/// The row of one scope of a hold.
#[derive(Debug, PartialEq, Eq)]
pub struct ScopeRow {
    pub scope_kind: String,
    pub scope_id: String,
    pub subject: Option<String>,
    pub created_at: i128,
}

/// What a [`ScopeRow`] holds.
#[verifier::ext_equal]
pub struct ScopeRowModel {
    pub scope_kind: Text,
    pub scope_id: Text,
    pub subject: Option<Text>,
    pub created_at: int,
}

impl View for ScopeRow {
    type V = ScopeRowModel;

    open spec fn view(&self) -> ScopeRowModel {
        ScopeRowModel {
            scope_kind: self.scope_kind@,
            scope_id: self.scope_id@,
            subject: optional_text(self.subject),
            created_at: self.created_at as int,
        }
    }
}

/// What a list of scope rows holds.
pub open spec fn scope_rows(rows: Seq<ScopeRow>) -> Seq<ScopeRowModel> {
    Seq::new(rows.len(), |i: int| rows[i]@)
}

/// One scope of a hold, as responses carry it.
#[derive(Debug, PartialEq, Eq)]
pub struct ScopeView {
    pub scope_kind: String,
    pub scope_id: String,
    pub subject: Option<String>,
    pub created_at: String,
}

/// What a [`ScopeView`] holds.
#[verifier::ext_equal]
pub struct ScopeModel {
    pub scope_kind: Text,
    pub scope_id: Text,
    pub subject: Option<Text>,
    pub created_at: Text,
}

impl View for ScopeView {
    type V = ScopeModel;

    open spec fn view(&self) -> ScopeModel {
        ScopeModel {
            scope_kind: self.scope_kind@,
            scope_id: self.scope_id@,
            subject: optional_text(self.subject),
            created_at: self.created_at@,
        }
    }
}

/// What a list of scopes holds.
pub open spec fn scope_models(scopes: Seq<ScopeView>) -> Seq<ScopeModel> {
    Seq::new(scopes.len(), |i: int| scopes[i]@)
}

/// One hold with its scopes, as responses carry it.
#[derive(Debug, PartialEq, Eq)]
pub struct HoldView {
    pub organization_id: String,
    pub hold_id: String,
    pub title: String,
    pub reason: String,
    pub legal_authority: String,
    pub status: String,
    pub revision: String,
    pub created_by: String,
    pub created_at: String,
    pub released_by: Option<String>,
    pub released_at: Option<String>,
    pub release_reason: Option<String>,
    pub scopes: Vec<ScopeView>,
}

/// What a [`HoldView`] holds.
#[verifier::ext_equal]
pub struct HoldModel {
    pub organization_id: Text,
    pub hold_id: Text,
    pub title: Text,
    pub reason: Text,
    pub legal_authority: Text,
    pub status: Text,
    pub revision: Text,
    pub created_by: Text,
    pub created_at: Text,
    pub released_by: Option<Text>,
    pub released_at: Option<Text>,
    pub release_reason: Option<Text>,
    pub scopes: Seq<ScopeModel>,
}

impl View for HoldView {
    type V = HoldModel;

    open spec fn view(&self) -> HoldModel {
        HoldModel {
            organization_id: self.organization_id@,
            hold_id: self.hold_id@,
            title: self.title@,
            reason: self.reason@,
            legal_authority: self.legal_authority@,
            status: self.status@,
            revision: self.revision@,
            created_by: self.created_by@,
            created_at: self.created_at@,
            released_by: optional_text(self.released_by),
            released_at: optional_text(self.released_at),
            release_reason: optional_text(self.release_reason),
            scopes: scope_models(self.scopes@),
        }
    }
}

impl ScopeView {
    /// A copy of this scope.
    pub fn copy(&self) -> (copy: ScopeView)
        ensures
            copy@ == self@,
    {
        ScopeView {
            scope_kind: self.scope_kind.clone(),
            scope_id: self.scope_id.clone(),
            subject: copy_optional(&self.subject),
            created_at: self.created_at.clone(),
        }
    }
}

impl HoldView {
    /// A copy of this hold.
    pub fn copy(&self) -> (copy: HoldView)
        ensures
            copy@ == self@,
    {
        let mut scopes: Vec<ScopeView> = Vec::new();
        let mut i: usize = 0;
        while i < self.scopes.len()
            invariant
                i <= self.scopes.len(),
                scope_models(scopes@) == scope_models(self.scopes@).take(i as int),
            decreases self.scopes.len() - i,
        {
            let ghost done = scopes@;
            scopes.push(self.scopes[i].copy());
            assert(scope_models(scopes@) == scope_models(done).push(self.scopes@[i as int]@));
            i += 1;
        }
        HoldView {
            organization_id: self.organization_id.clone(),
            hold_id: self.hold_id.clone(),
            title: self.title.clone(),
            reason: self.reason.clone(),
            legal_authority: self.legal_authority.clone(),
            status: self.status.clone(),
            revision: self.revision.clone(),
            created_by: self.created_by.clone(),
            created_at: self.created_at.clone(),
            released_by: copy_optional(&self.released_by),
            released_at: copy_optional(&self.released_at),
            release_reason: copy_optional(&self.release_reason),
            scopes,
        }
    }
}

/// What a list of holds holds.
pub open spec fn hold_models(holds: Seq<HoldView>) -> Seq<HoldModel> {
    Seq::new(holds.len(), |i: int| holds[i]@)
}

/// One activity row of a hold.
#[derive(Debug, PartialEq, Eq)]
pub struct ActivityRow {
    pub activity_id: i64,
    pub kind: String,
    pub actor_subject: String,
    pub payload: serde_json::Value,
    pub created_at: i128,
}

/// What an [`ActivityRow`] holds.
#[verifier::ext_equal]
pub struct ActivityRowModel {
    pub activity_id: int,
    pub kind: Text,
    pub actor_subject: Text,
    pub payload: Json,
    pub created_at: int,
}

impl View for ActivityRow {
    type V = ActivityRowModel;

    open spec fn view(&self) -> ActivityRowModel {
        ActivityRowModel {
            activity_id: self.activity_id as int,
            kind: self.kind@,
            actor_subject: self.actor_subject@,
            payload: json_content(self.payload),
            created_at: self.created_at as int,
        }
    }
}

/// What a list of activity rows holds.
pub open spec fn activity_rows(rows: Seq<ActivityRow>) -> Seq<ActivityRowModel> {
    Seq::new(rows.len(), |i: int| rows[i]@)
}

/// One activity event, as responses carry it.
#[derive(Debug, PartialEq, Eq)]
pub struct ActivityView {
    pub activity_id: String,
    pub kind: String,
    pub actor_subject: String,
    pub payload: serde_json::Value,
    pub created_at: String,
}

/// What an [`ActivityView`] holds.
#[verifier::ext_equal]
pub struct ActivityModel {
    pub activity_id: Text,
    pub kind: Text,
    pub actor_subject: Text,
    pub payload: Json,
    pub created_at: Text,
}

impl View for ActivityView {
    type V = ActivityModel;

    open spec fn view(&self) -> ActivityModel {
        ActivityModel {
            activity_id: self.activity_id@,
            kind: self.kind@,
            actor_subject: self.actor_subject@,
            payload: json_content(self.payload),
            created_at: self.created_at@,
        }
    }
}

/// What a list of activity events holds.
pub open spec fn activity_models(events: Seq<ActivityView>) -> Seq<ActivityModel> {
    Seq::new(events.len(), |i: int| events[i]@)
}

/// The scopes that rows stand for, or the message of the first row whose
/// instant has no text.
pub open spec fn presented_scopes(rows: Seq<ScopeRowModel>) -> Result<Seq<ScopeModel>, Text>
    decreases rows.len(),
{
    if rows.len() == 0 {
        Ok(Seq::empty())
    } else {
        match presented_scopes(rows.drop_last()) {
            Err(message) => Err(message),
            Ok(earlier) => match rfc3339(rows.last().created_at) {
                Err(message) => Err(message),
                Ok(created_at) => Ok(
                    earlier.push(
                        ScopeModel {
                            scope_kind: rows.last().scope_kind,
                            scope_id: rows.last().scope_id,
                            subject: rows.last().subject,
                            created_at,
                        },
                    ),
                ),
            },
        }
    }
}

/// The text of an optional instant.
pub open spec fn presented_instant(at: Option<int>) -> Result<Option<Text>, Text> {
    match at {
        None => Ok(None),
        Some(at) => match rfc3339(at) {
            Ok(text) => Ok(Some(text)),
            Err(message) => Err(message),
        },
    }
}

/// The hold that a row and its scope rows stand for, or the message of the
/// first instant that has no text: scopes first, then creation, then release.
pub open spec fn presented_hold(row: HoldRowModel, scopes: Seq<ScopeRowModel>) -> Result<
    HoldModel,
    Text,
> {
    match presented_scopes(scopes) {
        Err(message) => Err(message),
        Ok(scopes) => match rfc3339(row.created_at) {
            Err(message) => Err(message),
            Ok(created_at) => match presented_instant(row.released_at) {
                Err(message) => Err(message),
                Ok(released_at) => Ok(
                    HoldModel {
                        organization_id: row.organization_id,
                        hold_id: row.hold_id,
                        title: row.title,
                        reason: row.reason,
                        legal_authority: row.legal_authority,
                        status: row.status,
                        revision: decimal(row.revision),
                        created_by: row.created_by,
                        created_at,
                        released_by: row.released_by,
                        released_at,
                        release_reason: row.release_reason,
                        scopes,
                    },
                ),
            },
        },
    }
}

/// The events that rows stand for, or the message of the first row whose
/// instant has no text.
pub open spec fn presented_activity(rows: Seq<ActivityRowModel>) -> Result<Seq<ActivityModel>, Text>
    decreases rows.len(),
{
    if rows.len() == 0 {
        Ok(Seq::empty())
    } else {
        match presented_activity(rows.drop_last()) {
            Err(message) => Err(message),
            Ok(earlier) => match rfc3339(rows.last().created_at) {
                Err(message) => Err(message),
                Ok(created_at) => Ok(
                    earlier.push(
                        ActivityModel {
                            activity_id: decimal(rows.last().activity_id),
                            kind: rows.last().kind,
                            actor_subject: rows.last().actor_subject,
                            payload: rows.last().payload,
                            created_at,
                        },
                    ),
                ),
            },
        }
    }
}

proof fn lemma_first_failure_stays(rows: Seq<ScopeRowModel>, n: int)
    requires
        0 <= n <= rows.len(),
        presented_scopes(rows.take(n)) is Err,
    ensures
        presented_scopes(rows) == presented_scopes(rows.take(n)),
    decreases rows.len(),
{
    if n < rows.len() {
        assert(rows.drop_last().take(n) == rows.take(n));
        lemma_first_failure_stays(rows.drop_last(), n);
    } else {
        assert(rows.take(n) == rows);
    }
}

proof fn lemma_first_activity_failure_stays(rows: Seq<ActivityRowModel>, n: int)
    requires
        0 <= n <= rows.len(),
        presented_activity(rows.take(n)) is Err,
    ensures
        presented_activity(rows) == presented_activity(rows.take(n)),
    decreases rows.len(),
{
    if n < rows.len() {
        assert(rows.drop_last().take(n) == rows.take(n));
        lemma_first_activity_failure_stays(rows.drop_last(), n);
    } else {
        assert(rows.take(n) == rows);
    }
}

/// Every scope row is presented by one scope, in the same order.
pub proof fn scopes_are_presented_in_order(rows: Seq<ScopeRowModel>)
    ensures
        presented_scopes(rows) matches Ok(scopes) ==> {
            &&& scopes.len() == rows.len()
            &&& forall|i: int|
                0 <= i < rows.len() ==> {
                    &&& (#[trigger] scopes[i]).scope_kind == rows[i].scope_kind
                    &&& scopes[i].scope_id == rows[i].scope_id
                    &&& scopes[i].subject == rows[i].subject
                    &&& rfc3339(rows[i].created_at) == Ok::<Text, Text>(scopes[i].created_at)
                }
        },
    decreases rows.len(),
{
    if rows.len() > 0 {
        scopes_are_presented_in_order(rows.drop_last());
    }
}

/// Scopes can be presented exactly when the instant of each has a text; otherwise
/// the message is that of the first that has none.
pub proof fn scopes_are_presented_unless_an_instant_has_no_text(rows: Seq<ScopeRowModel>)
    ensures
        presented_scopes(rows) is Ok <==> forall|i: int|
            0 <= i < rows.len() ==> rfc3339((#[trigger] rows[i]).created_at) is Ok,
        presented_scopes(rows) matches Err(message) ==> exists|i: int|
            #![trigger rows[i]]
            0 <= i < rows.len() && rfc3339(rows[i].created_at) == Err::<Text, Text>(message) && (
            forall|j: int| 0 <= j < i ==> rfc3339((#[trigger] rows[j]).created_at) is Ok),
    decreases rows.len(),
{
    if rows.len() > 0 {
        let earlier = rows.drop_last();
        scopes_are_presented_unless_an_instant_has_no_text(earlier);
        assert(rows[rows.len() - 1] == rows.last());
        assert forall|i: int| 0 <= i < earlier.len() implies #[trigger] earlier[i] == rows[i] by {
        }
        if presented_scopes(earlier) is Err {
            let message = presented_scopes(earlier)->Err_0;
            let at = choose|i: int|
                #![trigger earlier[i]]
                0 <= i < earlier.len() && rfc3339(earlier[i].created_at) == Err::<Text, Text>(
                    message,
                ) && (forall|j: int|
                    0 <= j < i ==> rfc3339((#[trigger] earlier[j]).created_at) is Ok);
            assert(rows[at] == earlier[at]);
            assert forall|j: int| 0 <= j < at implies rfc3339(
                (#[trigger] rows[j]).created_at,
            ) is Ok by {
                assert(earlier[j] == rows[j]);
            }
        } else {
            assert forall|j: int| 0 <= j < earlier.len() implies rfc3339(
                (#[trigger] rows[j]).created_at,
            ) is Ok by {
                assert(earlier[j] == rows[j]);
            }
        }
    }
}

/// A presented hold has, field by field, what its row holds: instants as their
/// RFC 3339 text, the revision in decimal, and everything else as it is. Its scopes
/// are those of its scope rows, in the same order.
pub proof fn holds_are_presented_field_by_field(
    row: HoldRowModel,
    rows: Seq<ScopeRowModel>,
    hold: HoldModel,
)
    requires
        presented_hold(row, rows) == Ok::<HoldModel, Text>(hold),
    ensures
        hold.organization_id == row.organization_id,
        hold.hold_id == row.hold_id,
        hold.title == row.title,
        hold.reason == row.reason,
        hold.legal_authority == row.legal_authority,
        hold.status == row.status,
        hold.revision == decimal(row.revision),
        hold.created_by == row.created_by,
        rfc3339(row.created_at) == Ok::<Text, Text>(hold.created_at),
        hold.released_by == row.released_by,
        row.released_at is None ==> hold.released_at is None,
        row.released_at matches Some(at) ==> hold.released_at matches Some(text) && rfc3339(at)
            == Ok::<Text, Text>(text),
        hold.release_reason == row.release_reason,
        hold.scopes.len() == rows.len(),
        forall|i: int|
            0 <= i < rows.len() ==> {
                &&& (#[trigger] hold.scopes[i]).scope_kind == rows[i].scope_kind
                &&& hold.scopes[i].scope_id == rows[i].scope_id
                &&& hold.scopes[i].subject == rows[i].subject
                &&& rfc3339(rows[i].created_at) == Ok::<Text, Text>(hold.scopes[i].created_at)
            },
{
    scopes_are_presented_in_order(rows);
}

/// A hold can be presented exactly when every instant of its row and of its scopes
/// has a text.
pub proof fn holds_are_presented_unless_an_instant_has_no_text(
    row: HoldRowModel,
    rows: Seq<ScopeRowModel>,
)
    ensures
        presented_hold(row, rows) is Ok <==> {
            &&& rfc3339(row.created_at) is Ok
            &&& row.released_at matches Some(at) ==> rfc3339(at) is Ok
            &&& forall|i: int|
                0 <= i < rows.len() ==> rfc3339((#[trigger] rows[i]).created_at) is Ok
        },
{
    scopes_are_presented_unless_an_instant_has_no_text(rows);
}

/// Every activity row is presented by one event, in the same order: with the
/// identifier in decimal, the kind, the actor and the payload of the row, and the
/// RFC 3339 text of its instant.
pub proof fn events_are_presented_in_order(rows: Seq<ActivityRowModel>)
    ensures
        presented_activity(rows) matches Ok(events) ==> {
            &&& events.len() == rows.len()
            &&& forall|i: int|
                0 <= i < rows.len() ==> {
                    &&& (#[trigger] events[i]).activity_id == decimal(rows[i].activity_id)
                    &&& events[i].kind == rows[i].kind
                    &&& events[i].actor_subject == rows[i].actor_subject
                    &&& events[i].payload == rows[i].payload
                    &&& rfc3339(rows[i].created_at) == Ok::<Text, Text>(events[i].created_at)
                }
        },
        presented_activity(rows) is Ok <==> forall|i: int|
            0 <= i < rows.len() ==> rfc3339((#[trigger] rows[i]).created_at) is Ok,
    decreases rows.len(),
{
    if rows.len() > 0 {
        let earlier = rows.drop_last();
        events_are_presented_in_order(earlier);
        assert(rows[rows.len() - 1] == rows.last());
        assert forall|i: int| 0 <= i < earlier.len() implies #[trigger] earlier[i] == rows[i] by {
        }
        if presented_activity(earlier) is Err {
            let at = choose|i: int|
                0 <= i < earlier.len() && !(rfc3339((#[trigger] earlier[i]).created_at) is Ok);
            assert(rows[at] == earlier[at]);
        } else {
            assert forall|i: int| 0 <= i < earlier.len() implies rfc3339(
                (#[trigger] rows[i]).created_at,
            ) is Ok by {
                assert(earlier[i] == rows[i]);
            }
        }
    }
}

/// Presents scope rows.
pub fn present_scopes(rows: Vec<ScopeRow>) -> (scopes: Result<Vec<ScopeView>, String>)
    ensures
        match scopes {
            Ok(scopes) => presented_scopes(scope_rows(rows@)) == Ok::<Seq<ScopeModel>, Text>(
                scope_models(scopes@),
            ),
            Err(message) => presented_scopes(scope_rows(rows@)) == Err::<Seq<ScopeModel>, Text>(
                message@,
            ),
        },
        scopes matches Ok(scopes) ==> {
            &&& scopes@.len() == rows@.len()
            &&& forall|i: int|
                0 <= i < rows@.len() ==> {
                    &&& (#[trigger] scopes@[i]).scope_kind@ == rows@[i].scope_kind@
                    &&& scopes@[i].scope_id@ == rows@[i].scope_id@
                    &&& optional_text(scopes@[i].subject) == optional_text(rows@[i].subject)
                    &&& rfc3339(rows@[i].created_at as int) == Ok::<Text, Text>(
                        scopes@[i].created_at@,
                    )
                }
        },
{
    let ghost models = scope_rows(rows@);
    let mut scopes: Vec<ScopeView> = Vec::new();
    assert(scope_models(scopes@) == Seq::<ScopeModel>::empty());
    for row in it: rows
        invariant
            models == scope_rows(it.seq()),
            presented_scopes(models.take(it.index())) == Ok::<Seq<ScopeModel>, Text>(
                scope_models(scopes@),
            ),
    {
        let ghost n = it.index();
        let ghost done = scopes@;
        proof {
            assert(models.take(n + 1).drop_last() == models.take(n));
            assert(models.take(n + 1).last() == row@);
        }
        match format_time(row.created_at) {
            Ok(created_at) => {
                scopes.push(
                    ScopeView {
                        scope_kind: row.scope_kind,
                        scope_id: row.scope_id,
                        subject: row.subject,
                        created_at,
                    },
                );
                assert(scope_models(scopes@) == scope_models(done).push(scopes@.last()@));
            },
            Err(message) => {
                proof {
                    lemma_first_failure_stays(models, n + 1);
                }
                return Err(message);
            },
        }
    }
    assert(models.take(models.len() as int) == models);
    proof {
        scopes_are_presented_in_order(models);
        assert forall|i: int| 0 <= i < models.len() implies {
            &&& (#[trigger] scopes@[i]).scope_kind@ == models[i].scope_kind
            &&& scopes@[i].scope_id@ == models[i].scope_id
            &&& optional_text(scopes@[i].subject) == models[i].subject
            &&& rfc3339(models[i].created_at) == Ok::<Text, Text>(scopes@[i].created_at@)
        } by {
            assert(scope_models(scopes@)[i] == scopes@[i]@);
        }
    }
    Ok(scopes)
}

/// Presents an optional instant.
pub fn present_instant(at: Option<i128>) -> (text: Result<Option<String>, String>)
    ensures
        presented_instant(optional_instant(at)) == match text {
            Ok(text) => Ok::<Option<Text>, Text>(optional_text(text)),
            Err(message) => Err(message@),
        },
{
    match at {
        Some(at) => match format_time(at) {
            Ok(text) => Ok(Some(text)),
            Err(message) => Err(message),
        },
        None => Ok(None),
    }
}

/// Presents a hold row with its scopes.
pub fn present_hold(row: HoldRow, scopes: Vec<ScopeView>) -> (hold: Result<HoldView, String>)
    ensures
        forall|rows: Seq<ScopeRowModel>|
            presented_scopes(rows) == Ok::<Seq<ScopeModel>, Text>(scope_models(scopes@))
                ==> #[trigger] presented_hold(row@, rows) == match hold {
                Ok(hold) => Ok::<HoldModel, Text>(hold@),
                Err(message) => Err(message@),
            },
        hold matches Ok(hold) ==> {
            &&& hold.organization_id@ == row.organization_id@
            &&& hold.hold_id@ == row.hold_id@
            &&& hold.title@ == row.title@
            &&& hold.reason@ == row.reason@
            &&& hold.legal_authority@ == row.legal_authority@
            &&& hold.status@ == row.status@
            &&& hold.revision@ == decimal(row.revision as int)
            &&& hold.created_by@ == row.created_by@
            &&& rfc3339(row.created_at as int) == Ok::<Text, Text>(hold.created_at@)
            &&& hold.released_by == row.released_by
            &&& row.released_at is None ==> hold.released_at is None
            &&& row.released_at matches Some(at) ==> hold.released_at matches Some(text)
                && rfc3339(at as int) == Ok::<Text, Text>(text@)
            &&& hold.release_reason == row.release_reason
            &&& hold.scopes == scopes
        },
{
    let created_at = match format_time(row.created_at) {
        Ok(text) => text,
        Err(message) => {
            return Err(message);
        },
    };
    let released_at = match present_instant(row.released_at) {
        Ok(text) => text,
        Err(message) => {
            return Err(message);
        },
    };
    Ok(
        HoldView {
            organization_id: row.organization_id,
            hold_id: row.hold_id,
            title: row.title,
            reason: row.reason,
            legal_authority: row.legal_authority,
            status: row.status,
            revision: decimal_text(row.revision),
            created_by: row.created_by,
            created_at,
            released_by: row.released_by,
            released_at,
            release_reason: row.release_reason,
            scopes,
        },
    )
}

/// Presents activity rows.
pub fn present_activity(rows: Vec<ActivityRow>) -> (events: Result<Vec<ActivityView>, String>)
    ensures
        match events {
            Ok(events) => presented_activity(activity_rows(rows@)) == Ok::<
                Seq<ActivityModel>,
                Text,
            >(activity_models(events@)),
            Err(message) => presented_activity(activity_rows(rows@)) == Err::<
                Seq<ActivityModel>,
                Text,
            >(message@),
        },
        events matches Ok(events) ==> {
            &&& events@.len() == rows@.len()
            &&& forall|i: int|
                0 <= i < rows@.len() ==> {
                    &&& (#[trigger] events@[i]).activity_id@ == decimal(rows@[i].activity_id as int)
                    &&& events@[i].kind@ == rows@[i].kind@
                    &&& events@[i].actor_subject@ == rows@[i].actor_subject@
                    &&& json_content(events@[i].payload) == json_content(rows@[i].payload)
                    &&& rfc3339(rows@[i].created_at as int) == Ok::<Text, Text>(
                        events@[i].created_at@,
                    )
                }
        },
{
    let ghost models = activity_rows(rows@);
    let mut events: Vec<ActivityView> = Vec::new();
    assert(activity_models(events@) == Seq::<ActivityModel>::empty());
    for row in it: rows
        invariant
            models == activity_rows(it.seq()),
            presented_activity(models.take(it.index())) == Ok::<Seq<ActivityModel>, Text>(
                activity_models(events@),
            ),
    {
        let ghost n = it.index();
        let ghost done = events@;
        proof {
            assert(models.take(n + 1).drop_last() == models.take(n));
            assert(models.take(n + 1).last() == row@);
        }
        match format_time(row.created_at) {
            Ok(created_at) => {
                events.push(
                    ActivityView {
                        activity_id: decimal_text(row.activity_id),
                        kind: row.kind,
                        actor_subject: row.actor_subject,
                        payload: row.payload,
                        created_at,
                    },
                );
                assert(activity_models(events@) == activity_models(done).push(events@.last()@));
            },
            Err(message) => {
                proof {
                    lemma_first_activity_failure_stays(models, n + 1);
                }
                return Err(message);
            },
        }
    }
    assert(models.take(models.len() as int) == models);
    proof {
        events_are_presented_in_order(models);
        assert forall|i: int| 0 <= i < models.len() implies {
            &&& (#[trigger] events@[i]).activity_id@ == decimal(models[i].activity_id)
            &&& events@[i].kind@ == models[i].kind
            &&& events@[i].actor_subject@ == models[i].actor_subject
            &&& json_content(events@[i].payload) == models[i].payload
            &&& rfc3339(models[i].created_at) == Ok::<Text, Text>(events@[i].created_at@)
        } by {
            assert(activity_models(events@)[i] == events@[i]@);
        }
    }
    Ok(events)
}

/// Where a hold cannot be presented, the message is that of the first instant that has
/// no text: those of its scopes first, then that of its creation, then that of its
/// release.
pub proof fn unpresented_holds_give_the_first_message(
    row: HoldRowModel,
    rows: Seq<ScopeRowModel>,
    message: Text,
)
    requires
        presented_hold(row, rows) == Err::<HoldModel, Text>(message),
    ensures
        ({
            let scopes = forall|i: int|
                0 <= i < rows.len() ==> rfc3339((#[trigger] rows[i]).created_at) is Ok;
            &&& !scopes ==> presented_scopes(rows) == Err::<Seq<ScopeModel>, Text>(message)
            &&& scopes && rfc3339(row.created_at) is Err ==> rfc3339(row.created_at) == Err::<
                Text,
                Text,
            >(message)
            &&& scopes && rfc3339(row.created_at) is Ok ==> (row.released_at matches Some(at)
                && rfc3339(at) == Err::<Text, Text>(message))
        }),
{
    scopes_are_presented_unless_an_instant_has_no_text(rows);
}

} // verus!
