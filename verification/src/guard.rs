//! The retention guard: whether an active hold blocks a destructive action.
//!
//! Every evaluation stores its evidence, with the exact holds that matched and
//! their revisions, before it answers.
use vstd::prelude::*;
use vstd::string::*;
use crate::authorization::{allowed_caller, is_allowed};
use crate::config::LegalHoldConfig;
use crate::digest::{
    digests_collide, digests_have_64_digits, hex_encoded, hex_text, hex_text_tells_bytes_apart,
    is_hex_digit, sha256, sha256_digest,
};
use crate::failure::{PluginError, PluginErrorModel, RuntimeFault, RuntimeFaultModel};
use crate::json::{
    is_written, json_content, json_wire, keys_are_distinct, lemma_short_keys_are_plain,
    list_content, list_value, members_content, nests_within, object_value, reads_back, text_member,
    wire_bytes, Json, READABLE_NESTING,
};
use crate::statement::{
    matching_models, MatchingHold, MatchingHoldModel, Reply, ReplyModel, Statement, StatementModel,
    StorageError, StorageErrorModel,
};
use crate::text::{
    decimal, decimal_tells_integers_apart, decimal_text, id_is_valid, optional_text, text_is_valid,
    text_of, texts, valid_id, valid_text, Text, MAX_REASON_BYTES, MAX_SCOPE_KIND_BYTES,
};

verus! {

/// The reason code of a blocked action.
pub const ACTIVE_LEGAL_HOLD: &'static str = "active_legal_hold";

/// What a destructive action does to the subject's data.
#[derive(Clone, Copy, Debug, PartialEq, Eq, Structural)]
pub enum CheckRetentionRequestMode {
    Delete,
    Anonymize,
}

/// The name of a mode, as evidence writes it.
pub open spec fn mode_name(mode: CheckRetentionRequestMode) -> Text {
    match mode {
        CheckRetentionRequestMode::Delete => "delete"@,
        CheckRetentionRequestMode::Anonymize => "anonymize"@,
    }
}

impl CheckRetentionRequestMode {
    /// The name of this mode.
    pub fn name(&self) -> (name: &'static str)
        ensures
            name@ == mode_name(*self),
    {
        match self {
            CheckRetentionRequestMode::Delete => "delete",
            CheckRetentionRequestMode::Anonymize => "anonymize",
        }
    }
}

/// Asks whether an action on a subject in a scope may proceed.
#[derive(Debug, PartialEq, Eq)]
pub struct CheckRetentionRequest {
    pub action_id: String,
    pub scope_kind: String,
    pub scope_id: String,
    pub subject: String,
    pub mode: CheckRetentionRequestMode,
    pub reason: String,
}

impl CheckRetentionRequest {
    /// Whether every field of the request is within bounds.
    pub open spec fn is_valid(self) -> bool {
        &&& id_is_valid(self.action_id@)
        &&& text_is_valid(self.scope_kind@, MAX_SCOPE_KIND_BYTES as nat, false)
        &&& id_is_valid(self.scope_id@)
        &&& id_is_valid(self.subject@)
        &&& text_is_valid(self.reason@, MAX_REASON_BYTES as nat, true)
    }

    /// The check that the request asks for on behalf of a caller.
    pub open spec fn check_for(self, caller: Text) -> RetentionCheckModel {
        RetentionCheckModel {
            caller,
            action_id: self.action_id@,
            scope_kind: self.scope_kind@,
            scope_id: self.scope_id@,
            subject: self.subject@,
            mode: mode_name(self.mode),
            reason: self.reason@,
        }
    }
}

/// A domain answer of the guard that is not a decision.
#[derive(Clone, Copy, Debug, PartialEq, Eq, Structural)]
pub enum CheckRetentionError {
    InvalidRequest,
    Forbidden,
}

/// One evaluation of the guard.
#[derive(Debug, PartialEq, Eq)]
pub struct RetentionCheck {
    pub caller: String,
    pub action_id: String,
    pub scope_kind: String,
    pub scope_id: String,
    pub subject: String,
    pub mode: String,
    pub reason: String,
}

/// What a [`RetentionCheck`] says.
#[verifier::ext_equal]
pub struct RetentionCheckModel {
    pub caller: Text,
    pub action_id: Text,
    pub scope_kind: Text,
    pub scope_id: Text,
    pub subject: Text,
    pub mode: Text,
    pub reason: Text,
}

impl View for RetentionCheck {
    type V = RetentionCheckModel;

    open spec fn view(&self) -> RetentionCheckModel {
        RetentionCheckModel {
            caller: self.caller@,
            action_id: self.action_id@,
            scope_kind: self.scope_kind@,
            scope_id: self.scope_id@,
            subject: self.subject@,
            mode: self.mode@,
            reason: self.reason@,
        }
    }
}

/// Whether the action may proceed, and the durable decision that says so.
#[derive(Debug, PartialEq, Eq)]
pub struct GuardDecision {
    pub allowed: bool,
    pub decision_id: String,
    pub reason_code: Option<String>,
}

/// What a [`GuardDecision`] says.
#[verifier::ext_equal]
pub struct GuardDecisionModel {
    pub allowed: bool,
    pub decision_id: Text,
    pub reason_code: Option<Text>,
}

impl View for GuardDecision {
    type V = GuardDecisionModel;

    open spec fn view(&self) -> GuardDecisionModel {
        GuardDecisionModel {
            allowed: self.allowed,
            decision_id: self.decision_id@,
            reason_code: optional_text(self.reason_code),
        }
    }
}

/// A matching hold, as evidence lists it.
pub open spec fn matching_hold_json(hold: MatchingHoldModel) -> Json {
    Json::Object(
        seq![
            ("hold_id"@, Json::Text(hold.hold_id)),
            ("revision"@, Json::Text(decimal(hold.revision))),
        ],
    )
}

/// The matching holds, as evidence lists them.
pub open spec fn matching_holds_json(holds: Seq<MatchingHoldModel>) -> Json {
    Json::List(Seq::new(holds.len(), |i: int| matching_hold_json(holds[i])))
}

impl RetentionCheckModel {
    /// Everything that a decision rests on.
    pub open spec fn evidence(self, holds: Seq<MatchingHoldModel>) -> Json {
        Json::Object(
            seq![
                ("caller"@, Json::Text(self.caller)),
                ("action_id"@, Json::Text(self.action_id)),
                ("scope_kind"@, Json::Text(self.scope_kind)),
                ("scope_id"@, Json::Text(self.scope_id)),
                ("subject"@, Json::Text(self.subject)),
                ("mode"@, Json::Text(self.mode)),
                ("reason"@, Json::Text(self.reason)),
                ("matching_holds"@, matching_holds_json(holds)),
            ],
        )
    }

    /// The decision on the wire form of the evidence: the action is allowed
    /// exactly when no hold matched.
    pub open spec fn decision(
        self,
        wire: Seq<u8>,
        holds: Seq<MatchingHoldModel>,
    ) -> GuardDecisionModel {
        GuardDecisionModel {
            allowed: holds.len() == 0,
            decision_id: "guard:"@ + hex_text(sha256(wire)),
            reason_code: if holds.len() == 0 {
                None
            } else {
                Some(ACTIVE_LEGAL_HOLD@)
            },
        }
    }

    /// Lists the holds that cover the subject.
    pub open spec fn match_holds(self) -> StatementModel {
        StatementModel::MatchHolds {
            scope_kind: self.scope_kind,
            scope_id: self.scope_id,
            subject: self.subject,
        }
    }

    /// Stores the decision with the exact holds that matched.
    pub open spec fn store_decision(
        self,
        wire: Seq<u8>,
        holds: Seq<MatchingHoldModel>,
    ) -> StatementModel {
        let decision = self.decision(wire, holds);
        StatementModel::StoreDecision {
            decision_id: decision.decision_id,
            action_id: self.action_id,
            caller_instance: self.caller,
            request_hash: sha256(wire),
            allowed: decision.allowed,
            reason_code: decision.reason_code,
            matching_holds: matching_holds_json(holds),
        }
    }
}

/// The form of a decision identifier: a prefix and 64 lower-case hexadecimal
/// digits.
pub open spec fn is_decision_id(id: Text) -> bool {
    &&& id.len() == 70
    &&& id.take(6) == "guard:"@
    &&& forall|i: int| 6 <= i < 70 ==> is_hex_digit(#[trigger] id[i])
}

/// Every decision has an identifier of that form.
pub proof fn decision_ids_have_one_form(
    check: RetentionCheckModel,
    wire: Seq<u8>,
    holds: Seq<MatchingHoldModel>,
)
    ensures
        is_decision_id(check.decision(wire, holds).decision_id),
{
    reveal_strlit("guard:");
    digests_have_64_digits(wire);
    let digits = hex_text(sha256(wire));
    let id = "guard:"@ + digits;
    assert(id.take(6) == "guard:"@);
    assert forall|i: int| 6 <= i < 70 implies is_hex_digit(#[trigger] id[i]) by {
        assert(id[i] == digits[i - 6]);
    }
}

proof fn lemma_evidence_reads_back(check: RetentionCheckModel, holds: Seq<MatchingHoldModel>)
    ensures
        reads_back(check.evidence(holds)),
{
    reveal_with_fuel(nests_within, 5);
    reveal_strlit("caller");
    reveal_strlit("hold_id");
    lemma_short_keys_are_plain("caller"@);
    lemma_short_keys_are_plain("hold_id"@);
    let levels = READABLE_NESTING as nat;
    let items = matching_holds_json(holds)->List_0;
    assert forall|i: int| 0 <= i < items.len() implies nests_within(
        #[trigger] items[i],
        (levels - 2) as nat,
    ) by {
        assert(items[i] == matching_hold_json(holds[i]));
    }
    assert(nests_within(matching_holds_json(holds), (levels - 1) as nat));
}

/// The holds that evidence lists can be told from it.
proof fn lemma_matching_holds_are_told_apart(
    left: Seq<MatchingHoldModel>,
    right: Seq<MatchingHoldModel>,
)
    requires
        matching_holds_json(left) == matching_holds_json(right),
    ensures
        left == right,
{
    let items = matching_holds_json(left)->List_0;
    let others = matching_holds_json(right)->List_0;
    assert(items.len() == left.len() && others.len() == right.len());
    assert forall|i: int| 0 <= i < left.len() implies left[i] == right[i] by {
        assert(items[i] == matching_hold_json(left[i]));
        assert(others[i] == matching_hold_json(right[i]));
        let members = matching_hold_json(left[i])->Object_0;
        let theirs = matching_hold_json(right[i])->Object_0;
        assert(members[0] == theirs[0] && members[1] == theirs[1]);
        decimal_tells_integers_apart(left[i].revision, right[i].revision);
    }
    assert(left == right);
}

/// Evidence tells checks apart, and the holds that matched.
pub proof fn evidence_tells_checks_apart(
    left: RetentionCheckModel,
    right: RetentionCheckModel,
    left_holds: Seq<MatchingHoldModel>,
    right_holds: Seq<MatchingHoldModel>,
)
    requires
        left.evidence(left_holds) == right.evidence(right_holds),
    ensures
        left == right,
        left_holds == right_holds,
{
    let members = left.evidence(left_holds)->Object_0;
    let theirs = right.evidence(right_holds)->Object_0;
    assert(members[0] == theirs[0] && members[1] == theirs[1] && members[2] == theirs[2]
        && members[3] == theirs[3] && members[4] == theirs[4] && members[5] == theirs[5]
        && members[6] == theirs[6] && members[7] == theirs[7]);
    lemma_matching_holds_are_told_apart(left_holds, right_holds);
}

/// Decisions on evidence that was written share an identifier only where they
/// share the evidence, unless two wire forms share a digest.
pub proof fn decision_ids_tell_evidence_apart(
    left: RetentionCheckModel,
    right: RetentionCheckModel,
    left_holds: Seq<MatchingHoldModel>,
    right_holds: Seq<MatchingHoldModel>,
    left_wire: Seq<u8>,
    right_wire: Seq<u8>,
)
    requires
        is_written(left.evidence(left_holds), left_wire),
        is_written(right.evidence(right_holds), right_wire),
        left.decision(left_wire, left_holds).decision_id == right.decision(
            right_wire,
            right_holds,
        ).decision_id,
    ensures
        (left == right && left_holds == right_holds) || digests_collide(left_wire, right_wire),
{
    let digits = hex_text(sha256(left_wire));
    let others = hex_text(sha256(right_wire));
    assert(("guard:"@ + digits).skip("guard:"@.len() as int) == digits);
    assert(("guard:"@ + others).skip("guard:"@.len() as int) == others);
    hex_text_tells_bytes_apart(sha256(left_wire), sha256(right_wire));
    if left_wire == right_wire {
        evidence_tells_checks_apart(left, right, left_holds, right_holds);
    }
}

/// How far an evaluation has come: what it waits for.
#[derive(Debug, PartialEq, Eq)]
pub enum GuardPhase {
    Match,
    Store(GuardDecision),
}

/// What a [`GuardPhase`] says.
#[verifier::ext_equal]
pub enum GuardPhaseModel {
    Match,
    Store(GuardDecisionModel),
}

impl View for GuardPhase {
    type V = GuardPhaseModel;

    open spec fn view(&self) -> GuardPhaseModel {
        match *self {
            GuardPhase::Match => GuardPhaseModel::Match,
            GuardPhase::Store(decision) => GuardPhaseModel::Store(decision@),
        }
    }
}

/// What comes after a reply in an evaluation.
#[derive(Debug, PartialEq, Eq)]
pub enum GuardStep {
    Run(GuardPhase, Statement),
    Finished(Result<GuardDecision, StorageError>),
}

/// What a [`GuardStep`] says.
#[verifier::ext_equal]
pub enum GuardStepModel {
    Run(GuardPhaseModel, StatementModel),
    Finished(Result<GuardDecisionModel, StorageErrorModel>),
}

/// What the outcome of an evaluation says.
pub open spec fn guard_outcome(outcome: Result<GuardDecision, StorageError>) -> Result<
    GuardDecisionModel,
    StorageErrorModel,
> {
    match outcome {
        Ok(decision) => Ok(decision@),
        Err(error) => Err(error@),
    }
}

impl View for GuardStep {
    type V = GuardStepModel;

    open spec fn view(&self) -> GuardStepModel {
        match *self {
            GuardStep::Run(phase, statement) => GuardStepModel::Run(phase@, statement@),
            GuardStep::Finished(outcome) => GuardStepModel::Finished(guard_outcome(outcome)),
        }
    }
}

/// The name of the database step that an evaluation waits for.
pub open spec fn guard_step_name(phase: GuardPhaseModel) -> Text {
    match phase {
        GuardPhaseModel::Match => "evaluate legal hold guard"@,
        GuardPhaseModel::Store(_) => "store legal hold guard decision"@,
    }
}

/// What an evaluation does once the matching holds are known.
pub open spec fn guard_decided(
    check: RetentionCheckModel,
    holds: Seq<MatchingHoldModel>,
) -> GuardStepModel {
    match json_wire(check.evidence(holds)) {
        Err(message) => GuardStepModel::Finished(Err(StorageErrorModel::Serialization(message))),
        Ok(wire) => GuardStepModel::Run(
            GuardPhaseModel::Store(check.decision(wire, holds)),
            check.store_decision(wire, holds),
        ),
    }
}

/// What an evaluation does on a reply.
pub open spec fn guard_next(
    check: RetentionCheckModel,
    phase: GuardPhaseModel,
    reply: ReplyModel,
) -> GuardStepModel {
    match (phase, reply) {
        (_, ReplyModel::Undecodable(operation)) => GuardStepModel::Finished(
            Err(StorageErrorModel::Database { operation }),
        ),
        (_, ReplyModel::NotPrepared) => GuardStepModel::Finished(
            Err(StorageErrorModel::NotPrepared),
        ),
        (GuardPhaseModel::Match, ReplyModel::Matches(holds)) => guard_decided(check, holds),
        (GuardPhaseModel::Store(decision), ReplyModel::Affected(_)) => GuardStepModel::Finished(
            Ok(decision),
        ),
        (_, _) => GuardStepModel::Finished(
            Err(StorageErrorModel::Database { operation: guard_step_name(phase) }),
        ),
    }
}

/// The check that a request asks for names, in either mode, the action, the kind and
/// the identifier of the scope, the subject and the reason of that request, each as
/// what it is, and the caller on whose behalf it runs.
pub proof fn checks_name_what_was_requested(request: CheckRetentionRequest, caller: Text)
    ensures
        request.check_for(caller).caller == caller,
        request.check_for(caller).action_id == request.action_id@,
        request.check_for(caller).scope_kind == request.scope_kind@,
        request.check_for(caller).scope_id == request.scope_id@,
        request.check_for(caller).subject == request.subject@,
        request.check_for(caller).reason == request.reason@,
        request.mode is Delete ==> request.check_for(caller).mode == "delete"@,
        request.mode is Anonymize ==> request.check_for(caller).mode == "anonymize"@,
{
}

/// The guard answers whoever is on its list of callers, and no one else, about
/// every request within bounds: identifiers and the subject of up to 512 bytes, a
/// scope kind of up to 128, and a reason of up to 20,000 that may be empty. A caller
/// that is not on the list is told that, whatever it asks.
pub proof fn the_guard_admits_its_callers_within_bounds(
    caller_instance: Option<Text>,
    guard_callers: Seq<Text>,
    request: CheckRetentionRequest,
)
    ensures
        ({
            let known = caller_instance matches Some(caller) && guard_callers.contains(caller);
            let within = {
                &&& text_is_valid(request.action_id@, 512, false)
                &&& text_is_valid(request.scope_kind@, 128, false)
                &&& text_is_valid(request.scope_id@, 512, false)
                &&& text_is_valid(request.subject@, 512, false)
                &&& text_is_valid(request.reason@, 20_000, true)
            };
            guard_refusal(caller_instance, guard_callers, request) == if !known {
                Some(CheckRetentionError::Forbidden)
            } else if !within {
                Some(CheckRetentionError::InvalidRequest)
            } else {
                None
            }
        }),
{
}

/// The guard looks for the holds that cover the subject of the check in its scope.
pub proof fn the_guard_looks_for_what_was_asked(check: RetentionCheckModel)
    ensures
        check.match_holds() matches StatementModel::MatchHolds { scope_kind, scope_id, subject }
            && scope_kind == check.scope_kind && scope_id == check.scope_id && subject
            == check.subject,
{
}

/// A decision allows the action exactly when no hold matched, and says why where one
/// did. Its identifier is the digest of the wire form of its evidence.
pub proof fn decisions_say_whether_a_hold_matched(
    check: RetentionCheckModel,
    wire: Seq<u8>,
    holds: Seq<MatchingHoldModel>,
)
    ensures
        holds.len() == 0 ==> check.decision(wire, holds).allowed && check.decision(
            wire,
            holds,
        ).reason_code is None,
        holds.len() > 0 ==> !check.decision(wire, holds).allowed && check.decision(
            wire,
            holds,
        ).reason_code == Some("active_legal_hold"@),
        check.decision(wire, holds).decision_id == "guard:"@ + hex_text(sha256(wire)),
{
}

/// Evidence names everything that a decision rests on: who asked, about which action
/// on which subject in which scope, how and why, and every hold that matched with its
/// revision, in the order in which they were found.
pub proof fn evidence_names_what_a_decision_rests_on(
    check: RetentionCheckModel,
    holds: Seq<MatchingHoldModel>,
)
    ensures
        check.evidence(holds) matches Json::Object(members) && {
            &&& members.len() == 8
            &&& members[0] == ("caller"@, Json::Text(check.caller))
            &&& members[1] == ("action_id"@, Json::Text(check.action_id))
            &&& members[2] == ("scope_kind"@, Json::Text(check.scope_kind))
            &&& members[3] == ("scope_id"@, Json::Text(check.scope_id))
            &&& members[4] == ("subject"@, Json::Text(check.subject))
            &&& members[5] == ("mode"@, Json::Text(check.mode))
            &&& members[6] == ("reason"@, Json::Text(check.reason))
            &&& members[7] == ("matching_holds"@, matching_holds_json(holds))
        },
        matching_holds_json(holds) matches Json::List(items) && {
            &&& items.len() == holds.len()
            &&& forall|i: int|
                0 <= i < holds.len() ==> ((#[trigger] items[i]) matches Json::Object(members) && {
                    &&& members.len() == 2
                    &&& members[0] == ("hold_id"@, Json::Text(holds[i].hold_id))
                    &&& members[1] == ("revision"@, Json::Text(decimal(holds[i].revision)))
                })
        },
{
}

/// What the guard stores is the decision that it gives, the action and the caller
/// that it is about, the digest of its evidence, and the holds that matched.
pub proof fn the_guard_stores_what_it_decides(
    check: RetentionCheckModel,
    wire: Seq<u8>,
    holds: Seq<MatchingHoldModel>,
)
    ensures
        check.store_decision(wire, holds) matches StatementModel::StoreDecision {
            decision_id,
            action_id,
            caller_instance,
            request_hash,
            allowed,
            reason_code,
            matching_holds,
        } && {
            &&& decision_id == check.decision(wire, holds).decision_id
            &&& action_id == check.action_id
            &&& caller_instance == check.caller
            &&& request_hash == sha256(wire)
            &&& allowed == check.decision(wire, holds).allowed
            &&& reason_code == check.decision(wire, holds).reason_code
            &&& matching_holds == matching_holds_json(holds)
        },
{
}

/// The guard decides on the holds that storage names and on nothing else, and gives
/// the decision once it is stored. Whatever else comes back, it decides nothing, and
/// the failure names the step.
pub proof fn the_guard_decides_only_on_what_it_finds(
    check: RetentionCheckModel,
    phase: GuardPhaseModel,
    reply: ReplyModel,
)
    ensures
        ({
            let step = guard_next(check, phase, reply);
            let failed = |error: StorageErrorModel| step == GuardStepModel::Finished(Err(error));
            &&& phase is Match ==> (reply matches ReplyModel::Matches(holds) ==> {
                let evidence = check.evidence(holds);
                &&& json_wire(evidence) matches Ok(wire) ==> step == GuardStepModel::Run(
                    GuardPhaseModel::Store(check.decision(wire, holds)),
                    check.store_decision(wire, holds),
                )
                &&& json_wire(evidence) matches Err(message) ==> failed(
                    StorageErrorModel::Serialization(message),
                )
            })
            &&& phase matches GuardPhaseModel::Store(decision) ==> (reply is Affected ==> step
                == GuardStepModel::Finished(Ok(decision)))
            &&& step matches GuardStepModel::Run(..) ==> phase is Match && reply is Matches
            &&& step matches GuardStepModel::Finished(Ok(decision)) ==> phase
                == GuardPhaseModel::Store(decision) && reply is Affected
            &&& reply is NotPrepared ==> failed(StorageErrorModel::NotPrepared)
            &&& reply matches ReplyModel::Undecodable(operation) ==> failed(
                StorageErrorModel::Database { operation },
            )
            &&& phase is Match && !(reply is NotPrepared || reply is Undecodable
                || reply is Matches) ==> failed(
                StorageErrorModel::Database { operation: "evaluate legal hold guard"@ },
            )
            &&& phase is Store && !(reply is NotPrepared || reply is Undecodable
                || reply is Affected) ==> failed(
                StorageErrorModel::Database { operation: "store legal hold guard decision"@ },
            )
        }),
{
}

fn matching_hold_value(hold: &MatchingHold) -> (value: serde_json::Value)
    ensures
        json_content(value) == matching_hold_json(hold@),
{
    let mut members: Vec<(String, serde_json::Value)> = Vec::new();
    members.push(text_member("hold_id", hold.hold_id.as_str()));
    let revision = decimal_text(hold.revision);
    members.push(text_member("revision", revision.as_str()));
    proof {
        reveal_strlit("hold_id");
        reveal_strlit("revision");
        assert("hold_id"@.len() < "revision"@.len());
        assert(keys_are_distinct(members@));
        assert(members_content(members@) == matching_hold_json(hold@)->Object_0);
    }
    object_value(members)
}

fn matching_holds_value(holds: &Vec<MatchingHold>) -> (value: serde_json::Value)
    ensures
        json_content(value) == matching_holds_json(matching_models(holds@)),
{
    let mut items: Vec<serde_json::Value> = Vec::new();
    let mut i: usize = 0;
    while i < holds.len()
        invariant
            i <= holds.len(),
            items.len() == i,
            forall|j: int|
                0 <= j < i ==> json_content(#[trigger] items@[j]) == matching_hold_json(holds@[j]@),
        decreases holds.len() - i,
    {
        items.push(matching_hold_value(&holds[i]));
        i += 1;
    }
    proof {
        assert(list_content(items@) == matching_holds_json(matching_models(holds@))->List_0);
    }
    list_value(items)
}

impl RetentionCheck {
    fn evidence(&self, holds: &Vec<MatchingHold>) -> (evidence: serde_json::Value)
        ensures
            json_content(evidence) == self@.evidence(matching_models(holds@)),
    {
        let mut members: Vec<(String, serde_json::Value)> = Vec::new();
        members.push(text_member("caller", self.caller.as_str()));
        members.push(text_member("action_id", self.action_id.as_str()));
        members.push(text_member("scope_kind", self.scope_kind.as_str()));
        members.push(text_member("scope_id", self.scope_id.as_str()));
        members.push(text_member("subject", self.subject.as_str()));
        members.push(text_member("mode", self.mode.as_str()));
        members.push(text_member("reason", self.reason.as_str()));
        members.push((text_of("matching_holds"), matching_holds_value(holds)));
        proof {
            reveal_strlit("caller");
            reveal_strlit("action_id");
            reveal_strlit("scope_kind");
            reveal_strlit("scope_id");
            reveal_strlit("subject");
            reveal_strlit("mode");
            reveal_strlit("reason");
            reveal_strlit("matching_holds");
            assert("caller"@[0] == 'c' && "reason"@[0] == 'r');
            assert("mode"@.len() < "caller"@.len() == "reason"@.len() < "subject"@.len()
                < "scope_id"@.len() < "action_id"@.len() < "scope_kind"@.len()
                < "matching_holds"@.len());
            assert(keys_are_distinct(members@));
            assert(members_content(members@) == self@.evidence(
                matching_models(holds@),
            )->Object_0);
        }
        object_value(members)
    }

    /// Decides on the wire form of the evidence, and on the holds that matched.
    pub fn decide(&self, wire: &Vec<u8>, holds: &Vec<MatchingHold>) -> (decision: GuardDecision)
        ensures
            decision@ == self@.decision(wire@, matching_models(holds@)),
            is_decision_id(decision.decision_id@),
            decision.allowed <==> holds@.len() == 0,
            decision.reason_code is Some <==> holds@.len() > 0,
    {
        proof {
            decision_ids_have_one_form(self@, wire@, matching_models(holds@));
        }
        let mut decision_id = text_of("guard:");
        decision_id.append(hex_encoded(&sha256_digest(wire)).as_str());
        let allowed = holds.len() == 0;
        GuardDecision {
            allowed,
            decision_id,
            reason_code: if allowed {
                None
            } else {
                Some(text_of(ACTIVE_LEGAL_HOLD))
            },
        }
    }

    fn store_decision(&self, wire: &Vec<u8>, holds: &Vec<MatchingHold>) -> (statement: Statement)
        ensures
            statement@ == self@.store_decision(wire@, matching_models(holds@)),
    {
        let decision = self.decide(wire, holds);
        Statement::StoreDecision {
            decision_id: decision.decision_id,
            action_id: self.action_id.clone(),
            caller_instance: self.caller.clone(),
            request_hash: sha256_digest(wire),
            allowed: decision.allowed,
            reason_code: decision.reason_code,
            matching_holds: matching_holds_value(holds),
        }
    }

    fn match_holds(&self) -> (statement: Statement)
        ensures
            statement@ == self@.match_holds(),
    {
        Statement::MatchHolds {
            scope_kind: self.scope_kind.clone(),
            scope_id: self.scope_id.clone(),
            subject: self.subject.clone(),
        }
    }

    /// Opens the evaluation.
    pub fn start(&self) -> (step: (GuardPhase, Statement))
        ensures
            step.0@ == GuardPhaseModel::Match,
            step.1@ == self@.match_holds(),
            step.1@ == (StatementModel::MatchHolds {
                scope_kind: self.scope_kind@,
                scope_id: self.scope_id@,
                subject: self.subject@,
            }),
    {
        (GuardPhase::Match, self.match_holds())
    }

    fn after_match(&self, holds: Vec<MatchingHold>) -> (step: GuardStep)
        ensures
            step@ == guard_decided(self@, matching_models(holds@)),
            json_wire(self@.evidence(matching_models(holds@))) matches Ok(wire) ==> is_written(
                self@.evidence(matching_models(holds@)),
                wire,
            ),
    {
        proof {
            lemma_evidence_reads_back(self@, matching_models(holds@));
        }
        match wire_bytes(&self.evidence(&holds)) {
            Err(message) => GuardStep::Finished(Err(StorageError::Serialization(message))),
            Ok(wire) => GuardStep::Run(
                GuardPhase::Store(self.decide(&wire, &holds)),
                self.store_decision(&wire, &holds),
            ),
        }
    }

    /// Decides on a reply what the evaluation does next. The wire form of the
    /// evidence is read as the evidence.
    pub fn next(&self, phase: GuardPhase, reply: Reply) -> (step: GuardStep)
        ensures
            step@ == guard_next(self@, phase@, reply@),
            phase@ is Match ==> (reply@ matches ReplyModel::Matches(holds) ==> (json_wire(
                self@.evidence(holds),
            ) matches Ok(wire) ==> is_written(self@.evidence(holds), wire))),
    {
        match reply {
            Reply::Undecodable(operation) => GuardStep::Finished(
                Err(StorageError::Database { operation }),
            ),
            Reply::NotPrepared => GuardStep::Finished(Err(StorageError::NotPrepared)),
            reply => match (phase, reply) {
                (GuardPhase::Match, Reply::Matches(holds)) => self.after_match(holds),
                (GuardPhase::Store(decision), Reply::Affected(_)) => GuardStep::Finished(
                    Ok(decision),
                ),
                (GuardPhase::Match, _) => GuardStep::Finished(
                    Err(StorageError::Database { operation: text_of("evaluate legal hold guard") }),
                ),
                (GuardPhase::Store(_), _) => GuardStep::Finished(
                    Err(
                        StorageError::Database {
                            operation: text_of("store legal hold guard decision"),
                        },
                    ),
                ),
            },
        }
    }
}

/// What the guard answers before it looks at storage, where it does.
pub open spec fn guard_refusal(
    caller_instance: Option<Text>,
    guard_callers: Seq<Text>,
    request: CheckRetentionRequest,
) -> Option<CheckRetentionError> {
    if !is_allowed(caller_instance, guard_callers) {
        Some(CheckRetentionError::Forbidden)
    } else if !request.is_valid() {
        Some(CheckRetentionError::InvalidRequest)
    } else {
        None
    }
}

/// Admits a request to the guard: the caller must be one of the configured
/// guard callers, and the request must be within bounds. Only then is there a
/// check to run against storage.
pub fn check_retention(
    config: &LegalHoldConfig,
    caller_instance: &Option<String>,
    request: CheckRetentionRequest,
) -> (admitted: Result<RetentionCheck, PluginError<CheckRetentionError>>)
    ensures
        match guard_refusal(
            optional_text(*caller_instance),
            texts(config.guard_callers@),
            request,
        ) {
            Some(error) => admitted == Err::<RetentionCheck, PluginError<CheckRetentionError>>(
                PluginError::Domain(error),
            ),
            None => admitted matches Ok(check) && check@ == request.check_for(
                optional_text(*caller_instance)->0,
            ),
        },
        admitted matches Ok(check) ==> {
            &&& caller_instance matches Some(caller) && check.caller@ == caller@
            &&& check.action_id@ == request.action_id@
            &&& check.scope_kind@ == request.scope_kind@
            &&& check.scope_id@ == request.scope_id@
            &&& check.subject@ == request.subject@
            &&& check.reason@ == request.reason@
            &&& check.mode@ == match request.mode {
                CheckRetentionRequestMode::Delete => "delete"@,
                CheckRetentionRequestMode::Anonymize => "anonymize"@,
            }
        },
        admitted == Err::<RetentionCheck, PluginError<CheckRetentionError>>(
            PluginError::Domain(CheckRetentionError::Forbidden),
        ) <==> !(caller_instance matches Some(caller) && exists|i: int|
            0 <= i < config.guard_callers@.len() && (#[trigger] config.guard_callers@[i])@
                == caller@),
{
    let caller = match allowed_caller(caller_instance, &config.guard_callers) {
        Some(caller) => caller,
        None => {
            return Err(PluginError::Domain(CheckRetentionError::Forbidden));
        },
    };
    if !valid_id(request.action_id.as_str()) || !valid_text(
        request.scope_kind.as_str(),
        MAX_SCOPE_KIND_BYTES,
        false,
    ) || !valid_id(request.scope_id.as_str()) || !valid_id(request.subject.as_str())
        || !valid_text(request.reason.as_str(), MAX_REASON_BYTES, true) {
        return Err(PluginError::Domain(CheckRetentionError::InvalidRequest));
    }
    Ok(
        RetentionCheck {
            caller,
            action_id: request.action_id,
            scope_kind: request.scope_kind,
            scope_id: request.scope_id,
            subject: request.subject,
            mode: text_of(request.mode.name()),
            reason: request.reason,
        },
    )
}

/// What the caller of the guard is answered.
pub open spec fn retention_reply(
    outcome: Result<GuardDecisionModel, StorageErrorModel>,
) -> Result<GuardDecisionModel, PluginErrorModel<CheckRetentionError>> {
    match outcome {
        Ok(decision) => Ok(decision),
        Err(error) => Err(
            PluginErrorModel::Runtime(RuntimeFaultModel::PluginFailure { detail: error.detail() }),
        ),
    }
}

/// The caller of the guard is answered with the decision that was made, and with
/// nothing else where one was. A failure is never a decision, nor a domain answer: it is
/// a failure of the Plugin with its detail.
pub proof fn failures_are_never_decisions(outcome: Result<GuardDecisionModel, StorageErrorModel>)
    ensures
        retention_reply(outcome) is Ok <==> outcome is Ok,
        outcome matches Ok(decision) ==> (retention_reply(outcome) matches Ok(answer) && {
            &&& answer.allowed == decision.allowed
            &&& answer.decision_id == decision.decision_id
            &&& answer.reason_code == decision.reason_code
        }),
        outcome matches Err(error) ==> (retention_reply(outcome) matches Err(
            PluginErrorModel::Runtime(RuntimeFaultModel::PluginFailure { detail }),
        ) && detail == error.detail()),
{
}

/// Answers the caller of the guard. A failure is never a decision.
pub fn retention_answer(outcome: Result<GuardDecision, StorageError>) -> (answer: Result<
    GuardDecision,
    PluginError<CheckRetentionError>,
>)
    ensures
        match outcome {
            Ok(decision) => answer == Ok::<GuardDecision, PluginError<CheckRetentionError>>(
                decision,
            ),
            Err(error) => answer matches Err(PluginError::Runtime(fault)) && fault@
                == (RuntimeFaultModel::PluginFailure { detail: error@.detail() }),
        },
        match answer {
            Ok(decision) => retention_reply(guard_outcome(outcome)) == Ok::<
                GuardDecisionModel,
                PluginErrorModel<CheckRetentionError>,
            >(decision@),
            Err(error) => retention_reply(guard_outcome(outcome)) == Err::<
                GuardDecisionModel,
                PluginErrorModel<CheckRetentionError>,
            >(error@),
        },
{
    match outcome {
        Ok(decision) => Ok(decision),
        Err(error) => Err(
            PluginError::Runtime(RuntimeFault::PluginFailure { detail: error.detail() }),
        ),
    }
}

} // verus!
