//! Agent tools over the administrative operations.
//!
//! Seven tools, one for each administrative operation and none for the guard.
//! The request of a tool call is passed on as it is, and so is the authority of
//! its caller.
use vstd::prelude::*;
use vstd::string::*;
use crate::failure::{PluginError, PluginErrorModel, RuntimeFault, RuntimeFaultModel};
use crate::json::{
    json_content, json_parsed, json_pretty, json_text, keys_are_distinct, members_content,
    lemma_short_keys_are_plain, nests_within, object_value, parse_value, pretty_text, reads_back,
    text_member, value_text, Json, RAW_VALUE_KEY,
};
use crate::request::{AdminRequest, LegalHoldError};
use crate::text::{text_of, Text};

verus! {

/// One of the seven tools.
#[derive(Clone, Copy, Debug, PartialEq, Eq, Structural)]
pub enum Tool {
    Get,
    List,
    Activity,
    Create,
    AddScope,
    RemoveScope,
    Release,
}

/// Whether calls of a tool may run beside others.
#[derive(Clone, Copy, Debug, PartialEq, Eq, Structural)]
pub enum ToolExecutionClass {
    ParallelSafe,
    Exclusive,
}

/// The JSON schemas of the requests that tools take.
#[derive(Debug, PartialEq, Eq)]
pub struct RequestSchemas {
    pub get_hold: String,
    pub list_holds: String,
    pub list_activity: String,
    pub create_hold: String,
    pub mutate_scope: String,
    pub release_hold: String,
}

/// A tool, as the catalog shows it.
#[derive(Debug, PartialEq, Eq)]
pub struct ToolDefinition {
    pub name: String,
    pub description: String,
    pub input_schema_json: String,
    pub execution: ToolExecutionClass,
}

/// What a [`ToolDefinition`] says.
#[verifier::ext_equal]
pub struct ToolDefinitionModel {
    pub name: Text,
    pub description: Text,
    pub input_schema_json: Text,
    pub execution: ToolExecutionClass,
}

impl View for ToolDefinition {
    type V = ToolDefinitionModel;

    open spec fn view(&self) -> ToolDefinitionModel {
        ToolDefinitionModel {
            name: self.name@,
            description: self.description@,
            input_schema_json: self.input_schema_json@,
            execution: self.execution,
        }
    }
}

/// The tools in the order of the catalog.
pub open spec fn catalog() -> Seq<Tool> {
    seq![
        Tool::Get,
        Tool::List,
        Tool::Activity,
        Tool::Create,
        Tool::AddScope,
        Tool::RemoveScope,
        Tool::Release,
    ]
}

/// The name of a tool.
pub open spec fn tool_name(tool: Tool) -> Text {
    match tool {
        Tool::Get => "legal_hold_get"@,
        Tool::List => "legal_hold_list"@,
        Tool::Activity => "legal_hold_list_activity"@,
        Tool::Create => "legal_hold_create"@,
        Tool::AddScope => "legal_hold_add_scope"@,
        Tool::RemoveScope => "legal_hold_remove_scope"@,
        Tool::Release => "legal_hold_release"@,
    }
}

/// The description of a tool.
pub open spec fn tool_description(tool: Tool) -> Text {
    match tool {
        Tool::Get => "Get one legal hold for authorized review."@,
        Tool::List => "List legal holds with bounded cursor pagination."@,
        Tool::Activity => "List bounded activity for one legal hold."@,
        Tool::Create => "Create a legal hold with a caller-scoped idempotency key."@,
        Tool::AddScope => "Add one exact scope using the current expected revision."@,
        Tool::RemoveScope => "Remove one exact scope using the current expected revision."@,
        Tool::Release =>
            "Irreversibly release a legal hold using the current expected revision."@,
    }
}

/// Tools that only read may run beside others.
pub open spec fn tool_execution(tool: Tool) -> ToolExecutionClass {
    match tool {
        Tool::Get => ToolExecutionClass::ParallelSafe,
        Tool::List => ToolExecutionClass::ParallelSafe,
        Tool::Activity => ToolExecutionClass::ParallelSafe,
        _ => ToolExecutionClass::Exclusive,
    }
}

impl RequestSchemas {
    /// The schema of the request that a tool takes.
    pub open spec fn of(self, tool: Tool) -> Text {
        match tool {
            Tool::Get => self.get_hold@,
            Tool::List => self.list_holds@,
            Tool::Activity => self.list_activity@,
            Tool::Create => self.create_hold@,
            Tool::AddScope => self.mutate_scope@,
            Tool::RemoveScope => self.mutate_scope@,
            Tool::Release => self.release_hold@,
        }
    }
}

/// The definition of a tool, where the schema of its request is JSON.
pub open spec fn defined(tool: Tool, schemas: RequestSchemas) -> Option<ToolDefinitionModel> {
    match json_parsed(schemas.of(tool)) {
        Some(schema) => Some(
            ToolDefinitionModel {
                name: tool_name(tool),
                description: tool_description(tool),
                input_schema_json: json_text(schema),
                execution: tool_execution(tool),
            },
        ),
        None => None,
    }
}

/// What a failed tool call answers.
#[derive(Debug, PartialEq, Eq)]
pub enum ExecuteError {
    NotFound,
    InvalidArguments,
    PermissionDenied,
    ExecutionFailed { reason_code: String, message: String, details_json: String },
}

/// What an [`ExecuteError`] says.
#[verifier::ext_equal]
pub enum ExecuteErrorModel {
    NotFound,
    InvalidArguments,
    PermissionDenied,
    ExecutionFailed { reason_code: Text, message: Text, details_json: Text },
}

impl View for ExecuteError {
    type V = ExecuteErrorModel;

    open spec fn view(&self) -> ExecuteErrorModel {
        match *self {
            ExecuteError::NotFound => ExecuteErrorModel::NotFound,
            ExecuteError::InvalidArguments => ExecuteErrorModel::InvalidArguments,
            ExecuteError::PermissionDenied => ExecuteErrorModel::PermissionDenied,
            ExecuteError::ExecutionFailed { reason_code, message, details_json } =>
                ExecuteErrorModel::ExecutionFailed {
                reason_code: reason_code@,
                message: message@,
                details_json: details_json@,
            },
        }
    }
}

/// The kind of content that a tool call answers.
#[derive(Clone, Copy, Debug, PartialEq, Eq, Structural)]
pub enum ContentType {
    Text,
}

/// A block of structured content, as the contract of tool providers has it.
#[verifier::external_type_specification]
#[verifier::external_body]
pub struct ExContentBlock(lenso_capability_agent_tool_provider::ContentBlock);

/// What a successful tool call answers.
#[derive(Debug, PartialEq)]
pub struct ExecuteResponse {
    pub content_type: ContentType,
    pub content: String,
    pub content_blocks: Option<Vec<lenso_capability_agent_tool_provider::ContentBlock>>,
    pub metadata_json: String,
}

/// What an [`ExecuteResponse`] says.
#[verifier::ext_equal]
pub struct ExecuteResponseModel {
    pub content_type: ContentType,
    pub content: Text,
    pub content_blocks: Option<Seq<lenso_capability_agent_tool_provider::ContentBlock>>,
    pub metadata_json: Text,
}

impl View for ExecuteResponse {
    type V = ExecuteResponseModel;

    open spec fn view(&self) -> ExecuteResponseModel {
        ExecuteResponseModel {
            content_type: self.content_type,
            content: self.content@,
            content_blocks: match self.content_blocks {
                Some(blocks) => Some(blocks@),
                None => None,
            },
            metadata_json: self.metadata_json@,
        }
    }
}

/// What the outcome of a tool call says.
pub open spec fn execute_outcome(
    outcome: Result<ExecuteResponse, PluginError<ExecuteError>>,
) -> Result<ExecuteResponseModel, PluginErrorModel<ExecuteErrorModel>> {
    match outcome {
        Ok(response) => Ok(response@),
        Err(PluginError::Domain(error)) => Err(PluginErrorModel::Domain(error@)),
        Err(PluginError::Runtime(fault)) => Err(PluginErrorModel::Runtime(fault@)),
    }
}

/// The code under which a domain answer is passed on, where it is.
pub open spec fn rejection_code(error: LegalHoldError) -> Option<Text> {
    match error {
        LegalHoldError::HoldReleased => Some("hold_released"@),
        LegalHoldError::IdempotencyConflict => Some("idempotency_conflict"@),
        LegalHoldError::RevisionConflict => Some("revision_conflict"@),
        LegalHoldError::ScopeConflict => Some("scope_conflict"@),
        LegalHoldError::Unknown => Some("unknown_domain_error"@),
        _ => None,
    }
}

/// An object with one text member.
pub open spec fn label(key: Text, text: Text) -> Json {
    Json::Object(seq![(key, Json::Text(text))])
}

/// The answer that passes a domain answer on under a code.
pub open spec fn rejected(code: Text) -> ExecuteErrorModel {
    ExecuteErrorModel::ExecutionFailed {
        reason_code: code,
        message: "Legal Hold rejected the operation."@,
        details_json: json_text(label("domain_error"@, code)),
    }
}

/// What a tool call answers to a domain answer that is not a success.
pub open spec fn tool_error(error: LegalHoldError) -> ExecuteErrorModel {
    match error {
        LegalHoldError::InvalidRequest => ExecuteErrorModel::InvalidArguments,
        LegalHoldError::NotFound => ExecuteErrorModel::NotFound,
        LegalHoldError::Forbidden => ExecuteErrorModel::PermissionDenied,
        LegalHoldError::Unauthenticated => ExecuteErrorModel::PermissionDenied,
        _ => rejected(rejection_code(error)->0),
    }
}

/// What a tool call answers to a response in its written form, as plain text and
/// labelled with the tool, or to the message that says why it has none.
pub open spec fn tool_success(tool: Tool, content: Result<Text, Text>) -> Result<
    ExecuteResponseModel,
    PluginErrorModel<ExecuteErrorModel>,
> {
    match content {
        Ok(content) => Ok(
            ExecuteResponseModel {
                content_type: ContentType::Text,
                content,
                content_blocks: None,
                metadata_json: json_text(label("tool"@, tool_name(tool))),
            },
        ),
        Err(message) => Err(
            PluginErrorModel::Runtime(
                RuntimeFaultModel::PluginFailure {
                    detail: "Legal Hold Tool could not serialize its response: "@ + message,
                },
            ),
        ),
    }
}

/// What the capability answered to a tool's request.
#[derive(Debug, PartialEq, Eq)]
pub enum Invocation {
    /// The response as JSON, or why it has no such form.
    Answered(Result<serde_json::Value, String>),
    /// The domain answer, or the failure, with which the invocation ended.
    Ended(PluginError<LegalHoldError>),
}

/// What an [`Invocation`] says.
#[verifier::ext_equal]
pub enum InvocationModel {
    Answered(Result<Json, Text>),
    Ended(PluginErrorModel<LegalHoldError>),
}

impl View for Invocation {
    type V = InvocationModel;

    open spec fn view(&self) -> InvocationModel {
        match *self {
            Invocation::Answered(Ok(response)) => InvocationModel::Answered(
                Ok(json_content(response)),
            ),
            Invocation::Answered(Err(message)) => InvocationModel::Answered(Err(message@)),
            Invocation::Ended(error) => InvocationModel::Ended(error@),
        }
    }
}

/// What a tool call answers once the capability has been invoked: a response in
/// its indented JSON, and anything else as it is passed on.
pub open spec fn tool_answer(tool: Tool, invocation: InvocationModel) -> Result<
    ExecuteResponseModel,
    PluginErrorModel<ExecuteErrorModel>,
> {
    match invocation {
        InvocationModel::Answered(Ok(response)) => tool_success(tool, json_pretty(response)),
        InvocationModel::Answered(Err(message)) => tool_success(tool, Err(message)),
        InvocationModel::Ended(PluginErrorModel::Domain(error)) => Err(
            PluginErrorModel::Domain(tool_error(error)),
        ),
        InvocationModel::Ended(PluginErrorModel::Runtime(fault)) => Err(
            PluginErrorModel::Runtime(fault),
        ),
    }
}

/// Whether a request is one that a tool takes.
pub open spec fn takes(tool: Tool, request: AdminRequest) -> bool {
    match tool {
        Tool::Get => request is GetHold,
        Tool::List => request is ListHolds,
        Tool::Activity => request is ListActivity,
        Tool::Create => request is CreateHold,
        Tool::AddScope => request is AddScope,
        Tool::RemoveScope => request is RemoveScope,
        Tool::Release => request is ReleaseHold,
    }
}

impl Tool {
    /// The name of this tool.
    pub fn name(&self) -> (name: &'static str)
        ensures
            name@ == tool_name(*self),
    {
        match self {
            Tool::Get => "legal_hold_get",
            Tool::List => "legal_hold_list",
            Tool::Activity => "legal_hold_list_activity",
            Tool::Create => "legal_hold_create",
            Tool::AddScope => "legal_hold_add_scope",
            Tool::RemoveScope => "legal_hold_remove_scope",
            Tool::Release => "legal_hold_release",
        }
    }

    fn description(&self) -> (description: &'static str)
        ensures
            description@ == tool_description(*self),
    {
        match self {
            Tool::Get => "Get one legal hold for authorized review.",
            Tool::List => "List legal holds with bounded cursor pagination.",
            Tool::Activity => "List bounded activity for one legal hold.",
            Tool::Create => "Create a legal hold with a caller-scoped idempotency key.",
            Tool::AddScope => "Add one exact scope using the current expected revision.",
            Tool::RemoveScope => "Remove one exact scope using the current expected revision.",
            Tool::Release =>
                "Irreversibly release a legal hold using the current expected revision.",
        }
    }

    fn execution(&self) -> (execution: ToolExecutionClass)
        ensures
            execution == tool_execution(*self),
    {
        match self {
            Tool::Get | Tool::List | Tool::Activity => ToolExecutionClass::ParallelSafe,
            _ => ToolExecutionClass::Exclusive,
        }
    }

    /// The tool that a call names; a name that no tool has is not found.
    pub fn select(name: &str) -> (tool: Result<Tool, ExecuteError>)
        ensures
            match tool {
                Ok(tool) => tool_name(tool) == name@,
                Err(error) => {
                    &&& error == ExecuteError::NotFound
                    &&& forall|tool: Tool| #[trigger] tool_name(tool) != name@
                },
            },
    {
        let tools = all_tools();
        let wanted = text_of(name);
        let mut i: usize = 0;
        while i < tools.len()
            invariant
                i <= tools.len(),
                tools@ == catalog(),
                wanted@ == name@,
                forall|j: int| 0 <= j < i ==> tool_name(#[trigger] tools@[j]) != name@,
            decreases tools.len() - i,
        {
            if text_of(tools[i].name()) == wanted {
                return Ok(tools[i]);
            }
            i += 1;
        }
        proof {
            assert forall|tool: Tool| #[trigger] tool_name(tool) != name@ by {
                lemma_catalog_is_complete(tool);
                let j = choose|j: int| 0 <= j < tools@.len() && tools@[j] == tool;
                assert(tool_name(tools@[j]) != name@);
            }
        }
        Err(ExecuteError::NotFound)
    }

    /// Checks the arguments of a call: they must have decoded to a request that
    /// this tool takes.
    pub fn accept(&self, decoded: Option<AdminRequest>) -> (accepted: Result<
        AdminRequest,
        ExecuteError,
    >)
        ensures
            match decoded {
                Some(request) if takes(*self, request) => accepted == Ok::<
                    AdminRequest,
                    ExecuteError,
                >(request),
                _ => accepted == Err::<AdminRequest, ExecuteError>(ExecuteError::InvalidArguments),
            },
    {
        match (self, decoded) {
            (Tool::Get, Some(AdminRequest::GetHold(request))) => Ok(AdminRequest::GetHold(request)),
            (Tool::List, Some(AdminRequest::ListHolds(request))) => Ok(
                AdminRequest::ListHolds(request),
            ),
            (Tool::Activity, Some(AdminRequest::ListActivity(request))) => Ok(
                AdminRequest::ListActivity(request),
            ),
            (Tool::Create, Some(AdminRequest::CreateHold(request))) => Ok(
                AdminRequest::CreateHold(request),
            ),
            (Tool::AddScope, Some(AdminRequest::AddScope(request))) => Ok(
                AdminRequest::AddScope(request),
            ),
            (Tool::RemoveScope, Some(AdminRequest::RemoveScope(request))) => Ok(
                AdminRequest::RemoveScope(request),
            ),
            (Tool::Release, Some(AdminRequest::ReleaseHold(request))) => Ok(
                AdminRequest::ReleaseHold(request),
            ),
            _ => Err(ExecuteError::InvalidArguments),
        }
    }

    /// Answers a call of this tool with a response in its written form, or with the
    /// message that says why it has none.
    pub fn success(&self, content: Result<String, String>) -> (outcome: Result<
        ExecuteResponse,
        PluginError<ExecuteError>,
    >)
        ensures
            execute_outcome(outcome) == tool_success(
                *self,
                match content {
                    Ok(content) => Ok(content@),
                    Err(message) => Err(message@),
                },
            ),
            outcome matches Ok(answer) ==> json_parsed(answer.metadata_json@) == Some(
                label("tool"@, tool_name(*self)),
            ),
    {
        proof {
            reveal_strlit("tool");
            lemma_short_keys_are_plain("tool"@);
        }
        match content {
            Ok(content) => Ok(
                ExecuteResponse {
                    content_type: ContentType::Text,
                    content,
                    content_blocks: None,
                    metadata_json: labelled("tool", self.name()),
                },
            ),
            Err(message) => {
                let mut detail = text_of("Legal Hold Tool could not serialize its response: ");
                detail.append(message.as_str());
                Err(PluginError::Runtime(RuntimeFault::PluginFailure { detail }))
            },
        }
    }

    /// Answers a call of this tool once the capability has been invoked. The
    /// content of the answer is read as the response, where that is one that can
    /// be read back, and its metadata as the label of the tool.
    pub fn answer(&self, invocation: Invocation) -> (outcome: Result<
        ExecuteResponse,
        PluginError<ExecuteError>,
    >)
        ensures
            execute_outcome(outcome) == tool_answer(*self, invocation@),
            outcome matches Ok(answer) ==> {
                &&& invocation@ matches InvocationModel::Answered(Ok(response))
                &&& reads_back(response) ==> json_parsed(answer.content@) == Some(response)
                &&& json_parsed(answer.metadata_json@) == Some(label("tool"@, tool_name(*self)))
            },
    {
        match invocation {
            Invocation::Answered(Ok(response)) => self.success(pretty_text(&response)),
            Invocation::Answered(Err(message)) => self.success(Err(message)),
            Invocation::Ended(PluginError::Domain(error)) => Err(
                PluginError::Domain(map_error(error)),
            ),
            Invocation::Ended(PluginError::Runtime(fault)) => Err(PluginError::Runtime(fault)),
        }
    }
}

fn all_tools() -> (tools: Vec<Tool>)
    ensures
        tools@ == catalog(),
{
    vec![
        Tool::Get,
        Tool::List,
        Tool::Activity,
        Tool::Create,
        Tool::AddScope,
        Tool::RemoveScope,
        Tool::Release,
    ]
}

proof fn lemma_catalog_is_complete(tool: Tool)
    ensures
        catalog().contains(tool),
{
    let tools = catalog();
    assert(tools[0] == Tool::Get && tools[1] == Tool::List && tools[2] == Tool::Activity && tools[3]
        == Tool::Create && tools[4] == Tool::AddScope && tools[5] == Tool::RemoveScope && tools[6]
        == Tool::Release);
}

fn labelled(key: &str, text: &str) -> (json: String)
    requires
        key@ != RAW_VALUE_KEY@,
    ensures
        json@ == json_text(label(key@, text@)),
        json_parsed(json@) == Some(label(key@, text@)),
{
    let mut members: Vec<(String, serde_json::Value)> = Vec::new();
    members.push(text_member(key, text));
    assert(keys_are_distinct(members@));
    assert(members_content(members@) == seq![(key@, Json::Text(text@))]);
    assert(reads_back(label(key@, text@))) by {
        reveal_with_fuel(nests_within, 2);
    }
    value_text(&object_value(members))
}

fn reject(code: &str) -> (error: ExecuteError)
    ensures
        error@ == rejected(code@),
        json_parsed(error@->details_json) == Some(label("domain_error"@, code@)),
{
    proof {
        reveal_strlit("domain_error");
        lemma_short_keys_are_plain("domain_error"@);
    }
    ExecuteError::ExecutionFailed {
        reason_code: text_of(code),
        message: text_of("Legal Hold rejected the operation."),
        details_json: labelled("domain_error", code),
    }
}

/// Answers a domain answer that is not a success. The details of one that is
/// passed on under a code are read as that code.
pub fn map_error(error: LegalHoldError) -> (answer: ExecuteError)
    ensures
        answer@ == tool_error(error),
        rejection_code(error) matches Some(code) ==> json_parsed(answer@->details_json) == Some(
            label("domain_error"@, code),
        ),
{
    match error {
        LegalHoldError::InvalidRequest => ExecuteError::InvalidArguments,
        LegalHoldError::NotFound => ExecuteError::NotFound,
        LegalHoldError::Forbidden | LegalHoldError::Unauthenticated =>
            ExecuteError::PermissionDenied,
        LegalHoldError::HoldReleased => reject("hold_released"),
        LegalHoldError::IdempotencyConflict => reject("idempotency_conflict"),
        LegalHoldError::RevisionConflict => reject("revision_conflict"),
        LegalHoldError::ScopeConflict => reject("scope_conflict"),
        LegalHoldError::Unknown => reject("unknown_domain_error"),
    }
}

/// Defines a tool, where the schema of its request is JSON.
pub fn tool(which: Tool, schema: &str) -> (definition: Option<ToolDefinition>)
    ensures
        match definition {
            Some(definition) => json_parsed(schema@) is Some && definition@
                == (ToolDefinitionModel {
                name: tool_name(which),
                description: tool_description(which),
                input_schema_json: json_text(json_parsed(schema@)->0),
                execution: tool_execution(which),
            }),
            None => json_parsed(schema@) is None,
        },
{
    match parse_value(schema) {
        Some(value) => Some(
            ToolDefinition {
                name: text_of(which.name()),
                description: text_of(which.description()),
                input_schema_json: value_text(&value),
                execution: which.execution(),
            },
        ),
        None => None,
    }
}

impl RequestSchemas {
    fn schema_of(&self, tool: Tool) -> (schema: &String)
        ensures
            schema@ == self.of(tool),
    {
        match tool {
            Tool::Get => &self.get_hold,
            Tool::List => &self.list_holds,
            Tool::Activity => &self.list_activity,
            Tool::Create => &self.create_hold,
            Tool::AddScope | Tool::RemoveScope => &self.mutate_scope,
            Tool::Release => &self.release_hold,
        }
    }
}

/// The catalog of tools; none, where a schema is not JSON.
pub fn tool_definitions(schemas: &RequestSchemas) -> (definitions: Option<Vec<ToolDefinition>>)
    ensures
        definitions is Some <==> forall|tool: Tool| #[trigger] defined(tool, *schemas) is Some,
        definitions matches Some(definitions) ==> {
            &&& definitions@.len() == catalog().len()
            &&& forall|i: int|
                0 <= i < catalog().len() ==> defined(#[trigger] catalog()[i], *schemas) == Some(
                    definitions@[i]@,
                )
        },
{
    let tools = all_tools();
    let mut definitions: Vec<ToolDefinition> = Vec::new();
    let mut i: usize = 0;
    while i < tools.len()
        invariant
            i <= tools.len(),
            tools@ == catalog(),
            definitions.len() == i,
            forall|j: int|
                0 <= j < i ==> defined(#[trigger] tools@[j], *schemas) == Some(definitions@[j]@),
        decreases tools.len() - i,
    {
        match tool(tools[i], schemas.schema_of(tools[i]).as_str()) {
            Some(definition) => {
                definitions.push(definition);
            },
            None => {
                assert(defined(tools@[i as int], *schemas) is None);
                return None;
            },
        }
        i += 1;
    }
    proof {
        assert forall|tool: Tool| #[trigger] defined(tool, *schemas) is Some by {
            lemma_catalog_is_complete(tool);
            let j = choose|j: int| 0 <= j < tools@.len() && tools@[j] == tool;
            assert(defined(tools@[j], *schemas) is Some);
        }
    }
    Some(definitions)
}

/// No two tools share a name, so a name leads to one tool.
pub proof fn tool_names_are_distinct(left: Tool, right: Tool)
    requires
        tool_name(left) == tool_name(right),
    ensures
        left == right,
{
    reveal_strlit("legal_hold_get");
    reveal_strlit("legal_hold_list");
    reveal_strlit("legal_hold_list_activity");
    reveal_strlit("legal_hold_create");
    reveal_strlit("legal_hold_add_scope");
    reveal_strlit("legal_hold_remove_scope");
    reveal_strlit("legal_hold_release");
    assert("legal_hold_get"@.len() < "legal_hold_list"@.len() < "legal_hold_create"@.len()
        < "legal_hold_release"@.len() < "legal_hold_add_scope"@.len()
        < "legal_hold_remove_scope"@.len() < "legal_hold_list_activity"@.len());
}

/// Tools that may run beside others are exactly those whose requests change
/// nothing.
pub proof fn parallel_tools_only_read(tool: Tool, request: AdminRequest)
    requires
        takes(tool, request),
    ensures
        tool_execution(tool) == ToolExecutionClass::ParallelSafe <==> !request.is_command(),
{
}

/// A call of a tool by its name takes the request that the tool is named for, and no
/// other.
pub proof fn tools_take_the_requests_that_they_are_named_for(tool: Tool, request: AdminRequest)
    requires
        takes(tool, request),
    ensures
        tool_name(tool) == match request {
            AdminRequest::GetHold(_) => "legal_hold_get"@,
            AdminRequest::ListHolds(_) => "legal_hold_list"@,
            AdminRequest::ListActivity(_) => "legal_hold_list_activity"@,
            AdminRequest::CreateHold(_) => "legal_hold_create"@,
            AdminRequest::AddScope(_) => "legal_hold_add_scope"@,
            AdminRequest::RemoveScope(_) => "legal_hold_remove_scope"@,
            AdminRequest::ReleaseHold(_) => "legal_hold_release"@,
        },
        tool_execution(tool) == match request {
            AdminRequest::GetHold(_) => ToolExecutionClass::ParallelSafe,
            AdminRequest::ListHolds(_) => ToolExecutionClass::ParallelSafe,
            AdminRequest::ListActivity(_) => ToolExecutionClass::ParallelSafe,
            _ => ToolExecutionClass::Exclusive,
        },
{
}

/// Every request is taken by exactly one tool.
pub proof fn requests_have_one_tool(request: AdminRequest)
    ensures
        exists|tool: Tool| #[trigger] takes(tool, request),
        forall|left: Tool, right: Tool| #[trigger]
            takes(left, request) && #[trigger] takes(right, request) ==> left == right,
{
    let tool = match request {
        AdminRequest::GetHold(_) => Tool::Get,
        AdminRequest::ListHolds(_) => Tool::List,
        AdminRequest::ListActivity(_) => Tool::Activity,
        AdminRequest::CreateHold(_) => Tool::Create,
        AdminRequest::AddScope(_) => Tool::AddScope,
        AdminRequest::RemoveScope(_) => Tool::RemoveScope,
        AdminRequest::ReleaseHold(_) => Tool::Release,
    };
    assert(takes(tool, request));
}

/// The catalog shows each tool under its name, with what it does and with the schema of
/// the request that it takes.
pub proof fn tools_are_shown_with_what_they_take(tool: Tool, schemas: RequestSchemas)
    ensures
        ({
            let shown = |schema: Text, name: Text, description: Text|
                {
                    &&& defined(tool, schemas) is Some <==> json_parsed(schema) is Some
                    &&& defined(tool, schemas) matches Some(definition) ==> {
                        &&& definition.name == name
                        &&& definition.description == description
                        &&& definition.input_schema_json == json_text(json_parsed(schema)->0)
                        &&& definition.execution == tool_execution(tool)
                    }
                };
            match tool {
                Tool::Get => shown(
                    schemas.get_hold@,
                    "legal_hold_get"@,
                    "Get one legal hold for authorized review."@,
                ),
                Tool::List => shown(
                    schemas.list_holds@,
                    "legal_hold_list"@,
                    "List legal holds with bounded cursor pagination."@,
                ),
                Tool::Activity => shown(
                    schemas.list_activity@,
                    "legal_hold_list_activity"@,
                    "List bounded activity for one legal hold."@,
                ),
                Tool::Create => shown(
                    schemas.create_hold@,
                    "legal_hold_create"@,
                    "Create a legal hold with a caller-scoped idempotency key."@,
                ),
                Tool::AddScope => shown(
                    schemas.mutate_scope@,
                    "legal_hold_add_scope"@,
                    "Add one exact scope using the current expected revision."@,
                ),
                Tool::RemoveScope => shown(
                    schemas.mutate_scope@,
                    "legal_hold_remove_scope"@,
                    "Remove one exact scope using the current expected revision."@,
                ),
                Tool::Release => shown(
                    schemas.release_hold@,
                    "legal_hold_release"@,
                    "Irreversibly release a legal hold using the current expected revision."@,
                ),
            }
        }),
        catalog().len() == 7,
        catalog()[0] is Get,
        catalog()[1] is List,
        catalog()[2] is Activity,
        catalog()[3] is Create,
        catalog()[4] is AddScope,
        catalog()[5] is RemoveScope,
        catalog()[6] is Release,
{
    lemma_catalog_is_complete(tool);
}

/// A tool call answers a domain answer for what it is: an invalid request as invalid
/// arguments, a missing hold as not found, a missing authority as a denied permission,
/// and any other under its own code, with a message and with details that name it.
pub proof fn tool_errors_say_what_was_answered(error: LegalHoldError)
    ensures
        ({
            let coded = |code: Text|
                tool_error(error) matches ExecuteErrorModel::ExecutionFailed {
                    reason_code,
                    message,
                    details_json,
                } && {
                    &&& reason_code == code
                    &&& message == "Legal Hold rejected the operation."@
                    &&& details_json == json_text(
                        Json::Object(seq![("domain_error"@, Json::Text(code))]),
                    )
                };
            match error {
                LegalHoldError::InvalidRequest => tool_error(error) is InvalidArguments,
                LegalHoldError::NotFound => tool_error(error) is NotFound,
                LegalHoldError::Forbidden => tool_error(error) is PermissionDenied,
                LegalHoldError::Unauthenticated => tool_error(error) is PermissionDenied,
                LegalHoldError::HoldReleased => coded("hold_released"@),
                LegalHoldError::IdempotencyConflict => coded("idempotency_conflict"@),
                LegalHoldError::RevisionConflict => coded("revision_conflict"@),
                LegalHoldError::ScopeConflict => coded("scope_conflict"@),
                LegalHoldError::Unknown => coded("unknown_domain_error"@),
            }
        }),
{
}

/// A tool call answers a response with its indented JSON as text and nothing else, and
/// with metadata that name the tool. A failure is passed on, and a response that cannot
/// be written is a failure of the Plugin with the reason.
pub proof fn tool_answers_are_the_responses(tool: Tool, invocation: InvocationModel)
    ensures
        ({
            let unwritten = |message: Text|
                tool_answer(tool, invocation) == Err::<
                    ExecuteResponseModel,
                    PluginErrorModel<ExecuteErrorModel>,
                >(
                    PluginErrorModel::Runtime(
                        RuntimeFaultModel::PluginFailure {
                            detail: "Legal Hold Tool could not serialize its response: "@
                                + message,
                        },
                    ),
                );
            match invocation {
                InvocationModel::Answered(Ok(response)) => match json_pretty(response) {
                    Ok(text) => tool_answer(tool, invocation) matches Ok(answer) && {
                        &&& answer.content == text
                        &&& answer.content_type is Text
                        &&& answer.content_blocks is None
                        &&& answer.metadata_json == json_text(
                            Json::Object(seq![("tool"@, Json::Text(tool_name(tool)))]),
                        )
                    },
                    Err(message) => unwritten(message),
                },
                InvocationModel::Answered(Err(message)) => unwritten(message),
                InvocationModel::Ended(PluginErrorModel::Domain(error)) => tool_answer(
                    tool,
                    invocation,
                ) == Err::<ExecuteResponseModel, PluginErrorModel<ExecuteErrorModel>>(
                    PluginErrorModel::Domain(tool_error(error)),
                ),
                InvocationModel::Ended(PluginErrorModel::Runtime(fault)) => tool_answer(
                    tool,
                    invocation,
                ) == Err::<ExecuteResponseModel, PluginErrorModel<ExecuteErrorModel>>(
                    PluginErrorModel::Runtime(fault),
                ),
            }
        }),
{
}

} // verus!
