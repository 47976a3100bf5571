use legal_hold::failure::{PluginError, RuntimeFault};
use legal_hold::json::RAW_VALUE_KEY;
use legal_hold::request::{AdminRequest, GetHoldRequest, LegalHoldError};
use legal_hold::tools::{
    map_error, tool, tool_definitions, ContentType, ExecuteError,
    ExecuteResponse, Invocation, RequestSchemas, Tool, ToolExecutionClass,
};
use lenso_kernel::RuntimeFailure;

fn schemas() -> RequestSchemas {
    let schema = |title: &str| format!("{{ \"type\": \"object\",\n  \"title\": \"{title}\" }}");
    RequestSchemas {
        get_hold: schema("get"),
        list_holds: schema("list"),
        list_activity: schema("activity"),
        create_hold: schema("create"),
        mutate_scope: schema("scope"),
        release_hold: schema("release"),
    }
}

#[test]
fn descriptor_and_catalog_keep_admin_and_guard_roles_separate() {
    let tools = tool_definitions(&schemas()).unwrap();
    assert_eq!(tools.len(), 7);
    assert_eq!(
        tools
            .iter()
            .filter(|tool| tool.execution == ToolExecutionClass::ParallelSafe)
            .count(),
        3
    );
    assert!(tools.iter().all(|tool| !tool.name.contains("guard")));
}

#[test]
fn the_catalog_lists_every_tool_with_its_schema() {
    let tools = tool_definitions(&schemas()).unwrap();
    let listed: Vec<(&str, &str, &str)> = tools
        .iter()
        .map(|tool| {
            (
                tool.name.as_str(),
                tool.description.as_str(),
                tool.input_schema_json.as_str(),
            )
        })
        .collect();
    assert_eq!(
        listed,
        [
            (
                "legal_hold_get",
                "Get one legal hold for authorized review.",
                r#"{"type":"object","title":"get"}"#
            ),
            (
                "legal_hold_list",
                "List legal holds with bounded cursor pagination.",
                r#"{"type":"object","title":"list"}"#
            ),
            (
                "legal_hold_list_activity",
                "List bounded activity for one legal hold.",
                r#"{"type":"object","title":"activity"}"#
            ),
            (
                "legal_hold_create",
                "Create a legal hold with a caller-scoped idempotency key.",
                r#"{"type":"object","title":"create"}"#
            ),
            (
                "legal_hold_add_scope",
                "Add one exact scope using the current expected revision.",
                r#"{"type":"object","title":"scope"}"#
            ),
            (
                "legal_hold_remove_scope",
                "Remove one exact scope using the current expected revision.",
                r#"{"type":"object","title":"scope"}"#
            ),
            (
                "legal_hold_release",
                "Irreversibly release a legal hold using the current expected revision.",
                r#"{"type":"object","title":"release"}"#
            ),
        ]
    );
    for tool in &tools {
        assert_eq!(Tool::select(&tool.name).unwrap().name(), tool.name);
    }
}

#[test]
fn a_schema_must_be_json() {
    let mut broken = schemas();
    broken.release_hold = "{".to_owned();
    assert_eq!(tool_definitions(&broken), None);
    assert_eq!(tool(Tool::Get, "not json"), None);
}

#[test]
fn a_raw_value_key_is_written_as_it_is() {
    let mut members = serde_json::Map::new();
    members.insert(
        RAW_VALUE_KEY.to_owned(),
        serde_json::Value::String("1".to_owned()),
    );
    let response = serde_json::Value::Object(members);
    let answer = Tool::Get
        .answer(Invocation::Answered(Ok(response.clone())))
        .unwrap();
    assert_eq!(answer.content, format!("{{\n  \"{RAW_VALUE_KEY}\": \"1\"\n}}"));
    // Such an object is not read back as it was written.
    let read: serde_json::Value = serde_json::from_str(&answer.content).unwrap();
    assert_eq!(read, serde_json::Value::from(1));
    // Behind another key it is.
    let mut members = serde_json::Map::new();
    members.insert("hold_id".to_owned(), serde_json::Value::Null);
    members.insert(RAW_VALUE_KEY.to_owned(), serde_json::Value::Null);
    let response = serde_json::Value::Object(members);
    let answer = Tool::Get
        .answer(Invocation::Answered(Ok(response.clone())))
        .unwrap();
    let read: serde_json::Value = serde_json::from_str(&answer.content).unwrap();
    assert_eq!(read, response);
}

#[test]
fn unknown_tools_are_not_found() {
    for name in ["", "legal_hold", "legal_hold_guard", "legal_hold_get "] {
        assert_eq!(Tool::select(name), Err(ExecuteError::NotFound));
    }
}

#[test]
fn a_tool_takes_its_own_request() {
    let request = || {
        AdminRequest::GetHold(GetHoldRequest {
            organization_id: "org_1".to_owned(),
            hold_id: "hold_1".to_owned(),
        })
    };
    assert_eq!(Tool::Get.accept(Some(request())), Ok(request()));
    assert_eq!(
        Tool::List.accept(Some(request())),
        Err(ExecuteError::InvalidArguments)
    );
    assert_eq!(Tool::Get.accept(None), Err(ExecuteError::InvalidArguments));
}

#[test]
fn domain_answers_become_tool_errors() {
    let rejected = |code: &str| ExecuteError::ExecutionFailed {
        reason_code: code.to_owned(),
        message: "Legal Hold rejected the operation.".to_owned(),
        details_json: format!("{{\"domain_error\":\"{code}\"}}"),
    };
    let answers = [
        (LegalHoldError::InvalidRequest, ExecuteError::InvalidArguments),
        (LegalHoldError::NotFound, ExecuteError::NotFound),
        (LegalHoldError::Forbidden, ExecuteError::PermissionDenied),
        (LegalHoldError::Unauthenticated, ExecuteError::PermissionDenied),
        (LegalHoldError::HoldReleased, rejected("hold_released")),
        (
            LegalHoldError::IdempotencyConflict,
            rejected("idempotency_conflict"),
        ),
        (LegalHoldError::RevisionConflict, rejected("revision_conflict")),
        (LegalHoldError::ScopeConflict, rejected("scope_conflict")),
        (LegalHoldError::Unknown, rejected("unknown_domain_error")),
    ];
    for (error, answer) in answers {
        assert_eq!(map_error(error), answer);
        assert_eq!(
            Tool::Release.answer(Invocation::Ended(PluginError::Domain(error))),
            Err(PluginError::Domain(answer))
        );
    }
}

#[test]
fn a_response_is_labelled_with_its_tool() {
    let response: serde_json::Value =
        serde_json::from_str(r#"{"hold_id":"hold_1","scopes":[{"subject":null}],"count":-2}"#).unwrap();
    let answer = Tool::Create
        .answer(Invocation::Answered(Ok(response.clone())))
        .unwrap();
    assert_eq!(
        serde_json::from_str::<serde_json::Value>(&answer.content).unwrap(),
        response
    );
    assert_eq!(
        answer,
        ExecuteResponse {
            content_type: ContentType::Text,
            content: r#"{
  "hold_id": "hold_1",
  "scopes": [
    {
      "subject": null
    }
  ],
  "count": -2
}"#
            .to_owned(),
            content_blocks: None,
            metadata_json: r#"{"tool":"legal_hold_create"}"#.to_owned(),
        }
    );
    assert_eq!(
        Tool::Get.success(Ok("[]".to_owned())),
        Ok(ExecuteResponse {
            content_type: ContentType::Text,
            content: "[]".to_owned(),
            content_blocks: None,
            metadata_json: r#"{"tool":"legal_hold_get"}"#.to_owned(),
        })
    );
    assert_eq!(
        Tool::Create.answer(Invocation::Answered(Err("too deep".to_owned()))),
        Err(PluginError::Runtime(RuntimeFault::PluginFailure {
            detail: "Legal Hold Tool could not serialize its response: too deep".to_owned(),
        }))
    );
    assert_eq!(
        Tool::Create.answer(Invocation::Ended(PluginError::Runtime(RuntimeFault::Kernel(
            RuntimeFailure::AdmissionClosed
        )))),
        Err(PluginError::Runtime(RuntimeFault::Kernel(
            RuntimeFailure::AdmissionClosed
        )))
    );
}
