use agentprof::event::{
    clone_json, AssistantMessageData, CopilotEvent, HookEndData, HookInput, HookStartData, JsonValue,
    ModeChangeData, ModelChangeData, SessionContext, SessionStartData, SkillData, ToolExecData,
    ToolRequest, ToolResultData, ToolUserArgs, ToolUserRequestedData, UtcTimestamp, WithEnvelope,
};

fn ts() -> UtcTimestamp {
    // 2026-05-29T00:00:00Z
    UtcTimestamp { unix_secs: 1_780_012_800, nanos: 0 }
}

fn envelope<D>(data: D) -> WithEnvelope<D> {
    WithEnvelope {
        id: "e".to_string(),
        timestamp: ts(),
        parent_id: None,
        ephemeral: None,
        agent_id: None,
        data,
    }
}

fn hook_input() -> HookInput {
    HookInput {
        session_id: "s".into(),
        timestamp: 0,
        cwd: "/".into(),
        source: Some("tool_use".into()),
        initial_prompt: None,
    }
}

fn obj(pairs: Vec<(&str, JsonValue)>) -> JsonValue {
    JsonValue::Object(pairs.into_iter().map(|(k, v)| (k.to_string(), v)).collect())
}

fn assistant_message(model: &str, output_tokens: u32, tool_requests: Vec<ToolRequest>) -> CopilotEvent {
    CopilotEvent::AssistantMessage(envelope(AssistantMessageData {
        message_id: "m".into(),
        model: model.into(),
        content: String::new(),
        tool_requests,
        interaction_id: "i".into(),
        turn_id: Some("0".into()),
        parent_tool_call_id: None,
        reasoning_opaque: None,
        reasoning_text: None,
        encrypted_content: None,
        output_tokens,
        request_id: None,
        service_request_id: None,
    }))
}

#[test]
fn tool_exec_start_returns_tool_name() {
    let ev = CopilotEvent::ToolExecStart(envelope(ToolExecData {
        tool_call_id: "tc".into(),
        tool_name: "bash".into(),
        arguments: obj(vec![]),
        turn_id: None,
        parent_tool_call_id: None,
    }));
    assert_eq!(ev.payload_name(), Some("bash"));
}

#[test]
fn tool_user_requested_returns_tool_name() {
    let ev = CopilotEvent::ToolUserRequested(envelope(ToolUserRequestedData {
        tool_call_id: "tc".into(),
        tool_name: "shell".into(),
        arguments: ToolUserArgs {
            command: "ls".into(),
            description: "list".into(),
        },
    }));
    assert_eq!(ev.payload_name(), Some("shell"));
}

#[test]
fn hook_start_returns_hook_type() {
    let ev = CopilotEvent::HookStart(envelope(HookStartData {
        hook_invocation_id: "hi".into(),
        hook_type: "PreToolUse".into(),
        input: hook_input(),
    }));
    assert_eq!(ev.payload_name(), Some("PreToolUse"));
}

#[test]
fn hook_end_returns_hook_type() {
    let ev = CopilotEvent::HookEnd(envelope(HookEndData {
        hook_invocation_id: "hi".into(),
        hook_type: "PostToolUse".into(),
        output: None,
        success: true,
    }));
    assert_eq!(ev.payload_name(), Some("PostToolUse"));
}

#[test]
fn skill_invoked_returns_skill_name() {
    let ev = CopilotEvent::SkillInvoked(envelope(SkillData {
        name: "brainstorming".into(),
        path: "/p".into(),
        content: String::new(),
        source: "plugin".into(),
        plugin_name: None,
        plugin_version: None,
        description: "desc".into(),
        trigger: "user".into(),
    }));
    assert_eq!(ev.payload_name(), Some("brainstorming"));
}

#[test]
fn tool_exec_complete_returns_none() {
    let ev = CopilotEvent::ToolExecComplete(envelope(ToolResultData {
        tool_call_id: "tc".into(),
        model: None,
        interaction_id: None,
        turn_id: None,
        success: true,
        result: None,
        tool_telemetry: None,
        error: None,
    }));
    assert_eq!(ev.payload_name(), None);
}

#[test]
fn unknown_returns_none() {
    let ev = CopilotEvent::Unknown;
    assert_eq!(ev.payload_name(), None);
}

#[test]
fn payload_tool_requests_assistant_message_multi() {
    let ev = assistant_message(
        "sonnet-4.6",
        100,
        vec![
            ToolRequest {
                tool_call_id: "tc-1".into(),
                name: "bash".into(),
                arguments: obj(vec![("command", JsonValue::String("ls -la".into()))]),
                call_type: "function".into(),
                intention_summary: None,
            },
            ToolRequest {
                tool_call_id: "tc-2".into(),
                name: "read_file".into(),
                arguments: obj(vec![("path", JsonValue::String("/etc/hosts".into()))]),
                call_type: "function".into(),
                intention_summary: None,
            },
        ],
    );
    let pairs = ev.payload_tool_requests();
    assert_eq!(pairs.len(), 2);
    assert_eq!(pairs[0].0, "tc-1");
    assert_eq!(pairs[0].1, obj(vec![("command", JsonValue::String("ls -la".into()))]));
    assert_eq!(pairs[1].0, "tc-2");
    assert_eq!(pairs[1].1, obj(vec![("path", JsonValue::String("/etc/hosts".into()))]));
}

#[test]
fn payload_tool_requests_tool_user_requested_single() {
    let ev = CopilotEvent::ToolUserRequested(envelope(ToolUserRequestedData {
        tool_call_id: "tc-9".into(),
        tool_name: "shell".into(),
        arguments: ToolUserArgs {
            command: "rm -rf /tmp/scratch".into(),
            description: "clean scratch dir".into(),
        },
    }));
    let pairs = ev.payload_tool_requests();
    assert_eq!(pairs.len(), 1);
    assert_eq!(pairs[0].0, "tc-9");
    match &pairs[0].1 {
        JsonValue::Object(fields) => {
            let get = |k: &str| fields.iter().find(|(key, _)| key == k).map(|(_, v)| clone_json(v));
            assert_eq!(get("command"), Some(JsonValue::String("rm -rf /tmp/scratch".into())));
            assert_eq!(get("description"), Some(JsonValue::String("clean scratch dir".into())));
        }
        other => panic!("expected an object, got {other:?}"),
    }
}

#[test]
fn payload_tool_requests_other_variants_empty() {
    let ev = CopilotEvent::SessionStart(envelope(SessionStartData {
        session_id: "s".into(),
        version: 1,
        producer: "test".into(),
        copilot_version: "1.0.0".into(),
        start_time: ts(),
        context: SessionContext {
            cwd: "/".into(),
            git_root: None,
            branch: None,
            head_commit: None,
            repository: None,
            host_type: None,
        },
        already_in_use: false,
    }));
    assert_eq!(ev.payload_tool_requests().len(), 0);
    assert_eq!(CopilotEvent::Unknown.payload_tool_requests().len(), 0);
}

#[test]
fn assistant_message_returns_model() {
    let ev = assistant_message("opus-4.7", 412, Vec::new());
    assert_eq!(ev.payload_model(), Some("opus-4.7"));
}

#[test]
fn assistant_message_returns_output_tokens() {
    let ev = assistant_message("gpt-5-mini", 88, Vec::new());
    assert_eq!(ev.payload_output_tokens(), Some(88));
}

#[test]
fn mode_changed_returns_new_mode() {
    let ev = CopilotEvent::ModeChanged(envelope(ModeChangeData {
        previous_mode: "ask".into(),
        new_mode: "auto".into(),
    }));
    assert_eq!(ev.payload_mode(), Some("auto"));
}

#[test]
fn non_assistant_message_has_no_model_or_tokens() {
    let ev = CopilotEvent::Unknown;
    assert_eq!(ev.payload_model(), None);
    assert_eq!(ev.payload_output_tokens(), None);
    assert_eq!(ev.payload_mode(), None);
}

#[test]
fn mode_unchanged_payloads_return_none_for_mode() {
    let ev = CopilotEvent::ModelChange(envelope(ModelChangeData {
        new_model: "gpt-5".into(),
    }));
    assert_eq!(ev.payload_mode(), None);
    assert_eq!(ev.payload_model(), None);
}

#[test]
fn envelope_accessors_read_common_fields() {
    let ev = CopilotEvent::ModelChange(WithEnvelope {
        id: "ev-1".into(),
        timestamp: UtcTimestamp { unix_secs: 5, nanos: 7 },
        parent_id: Some("ev-0".into()),
        ephemeral: None,
        agent_id: None,
        data: ModelChangeData { new_model: "m".into() },
    });
    assert_eq!(ev.id(), "ev-1");
    assert_eq!(ev.parent_id(), Some("ev-0"));
    assert_eq!(ev.timestamp(), UtcTimestamp { unix_secs: 5, nanos: 7 });
    assert_eq!(CopilotEvent::Unknown.id(), "");
    assert_eq!(CopilotEvent::Unknown.parent_id(), None);
}

#[test]
fn tool_call_id_for_tool_variants_only() {
    let ev = CopilotEvent::ToolExecStart(envelope(ToolExecData {
        tool_call_id: "call-7".into(),
        tool_name: "bash".into(),
        arguments: JsonValue::Null,
        turn_id: None,
        parent_tool_call_id: None,
    }));
    assert_eq!(ev.tool_call_id(), Some("call-7"));
    let other = assistant_message("m", 1, Vec::new());
    assert_eq!(other.tool_call_id(), None);
}

#[test]
fn timestamps_order_by_seconds_then_nanos() {
    let a = UtcTimestamp { unix_secs: 10, nanos: 5 };
    let b = UtcTimestamp { unix_secs: 10, nanos: 6 };
    let c = UtcTimestamp { unix_secs: 11, nanos: 0 };
    assert!(a.is_before(&b));
    assert!(b.is_before(&c));
    assert!(!b.is_before(&a));
    assert!(!a.is_before(&a));
}
