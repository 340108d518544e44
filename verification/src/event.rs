//! The Copilot CLI event model: one type per `events.jsonl` record shape,
//! and the accessors that the session pipeline reads events through.
//!
//! Timestamps are held as [`UtcTimestamp`] (seconds and nanoseconds since
//! the Unix epoch) and free-form JSON payloads as [`JsonValue`].

use vstd::prelude::*;

verus! {

/// A UTC instant: whole seconds since the Unix epoch plus a sub-second
/// nanosecond part (`0..1_000_000_000`).
#[derive(Debug, Clone, Copy, PartialEq, Eq, Structural)]
pub struct UtcTimestamp {
    /// Seconds since 1970-01-01T00:00:00Z (negative before it).
    pub unix_secs: i64,
    /// Nanoseconds within the second.
    pub nanos: u32,
}

/// `a` is strictly earlier than `b`.
pub open spec fn ts_lt(a: UtcTimestamp, b: UtcTimestamp) -> bool {
    a.unix_secs < b.unix_secs || (a.unix_secs == b.unix_secs && a.nanos < b.nanos)
}

impl UtcTimestamp {
    /// `self` is strictly earlier than `other`.
    pub fn is_before(&self, other: &UtcTimestamp) -> (r: bool)
        ensures
            r == ts_lt(*self, *other),
    {
        self.unix_secs < other.unix_secs || (self.unix_secs == other.unix_secs && self.nanos
            < other.nanos)
    }
}

/// A JSON value. Numbers keep their textual form.
#[derive(Debug, PartialEq, Eq)]
pub enum JsonValue {
    /// `null`.
    Null,
    /// `true` / `false`.
    Bool(bool),
    /// A number, as written.
    Number(String),
    /// A string.
    String(String),
    /// An array.
    Array(Vec<JsonValue>),
    /// An object, as key/value pairs in key order.
    Object(Vec<(String, JsonValue)>),
}

/// The mathematical content of a [`JsonValue`]: strings by their characters.
pub enum JsonModel {
    Null,
    Bool(bool),
    Number(Seq<char>),
    String(Seq<char>),
    Array(Seq<JsonModel>),
    Object(Seq<(Seq<char>, JsonModel)>),
}

impl JsonValue {
    pub open spec fn model(self) -> JsonModel
        decreases self,
    {
        match self {
            JsonValue::Null => JsonModel::Null,
            JsonValue::Bool(b) => JsonModel::Bool(b),
            JsonValue::Number(n) => JsonModel::Number(n@),
            JsonValue::String(t) => JsonModel::String(t@),
            JsonValue::Array(v) => JsonModel::Array(
                Seq::new(
                    v@.len(),
                    |i: int|
                        if 0 <= i < v@.len() {
                            v@[i].model()
                        } else {
                            JsonModel::Null
                        },
                ),
            ),
            JsonValue::Object(v) => JsonModel::Object(
                Seq::new(
                    v@.len(),
                    |i: int|
                        if 0 <= i < v@.len() {
                            (v@[i].0@, v@[i].1.model())
                        } else {
                            (Seq::empty(), JsonModel::Null)
                        },
                ),
            ),
        }
    }
}

/// A copy of `v`.
#[verifier::loop_isolation(false)]
pub fn clone_json(v: &JsonValue) -> (r: JsonValue)
    ensures
        r.model() == v.model(),
    decreases v,
{
    match v {
        JsonValue::Null => JsonValue::Null,
        JsonValue::Bool(b) => JsonValue::Bool(*b),
        JsonValue::Number(n) => JsonValue::Number(n.clone()),
        JsonValue::String(t) => JsonValue::String(t.clone()),
        JsonValue::Array(items) => {
            let mut out: Vec<JsonValue> = Vec::new();
            let mut i: usize = 0;
            while i < items.len()
                invariant
                    i <= items@.len(),
                    out@.len() == i,
                    forall|k: int| 0 <= k < i ==> #[trigger] out@[k].model() == items@[k].model(),
                decreases items@.len() - i,
            {
                assert(decreases_to!(*v => (*v)->Array_0));
                assert(decreases_to!(*items => items@));
                assert(decreases_to!(items@ => items@[i as int]));
                out.push(clone_json(&items[i]));
                i += 1;
            }
            let r = JsonValue::Array(out);
            assert(r.model() == v.model()) by {
                if let JsonModel::Array(a) = r.model() {
                    if let JsonModel::Array(b) = v.model() {
                        assert forall|k: int| 0 <= k < a.len() implies a[k] == b[k] by {
                            assert(out@[k].model() == items@[k].model());
                        }
                        assert(a =~= b);
                    }
                }
            }
            r
        },
        JsonValue::Object(entries) => {
            let mut out: Vec<(String, JsonValue)> = Vec::new();
            let mut i: usize = 0;
            while i < entries.len()
                invariant
                    i <= entries@.len(),
                    out@.len() == i,
                    forall|k: int|
                        0 <= k < i ==> #[trigger] out@[k].1.model() == entries@[k].1.model()
                            && out@[k].0@ == entries@[k].0@,
                decreases entries@.len() - i,
            {
                let (k, val) = &entries[i];
                assert(decreases_to!(*v => (*v)->Object_0));
                assert(decreases_to!(*entries => entries@));
                assert(decreases_to!(entries@ => entries@[i as int]));
                assert(decreases_to!(entries@[i as int] => entries@[i as int].1));
                out.push((k.clone(), clone_json(val)));
                i += 1;
            }
            let r = JsonValue::Object(out);
            assert(r.model() == v.model()) by {
                if let JsonModel::Object(a) = r.model() {
                    if let JsonModel::Object(b) = v.model() {
                        assert forall|k: int| 0 <= k < a.len() implies a[k] == b[k] by {
                            assert(out@[k].1.model() == entries@[k].1.model());
                        }
                        assert(a =~= b);
                    }
                }
            }
            r
        },
    }
}

pub open spec fn opt_view(o: Option<String>) -> Option<Seq<char>> {
    match o {
        Some(s) => Some(s@),
        None => None,
    }
}

pub open spec fn opt_str_view(o: Option<&str>) -> Option<Seq<char>> {
    match o {
        Some(s) => Some(s@),
        None => None,
    }
}

/// `Option::as_deref` on an optional `String`.
pub fn opt_as_str(o: &Option<String>) -> (r: Option<&str>)
    ensures
        opt_str_view(r) == opt_view(*o),
{
    match o {
        Some(s) => Some(s.as_str()),
        None => None,
    }
}

/// Common per-event envelope fields wrapped around every payload variant.
#[derive(Debug, Clone)]
pub struct WithEnvelope<D> {
    /// UUID identifying this event.
    pub id: String,
    /// When the event was recorded.
    pub timestamp: UtcTimestamp,
    /// Parent event ID; `None` at session start.
    pub parent_id: Option<String>,
    /// `true` for transient events.
    pub ephemeral: Option<bool>,
    /// Top-level subagent / tool-call identifier, when emitted by an active subagent.
    pub agent_id: Option<String>,
    /// Variant-specific payload.
    pub data: D,
}

/// Payload for `session.start`.
#[derive(Debug, Clone)]
pub struct SessionStartData {
    /// Stable session UUID.
    pub session_id: String,
    /// Wire-format version.
    pub version: u32,
    /// Producer identifier (e.g. `copilot-agent`).
    pub producer: String,
    /// Copilot CLI version (e.g. `1.0.54`).
    pub copilot_version: String,
    /// When the session started.
    pub start_time: UtcTimestamp,
    /// Workspace context at session start.
    pub context: SessionContext,
    /// Whether the session ID was already in use when this start was emitted.
    pub already_in_use: bool,
}

/// Workspace context recorded at session start.
#[derive(Debug, Clone)]
pub struct SessionContext {
    /// Working directory.
    pub cwd: String,
    /// Git repository root, if inside a repo.
    pub git_root: Option<String>,
    /// Active git branch.
    pub branch: Option<String>,
    /// HEAD commit SHA.
    pub head_commit: Option<String>,
    /// Repository identifier (e.g. `owner/repo`).
    pub repository: Option<String>,
    /// Host type (e.g. `github`).
    pub host_type: Option<String>,
}

/// Payload for `session.info`.
#[derive(Debug, Clone)]
pub struct SessionInfoData {
    /// Information kind (e.g. `folder_trust`).
    pub info_type: String,
    /// Human-readable message.
    pub message: String,
}

/// Payload for `session.mode_changed`.
#[derive(Debug, Clone)]
pub struct ModeChangeData {
    /// Previous mode value.
    pub previous_mode: String,
    /// New mode value.
    pub new_mode: String,
}

/// Payload for `session.model_change`.
#[derive(Debug, Clone)]
pub struct ModelChangeData {
    /// New model identifier.
    pub new_model: String,
}

/// Payload for `session.plan_changed`.
#[derive(Debug, Clone)]
pub struct PlanChangeData {
    /// Operation kind (e.g. `update`).
    pub operation: String,
}

/// Payload for `session.shutdown`.
#[derive(Debug)]
pub struct ShutdownData {
    /// Shutdown kind (e.g. `normal`).
    pub shutdown_type: String,
    /// Number of premium model requests.
    pub total_premium_requests: u32,
    /// Total time spent in API calls.
    pub total_api_duration_ms: u64,
    /// Unix epoch ms when the session started.
    pub session_start_time: u64,
    /// Aggregate code-change stats.
    pub code_changes: CodeChanges,
    /// Per-model usage rollup, by model name in key order.
    pub model_metrics: Vec<(String, JsonValue)>,
    /// The model active at shutdown.
    pub current_model: String,
}

/// Lines added/removed/files-touched aggregate from `session.shutdown`.
#[derive(Debug, Clone)]
pub struct CodeChanges {
    /// Lines added across all file edits.
    pub lines_added: u32,
    /// Lines removed across all file edits.
    pub lines_removed: u32,
    /// Paths of files touched.
    pub files_modified: Vec<String>,
}

/// Payload for `user.message`.
#[derive(Debug)]
pub struct UserMessageData {
    /// Raw user content as typed.
    pub content: String,
    /// Content after Copilot CLI applies system-prompt-style transformations.
    pub transformed_content: Option<String>,
    /// Where the message came from (e.g. `"cli"`, `"sdk"`), when recorded.
    pub source: Option<String>,
    /// File attachments accompanying the message.
    pub attachments: Vec<JsonValue>,
    /// Interaction ID linking this prompt to the subsequent assistant turn.
    pub interaction_id: String,
}

/// Payload for `assistant.turn_start` and `assistant.turn_end`.
#[derive(Debug, Clone)]
pub struct TurnRefData {
    /// Turn identifier (typically a small integer encoded as string).
    pub turn_id: String,
    /// Interaction ID; absent on `turn_end`.
    pub interaction_id: Option<String>,
}

/// One requested tool invocation embedded in an assistant message.
#[derive(Debug)]
pub struct ToolRequest {
    /// Stable ID for this tool call.
    pub tool_call_id: String,
    /// Tool name (`mcp__` / `skill__` / builtin).
    pub name: String,
    /// Tool-specific argument object.
    pub arguments: JsonValue,
    /// Tool-call type (typically `"function"`).
    pub call_type: String,
    /// Optional short summary of intent.
    pub intention_summary: Option<String>,
}

/// Payload for `assistant.message`.
#[derive(Debug)]
pub struct AssistantMessageData {
    /// Stable message ID.
    pub message_id: String,
    /// Model that produced this message.
    pub model: String,
    /// Assistant text content.
    pub content: String,
    /// Tool calls requested by this message.
    pub tool_requests: Vec<ToolRequest>,
    /// Interaction ID grouping prompt → response.
    pub interaction_id: String,
    /// Turn ID this message belongs to (absent on subagent messages).
    pub turn_id: Option<String>,
    /// Parent tool-call ID for subagent-spawned messages.
    pub parent_tool_call_id: Option<String>,
    /// Opaque internal reasoning state.
    pub reasoning_opaque: Option<String>,
    /// Plaintext reasoning trace (when emitted by the model).
    pub reasoning_text: Option<String>,
    /// Opaque full content.
    pub encrypted_content: Option<String>,
    /// Output token count reported by the model.
    pub output_tokens: u32,
    /// Optional upstream request ID.
    pub request_id: Option<String>,
    /// Optional service-side request ID.
    pub service_request_id: Option<String>,
}

/// Payload for `system.message`.
#[derive(Debug, Clone)]
pub struct SystemMessageData {
    /// Role (typically `"system"`).
    pub role: String,
    /// System message content.
    pub content: String,
}

/// Payload for `tool.execution_start`.
#[derive(Debug)]
pub struct ToolExecData {
    /// Tool call ID to match against `tool.execution_complete`.
    pub tool_call_id: String,
    /// Tool name.
    pub tool_name: String,
    /// Tool-specific argument object.
    pub arguments: JsonValue,
    /// Turn ID, when emitted by an in-turn tool call.
    pub turn_id: Option<String>,
    /// Parent tool call ID for nested / subagent-spawned tool invocations.
    pub parent_tool_call_id: Option<String>,
}

/// Tool result returned alongside `tool.execution_complete`.
#[derive(Debug, Clone)]
pub struct ToolResult {
    /// Short / summarized result content shown to the user.
    pub content: Option<String>,
    /// Verbose result content the model sees.
    pub detailed_content: Option<String>,
}

/// Telemetry record attached to a tool result.
#[derive(Debug)]
pub struct ToolTelemetry {
    /// Tool-author-defined properties, in key order.
    pub properties: Vec<(String, JsonValue)>,
    /// Tool-author-defined numeric metrics, in key order.
    pub metrics: Vec<(String, u64)>,
    /// Sensitive properties scrubbed from analytics streams.
    pub restricted_properties: JsonValue,
}

/// Error sub-payload when a tool execution fails.
#[derive(Debug, Clone)]
pub struct ToolError {
    /// Human-readable error message.
    pub message: String,
    /// Machine-readable error code (e.g. `"failure"`, `"timeout"`).
    pub code: Option<String>,
}

/// Payload for `tool.execution_complete`.
#[derive(Debug)]
pub struct ToolResultData {
    /// Tool call ID matching the `tool.execution_start`.
    pub tool_call_id: String,
    /// Model that requested this tool call.
    pub model: Option<String>,
    /// Interaction grouping.
    pub interaction_id: Option<String>,
    /// Turn ID (absent on some user-requested calls).
    pub turn_id: Option<String>,
    /// Whether the tool succeeded.
    pub success: bool,
    /// Result payload (absent on failures).
    pub result: Option<ToolResult>,
    /// Telemetry counters/properties.
    pub tool_telemetry: Option<ToolTelemetry>,
    /// Error details when `success == false`.
    pub error: Option<ToolError>,
}

/// Arguments specific to user-requested tool invocations.
#[derive(Debug, Clone)]
pub struct ToolUserArgs {
    /// Shell-like command string the user authorized.
    pub command: String,
    /// User-supplied description.
    pub description: String,
}

/// Payload for `tool.user_requested`.
#[derive(Debug, Clone)]
pub struct ToolUserRequestedData {
    /// Tool call ID.
    pub tool_call_id: String,
    /// Tool name.
    pub tool_name: String,
    /// User-supplied arguments.
    pub arguments: ToolUserArgs,
}

/// Hook input snapshot recorded when a hook is invoked.
#[derive(Debug, Clone)]
pub struct HookInput {
    /// Session UUID at the time the hook fired.
    pub session_id: String,
    /// Unix epoch milliseconds when the hook input was captured.
    pub timestamp: u64,
    /// Working directory at hook time.
    pub cwd: String,
    /// Origin label (only `sessionStart`-style hooks carry one).
    pub source: Option<String>,
    /// The initial user prompt for the session, when present.
    pub initial_prompt: Option<String>,
}

/// Payload for `hook.start`.
#[derive(Debug, Clone)]
pub struct HookStartData {
    /// Unique invocation ID for matching against the paired `hook.end`.
    pub hook_invocation_id: String,
    /// Hook kind (e.g. `SessionStart`, `PreToolUse`, `PostToolUse`).
    pub hook_type: String,
    /// Snapshot of input fed to the hook.
    pub input: HookInput,
}

/// Optional structured output emitted by a hook.
#[derive(Debug, Clone)]
pub struct HookOutput {
    /// Additional context the hook injected back into the session.
    pub additional_context: Option<String>,
}

/// Payload for `hook.end`.
#[derive(Debug, Clone)]
pub struct HookEndData {
    /// Invocation ID matching the prior `hook.start`.
    pub hook_invocation_id: String,
    /// Hook kind (mirrors `HookStartData.hook_type`).
    pub hook_type: String,
    /// Hook output, when the hook produced one.
    pub output: Option<HookOutput>,
    /// Whether the hook completed successfully.
    pub success: bool,
}

/// Payload for `skill.invoked`.
#[derive(Debug, Clone)]
pub struct SkillData {
    /// Skill name (e.g. `using-superpowers`).
    pub name: String,
    /// Filesystem path to the skill definition.
    pub path: String,
    /// Skill body content loaded into context.
    pub content: String,
    /// Where the skill came from (e.g. `plugin`, `project`, `user`).
    pub source: String,
    /// Plugin name when the skill is plugin-sourced.
    pub plugin_name: Option<String>,
    /// Plugin version when the skill is plugin-sourced.
    pub plugin_version: Option<String>,
    /// One-line skill description.
    pub description: String,
    /// Trigger that caused the skill to be invoked.
    pub trigger: String,
}

/// Payload for `abort`.
#[derive(Debug, Clone)]
pub struct AbortData {
    /// Reason for the abort (e.g. `user_interrupt`).
    pub reason: String,
}

/// Payload for `session.warning`.
#[derive(Debug, Clone)]
pub struct SessionWarningData {
    /// Human-readable warning text.
    pub message: Option<String>,
    /// Warning category (e.g. `mcp`).
    pub warning_type: Option<String>,
}

/// Payload for `session.resume`.
#[derive(Debug, Clone)]
pub struct SessionResumeData {
    /// Whether another live process was holding the session.
    pub already_in_use: Option<bool>,
    /// Workspace context captured at resume time.
    pub context: Option<SessionContext>,
    /// Number of events already on disk for this session.
    pub event_count: Option<u64>,
    /// Reasoning effort knob in effect (e.g. `high`).
    pub reasoning_effort: Option<String>,
    /// When the resume happened.
    pub resume_time: Option<UtcTimestamp>,
    /// Model selected for the resumed session.
    pub selected_model: Option<String>,
}

/// Payload for `session.compaction_start`.
#[derive(Debug, Clone)]
pub struct SessionCompactionStartData {
    /// Tokens occupied by the conversation transcript.
    pub conversation_tokens: Option<u64>,
    /// Tokens occupied by the system prompt(s).
    pub system_tokens: Option<u64>,
    /// Tokens occupied by tool definitions in context.
    pub tool_definitions_tokens: Option<u64>,
}

/// Token breakdown for a single compaction request.
#[derive(Debug)]
pub struct CompactionTokensUsed {
    /// Cache-read tokens (newer shape).
    pub cache_read_tokens: Option<u64>,
    /// Cache-write tokens (newer shape).
    pub cache_write_tokens: Option<u64>,
    /// Cached-input tokens (older shape).
    pub cached_input: Option<u64>,
    /// Free-form Copilot usage rollup (preserved verbatim).
    pub copilot_usage: Option<JsonValue>,
    /// Duration of the compaction request in milliseconds.
    pub duration: Option<u64>,
    /// Input tokens (either shape).
    pub input: Option<u64>,
    /// Input tokens (newer-shape alias).
    pub input_tokens: Option<u64>,
    /// Model that performed the compaction.
    pub model: Option<String>,
    /// Output tokens (either shape).
    pub output: Option<u64>,
    /// Output tokens (newer-shape alias).
    pub output_tokens: Option<u64>,
}

/// Payload for `session.compaction_complete`.
#[derive(Debug)]
pub struct SessionCompactionCompleteData {
    /// Sequence number of the resulting checkpoint within this session.
    pub checkpoint_number: Option<u64>,
    /// Filesystem path of the on-disk checkpoint produced by compaction.
    pub checkpoint_path: Option<String>,
    /// Token cost of the compaction request itself.
    pub compaction_tokens_used: Option<CompactionTokensUsed>,
    /// Number of messages in the conversation before compaction.
    pub pre_compaction_messages_length: Option<u64>,
    /// Token count of the conversation before compaction.
    pub pre_compaction_tokens: Option<u64>,
    /// Upstream API request id for the compaction call.
    pub request_id: Option<String>,
    /// Whether the compaction completed successfully.
    pub success: Option<bool>,
    /// Summarized content that replaced the compacted history.
    pub summary_content: Option<String>,
}

/// Payload for `system.notification`.
#[derive(Debug)]
pub struct SystemNotificationData {
    /// Rendered notification body shown to the user.
    pub content: String,
    /// Structured kind descriptor; discriminated by its inner `type` field.
    pub kind: JsonValue,
}

/// Payload for `permission.requested`.
#[derive(Debug)]
pub struct PermissionRequestedData {
    /// Unique id for this permission interaction.
    pub request_id: Option<String>,
    /// Detailed permission request payload (kind-specific).
    pub permission_request: Option<JsonValue>,
    /// Prompt-side request payload shown to the user.
    pub prompt_request: Option<JsonValue>,
    /// Tool call id this permission gates, if directly associated.
    pub tool_call_id: Option<String>,
}

/// Result of a `permission.completed` decision.
#[derive(Debug, Clone)]
pub struct PermissionResult {
    /// Verdict (e.g. `approved`, `denied`).
    pub kind: String,
}

/// Payload for `permission.completed`.
#[derive(Debug, Clone)]
pub struct PermissionCompletedData {
    /// Matching id from the originating `permission.requested` event.
    pub request_id: Option<String>,
    /// Decision outcome.
    pub result: PermissionResult,
    /// Tool call id this permission gated, if directly associated.
    pub tool_call_id: Option<String>,
}

/// Payload for `subagent.started`.
#[derive(Debug, Clone)]
pub struct SubagentStartedData {
    /// Long-form description of the subagent's capabilities.
    pub agent_description: Option<String>,
    /// User-facing display name (e.g. `General Purpose Agent`).
    pub agent_display_name: Option<String>,
    /// Stable agent identifier (e.g. `general-purpose`).
    pub agent_name: Option<String>,
    /// Tool call id that triggered the subagent invocation.
    pub tool_call_id: Option<String>,
}

/// Payload for `subagent.completed`.
#[derive(Debug, Clone)]
pub struct SubagentCompletedData {
    /// User-facing display name.
    pub agent_display_name: Option<String>,
    /// Stable agent identifier.
    pub agent_name: Option<String>,
    /// Wall-clock duration of the subagent run.
    pub duration_ms: Option<u64>,
    /// Model executed inside the subagent.
    pub model: Option<String>,
    /// Originating tool call id.
    pub tool_call_id: Option<String>,
    /// Total tokens consumed across the subagent run.
    pub total_tokens: Option<u64>,
    /// Total tool calls issued by the subagent.
    pub total_tool_calls: Option<u64>,
}

/// Payload for `subagent.failed`.
#[derive(Debug, Clone)]
pub struct SubagentFailedData {
    /// User-facing display name.
    pub agent_display_name: Option<String>,
    /// Stable agent identifier.
    pub agent_name: Option<String>,
    /// Wall-clock duration up to the failure.
    pub duration_ms: Option<u64>,
    /// Failure message (raw upstream error text).
    pub error: String,
    /// Originating tool call id.
    pub tool_call_id: Option<String>,
    /// Tool calls issued before the failure.
    pub total_tool_calls: Option<u64>,
}

/// One line of a Copilot CLI `events.jsonl` log, discriminated by the
/// wire-format `type` field: 28 named variants plus [`CopilotEvent::Unknown`]
/// for event types this library does not model.
#[derive(Debug)]
pub enum CopilotEvent {
    /// Session lifecycle (start of recording).
    SessionStart(WithEnvelope<SessionStartData>),
    /// Session info/status message.
    SessionInfo(WithEnvelope<SessionInfoData>),
    /// Mode transition (interactive/plan/autopilot).
    ModeChanged(WithEnvelope<ModeChangeData>),
    /// Model switched mid-session.
    ModelChange(WithEnvelope<ModelChangeData>),
    /// Plan document modified.
    PlanChanged(WithEnvelope<PlanChangeData>),
    /// Session terminated; carries shutdown summary.
    Shutdown(WithEnvelope<ShutdownData>),
    /// User-authored message.
    UserMessage(WithEnvelope<UserMessageData>),
    /// Assistant turn opened.
    TurnStart(WithEnvelope<TurnRefData>),
    /// Assistant-authored message.
    AssistantMessage(WithEnvelope<AssistantMessageData>),
    /// Assistant turn closed.
    TurnEnd(WithEnvelope<TurnRefData>),
    /// System-emitted message.
    SystemMessage(WithEnvelope<SystemMessageData>),
    /// Tool execution begin.
    ToolExecStart(WithEnvelope<ToolExecData>),
    /// Tool execution completion (success or error).
    ToolExecComplete(WithEnvelope<ToolResultData>),
    /// User-requested tool execution.
    ToolUserRequested(WithEnvelope<ToolUserRequestedData>),
    /// Hook invocation started.
    HookStart(WithEnvelope<HookStartData>),
    /// Hook invocation ended (success or failure).
    HookEnd(WithEnvelope<HookEndData>),
    /// Skill activated for this session.
    SkillInvoked(WithEnvelope<SkillData>),
    /// Session received a warning (e.g. MCP server unresponsive).
    SessionWarning(WithEnvelope<SessionWarningData>),
    /// Existing session resumed from on-disk state.
    SessionResume(WithEnvelope<SessionResumeData>),
    /// Conversation context compaction begun.
    SessionCompactionStart(WithEnvelope<SessionCompactionStartData>),
    /// Conversation context compaction finished.
    SessionCompactionComplete(WithEnvelope<SessionCompactionCompleteData>),
    /// System-emitted notification with structured `kind` payload.
    SystemNotification(WithEnvelope<SystemNotificationData>),
    /// Permission request awaiting user / policy decision.
    PermissionRequested(WithEnvelope<PermissionRequestedData>),
    /// Permission request resolved (approved / denied / cancelled).
    PermissionCompleted(WithEnvelope<PermissionCompletedData>),
    /// Subagent (task delegated to a sub-LLM) invocation started.
    SubagentStarted(WithEnvelope<SubagentStartedData>),
    /// Subagent finished successfully.
    SubagentCompleted(WithEnvelope<SubagentCompletedData>),
    /// Subagent failed (error returned before completion).
    SubagentFailed(WithEnvelope<SubagentFailedData>),
    /// User-initiated session abort.
    Abort(WithEnvelope<AbortData>),
    /// Forward-compatible fallback for unrecognized event types.
    Unknown,
}

/// Coarse classification of an event, one per [`CopilotEvent`] variant.
#[derive(Debug, Clone, Copy, PartialEq, Eq, Structural)]
pub enum EventKind {
    /// `SessionStart` events.
    SessionStart,
    /// `SessionInfo` events.
    SessionInfo,
    /// `ModeChanged` events.
    ModeChanged,
    /// `ModelChange` events.
    ModelChange,
    /// `PlanChanged` events.
    PlanChanged,
    /// `Shutdown` events.
    Shutdown,
    /// `UserMessage` events.
    UserMessage,
    /// `TurnStart` events.
    TurnStart,
    /// `AssistantMessage` events.
    AssistantMessage,
    /// `TurnEnd` events.
    TurnEnd,
    /// `SystemMessage` events.
    SystemMessage,
    /// `ToolExecStart` events.
    ToolExecStart,
    /// `ToolExecComplete` events.
    ToolExecComplete,
    /// `ToolUserRequested` events.
    ToolUserRequested,
    /// `HookStart` events.
    HookStart,
    /// `HookEnd` events.
    HookEnd,
    /// `SkillInvoked` events.
    SkillInvoked,
    /// `SessionWarning` events.
    SessionWarning,
    /// `SessionResume` events.
    SessionResume,
    /// `SessionCompactionStart` events.
    SessionCompactionStart,
    /// `SessionCompactionComplete` events.
    SessionCompactionComplete,
    /// `SystemNotification` events.
    SystemNotification,
    /// `PermissionRequested` events.
    PermissionRequested,
    /// `PermissionCompleted` events.
    PermissionCompleted,
    /// `SubagentStarted` events.
    SubagentStarted,
    /// `SubagentCompleted` events.
    SubagentCompleted,
    /// `SubagentFailed` events.
    SubagentFailed,
    /// `Abort` events.
    Abort,
    /// Events of an unrecognized type.
    Unknown,
}

pub open spec fn spec_event_id(e: CopilotEvent) -> Seq<char> {
    match e {
        CopilotEvent::SessionStart(env) => env.id@,
        CopilotEvent::SessionInfo(env) => env.id@,
        CopilotEvent::ModeChanged(env) => env.id@,
        CopilotEvent::ModelChange(env) => env.id@,
        CopilotEvent::PlanChanged(env) => env.id@,
        CopilotEvent::Shutdown(env) => env.id@,
        CopilotEvent::UserMessage(env) => env.id@,
        CopilotEvent::TurnStart(env) => env.id@,
        CopilotEvent::AssistantMessage(env) => env.id@,
        CopilotEvent::TurnEnd(env) => env.id@,
        CopilotEvent::SystemMessage(env) => env.id@,
        CopilotEvent::ToolExecStart(env) => env.id@,
        CopilotEvent::ToolExecComplete(env) => env.id@,
        CopilotEvent::ToolUserRequested(env) => env.id@,
        CopilotEvent::HookStart(env) => env.id@,
        CopilotEvent::HookEnd(env) => env.id@,
        CopilotEvent::SkillInvoked(env) => env.id@,
        CopilotEvent::SessionWarning(env) => env.id@,
        CopilotEvent::SessionResume(env) => env.id@,
        CopilotEvent::SessionCompactionStart(env) => env.id@,
        CopilotEvent::SessionCompactionComplete(env) => env.id@,
        CopilotEvent::SystemNotification(env) => env.id@,
        CopilotEvent::PermissionRequested(env) => env.id@,
        CopilotEvent::PermissionCompleted(env) => env.id@,
        CopilotEvent::SubagentStarted(env) => env.id@,
        CopilotEvent::SubagentCompleted(env) => env.id@,
        CopilotEvent::SubagentFailed(env) => env.id@,
        CopilotEvent::Abort(env) => env.id@,
        CopilotEvent::Unknown => Seq::empty(),
    }
}

pub open spec fn spec_event_kind(e: CopilotEvent) -> EventKind {
    match e {
        CopilotEvent::SessionStart(env) => EventKind::SessionStart,
        CopilotEvent::SessionInfo(env) => EventKind::SessionInfo,
        CopilotEvent::ModeChanged(env) => EventKind::ModeChanged,
        CopilotEvent::ModelChange(env) => EventKind::ModelChange,
        CopilotEvent::PlanChanged(env) => EventKind::PlanChanged,
        CopilotEvent::Shutdown(env) => EventKind::Shutdown,
        CopilotEvent::UserMessage(env) => EventKind::UserMessage,
        CopilotEvent::TurnStart(env) => EventKind::TurnStart,
        CopilotEvent::AssistantMessage(env) => EventKind::AssistantMessage,
        CopilotEvent::TurnEnd(env) => EventKind::TurnEnd,
        CopilotEvent::SystemMessage(env) => EventKind::SystemMessage,
        CopilotEvent::ToolExecStart(env) => EventKind::ToolExecStart,
        CopilotEvent::ToolExecComplete(env) => EventKind::ToolExecComplete,
        CopilotEvent::ToolUserRequested(env) => EventKind::ToolUserRequested,
        CopilotEvent::HookStart(env) => EventKind::HookStart,
        CopilotEvent::HookEnd(env) => EventKind::HookEnd,
        CopilotEvent::SkillInvoked(env) => EventKind::SkillInvoked,
        CopilotEvent::SessionWarning(env) => EventKind::SessionWarning,
        CopilotEvent::SessionResume(env) => EventKind::SessionResume,
        CopilotEvent::SessionCompactionStart(env) => EventKind::SessionCompactionStart,
        CopilotEvent::SessionCompactionComplete(env) => EventKind::SessionCompactionComplete,
        CopilotEvent::SystemNotification(env) => EventKind::SystemNotification,
        CopilotEvent::PermissionRequested(env) => EventKind::PermissionRequested,
        CopilotEvent::PermissionCompleted(env) => EventKind::PermissionCompleted,
        CopilotEvent::SubagentStarted(env) => EventKind::SubagentStarted,
        CopilotEvent::SubagentCompleted(env) => EventKind::SubagentCompleted,
        CopilotEvent::SubagentFailed(env) => EventKind::SubagentFailed,
        CopilotEvent::Abort(env) => EventKind::Abort,
        CopilotEvent::Unknown => EventKind::Unknown,
    }
}

pub open spec fn spec_event_timestamp(e: CopilotEvent) -> UtcTimestamp {
    match e {
        CopilotEvent::SessionStart(env) => env.timestamp,
        CopilotEvent::SessionInfo(env) => env.timestamp,
        CopilotEvent::ModeChanged(env) => env.timestamp,
        CopilotEvent::ModelChange(env) => env.timestamp,
        CopilotEvent::PlanChanged(env) => env.timestamp,
        CopilotEvent::Shutdown(env) => env.timestamp,
        CopilotEvent::UserMessage(env) => env.timestamp,
        CopilotEvent::TurnStart(env) => env.timestamp,
        CopilotEvent::AssistantMessage(env) => env.timestamp,
        CopilotEvent::TurnEnd(env) => env.timestamp,
        CopilotEvent::SystemMessage(env) => env.timestamp,
        CopilotEvent::ToolExecStart(env) => env.timestamp,
        CopilotEvent::ToolExecComplete(env) => env.timestamp,
        CopilotEvent::ToolUserRequested(env) => env.timestamp,
        CopilotEvent::HookStart(env) => env.timestamp,
        CopilotEvent::HookEnd(env) => env.timestamp,
        CopilotEvent::SkillInvoked(env) => env.timestamp,
        CopilotEvent::SessionWarning(env) => env.timestamp,
        CopilotEvent::SessionResume(env) => env.timestamp,
        CopilotEvent::SessionCompactionStart(env) => env.timestamp,
        CopilotEvent::SessionCompactionComplete(env) => env.timestamp,
        CopilotEvent::SystemNotification(env) => env.timestamp,
        CopilotEvent::PermissionRequested(env) => env.timestamp,
        CopilotEvent::PermissionCompleted(env) => env.timestamp,
        CopilotEvent::SubagentStarted(env) => env.timestamp,
        CopilotEvent::SubagentCompleted(env) => env.timestamp,
        CopilotEvent::SubagentFailed(env) => env.timestamp,
        CopilotEvent::Abort(env) => env.timestamp,
        CopilotEvent::Unknown => UtcTimestamp { unix_secs: 0, nanos: 0 },
    }
}

pub open spec fn spec_event_parent_id(e: CopilotEvent) -> Option<Seq<char>> {
    match e {
        CopilotEvent::SessionStart(env) => opt_view(env.parent_id),
        CopilotEvent::SessionInfo(env) => opt_view(env.parent_id),
        CopilotEvent::ModeChanged(env) => opt_view(env.parent_id),
        CopilotEvent::ModelChange(env) => opt_view(env.parent_id),
        CopilotEvent::PlanChanged(env) => opt_view(env.parent_id),
        CopilotEvent::Shutdown(env) => opt_view(env.parent_id),
        CopilotEvent::UserMessage(env) => opt_view(env.parent_id),
        CopilotEvent::TurnStart(env) => opt_view(env.parent_id),
        CopilotEvent::AssistantMessage(env) => opt_view(env.parent_id),
        CopilotEvent::TurnEnd(env) => opt_view(env.parent_id),
        CopilotEvent::SystemMessage(env) => opt_view(env.parent_id),
        CopilotEvent::ToolExecStart(env) => opt_view(env.parent_id),
        CopilotEvent::ToolExecComplete(env) => opt_view(env.parent_id),
        CopilotEvent::ToolUserRequested(env) => opt_view(env.parent_id),
        CopilotEvent::HookStart(env) => opt_view(env.parent_id),
        CopilotEvent::HookEnd(env) => opt_view(env.parent_id),
        CopilotEvent::SkillInvoked(env) => opt_view(env.parent_id),
        CopilotEvent::SessionWarning(env) => opt_view(env.parent_id),
        CopilotEvent::SessionResume(env) => opt_view(env.parent_id),
        CopilotEvent::SessionCompactionStart(env) => opt_view(env.parent_id),
        CopilotEvent::SessionCompactionComplete(env) => opt_view(env.parent_id),
        CopilotEvent::SystemNotification(env) => opt_view(env.parent_id),
        CopilotEvent::PermissionRequested(env) => opt_view(env.parent_id),
        CopilotEvent::PermissionCompleted(env) => opt_view(env.parent_id),
        CopilotEvent::SubagentStarted(env) => opt_view(env.parent_id),
        CopilotEvent::SubagentCompleted(env) => opt_view(env.parent_id),
        CopilotEvent::SubagentFailed(env) => opt_view(env.parent_id),
        CopilotEvent::Abort(env) => opt_view(env.parent_id),
        CopilotEvent::Unknown => None,
    }
}

impl CopilotEvent {
    /// The event's `id` (the empty string for [`CopilotEvent::Unknown`],
    /// whose envelope is not kept).
    pub fn id(&self) -> (r: &str)
        ensures
            r@ == spec_event_id(*self),
    {
        proof {
            reveal_strlit("");
        }
        match self {
            CopilotEvent::SessionStart(env) => env.id.as_str(),
            CopilotEvent::SessionInfo(env) => env.id.as_str(),
            CopilotEvent::ModeChanged(env) => env.id.as_str(),
            CopilotEvent::ModelChange(env) => env.id.as_str(),
            CopilotEvent::PlanChanged(env) => env.id.as_str(),
            CopilotEvent::Shutdown(env) => env.id.as_str(),
            CopilotEvent::UserMessage(env) => env.id.as_str(),
            CopilotEvent::TurnStart(env) => env.id.as_str(),
            CopilotEvent::AssistantMessage(env) => env.id.as_str(),
            CopilotEvent::TurnEnd(env) => env.id.as_str(),
            CopilotEvent::SystemMessage(env) => env.id.as_str(),
            CopilotEvent::ToolExecStart(env) => env.id.as_str(),
            CopilotEvent::ToolExecComplete(env) => env.id.as_str(),
            CopilotEvent::ToolUserRequested(env) => env.id.as_str(),
            CopilotEvent::HookStart(env) => env.id.as_str(),
            CopilotEvent::HookEnd(env) => env.id.as_str(),
            CopilotEvent::SkillInvoked(env) => env.id.as_str(),
            CopilotEvent::SessionWarning(env) => env.id.as_str(),
            CopilotEvent::SessionResume(env) => env.id.as_str(),
            CopilotEvent::SessionCompactionStart(env) => env.id.as_str(),
            CopilotEvent::SessionCompactionComplete(env) => env.id.as_str(),
            CopilotEvent::SystemNotification(env) => env.id.as_str(),
            CopilotEvent::PermissionRequested(env) => env.id.as_str(),
            CopilotEvent::PermissionCompleted(env) => env.id.as_str(),
            CopilotEvent::SubagentStarted(env) => env.id.as_str(),
            CopilotEvent::SubagentCompleted(env) => env.id.as_str(),
            CopilotEvent::SubagentFailed(env) => env.id.as_str(),
            CopilotEvent::Abort(env) => env.id.as_str(),
            CopilotEvent::Unknown => "",
        }
    }

    /// The coarse [`EventKind`] of this event.
    pub fn kind(&self) -> (r: EventKind)
        ensures
            r == spec_event_kind(*self),
    {
        match self {
            CopilotEvent::SessionStart(env) => EventKind::SessionStart,
            CopilotEvent::SessionInfo(env) => EventKind::SessionInfo,
            CopilotEvent::ModeChanged(env) => EventKind::ModeChanged,
            CopilotEvent::ModelChange(env) => EventKind::ModelChange,
            CopilotEvent::PlanChanged(env) => EventKind::PlanChanged,
            CopilotEvent::Shutdown(env) => EventKind::Shutdown,
            CopilotEvent::UserMessage(env) => EventKind::UserMessage,
            CopilotEvent::TurnStart(env) => EventKind::TurnStart,
            CopilotEvent::AssistantMessage(env) => EventKind::AssistantMessage,
            CopilotEvent::TurnEnd(env) => EventKind::TurnEnd,
            CopilotEvent::SystemMessage(env) => EventKind::SystemMessage,
            CopilotEvent::ToolExecStart(env) => EventKind::ToolExecStart,
            CopilotEvent::ToolExecComplete(env) => EventKind::ToolExecComplete,
            CopilotEvent::ToolUserRequested(env) => EventKind::ToolUserRequested,
            CopilotEvent::HookStart(env) => EventKind::HookStart,
            CopilotEvent::HookEnd(env) => EventKind::HookEnd,
            CopilotEvent::SkillInvoked(env) => EventKind::SkillInvoked,
            CopilotEvent::SessionWarning(env) => EventKind::SessionWarning,
            CopilotEvent::SessionResume(env) => EventKind::SessionResume,
            CopilotEvent::SessionCompactionStart(env) => EventKind::SessionCompactionStart,
            CopilotEvent::SessionCompactionComplete(env) => EventKind::SessionCompactionComplete,
            CopilotEvent::SystemNotification(env) => EventKind::SystemNotification,
            CopilotEvent::PermissionRequested(env) => EventKind::PermissionRequested,
            CopilotEvent::PermissionCompleted(env) => EventKind::PermissionCompleted,
            CopilotEvent::SubagentStarted(env) => EventKind::SubagentStarted,
            CopilotEvent::SubagentCompleted(env) => EventKind::SubagentCompleted,
            CopilotEvent::SubagentFailed(env) => EventKind::SubagentFailed,
            CopilotEvent::Abort(env) => EventKind::Abort,
            CopilotEvent::Unknown => EventKind::Unknown,
        }
    }

    /// The event timestamp (the Unix epoch for [`CopilotEvent::Unknown`]).
    pub fn timestamp(&self) -> (r: UtcTimestamp)
        ensures
            r == spec_event_timestamp(*self),
    {
        match self {
            CopilotEvent::SessionStart(env) => env.timestamp,
            CopilotEvent::SessionInfo(env) => env.timestamp,
            CopilotEvent::ModeChanged(env) => env.timestamp,
            CopilotEvent::ModelChange(env) => env.timestamp,
            CopilotEvent::PlanChanged(env) => env.timestamp,
            CopilotEvent::Shutdown(env) => env.timestamp,
            CopilotEvent::UserMessage(env) => env.timestamp,
            CopilotEvent::TurnStart(env) => env.timestamp,
            CopilotEvent::AssistantMessage(env) => env.timestamp,
            CopilotEvent::TurnEnd(env) => env.timestamp,
            CopilotEvent::SystemMessage(env) => env.timestamp,
            CopilotEvent::ToolExecStart(env) => env.timestamp,
            CopilotEvent::ToolExecComplete(env) => env.timestamp,
            CopilotEvent::ToolUserRequested(env) => env.timestamp,
            CopilotEvent::HookStart(env) => env.timestamp,
            CopilotEvent::HookEnd(env) => env.timestamp,
            CopilotEvent::SkillInvoked(env) => env.timestamp,
            CopilotEvent::SessionWarning(env) => env.timestamp,
            CopilotEvent::SessionResume(env) => env.timestamp,
            CopilotEvent::SessionCompactionStart(env) => env.timestamp,
            CopilotEvent::SessionCompactionComplete(env) => env.timestamp,
            CopilotEvent::SystemNotification(env) => env.timestamp,
            CopilotEvent::PermissionRequested(env) => env.timestamp,
            CopilotEvent::PermissionCompleted(env) => env.timestamp,
            CopilotEvent::SubagentStarted(env) => env.timestamp,
            CopilotEvent::SubagentCompleted(env) => env.timestamp,
            CopilotEvent::SubagentFailed(env) => env.timestamp,
            CopilotEvent::Abort(env) => env.timestamp,
            CopilotEvent::Unknown => UtcTimestamp { unix_secs: 0, nanos: 0 },
        }
    }

    /// The parent event id; `None` at session start, for top-level events
    /// and for [`CopilotEvent::Unknown`].
    pub fn parent_id(&self) -> (r: Option<&str>)
        ensures
            opt_str_view(r) == spec_event_parent_id(*self),
    {
        match self {
            CopilotEvent::SessionStart(env) => opt_as_str(&env.parent_id),
            CopilotEvent::SessionInfo(env) => opt_as_str(&env.parent_id),
            CopilotEvent::ModeChanged(env) => opt_as_str(&env.parent_id),
            CopilotEvent::ModelChange(env) => opt_as_str(&env.parent_id),
            CopilotEvent::PlanChanged(env) => opt_as_str(&env.parent_id),
            CopilotEvent::Shutdown(env) => opt_as_str(&env.parent_id),
            CopilotEvent::UserMessage(env) => opt_as_str(&env.parent_id),
            CopilotEvent::TurnStart(env) => opt_as_str(&env.parent_id),
            CopilotEvent::AssistantMessage(env) => opt_as_str(&env.parent_id),
            CopilotEvent::TurnEnd(env) => opt_as_str(&env.parent_id),
            CopilotEvent::SystemMessage(env) => opt_as_str(&env.parent_id),
            CopilotEvent::ToolExecStart(env) => opt_as_str(&env.parent_id),
            CopilotEvent::ToolExecComplete(env) => opt_as_str(&env.parent_id),
            CopilotEvent::ToolUserRequested(env) => opt_as_str(&env.parent_id),
            CopilotEvent::HookStart(env) => opt_as_str(&env.parent_id),
            CopilotEvent::HookEnd(env) => opt_as_str(&env.parent_id),
            CopilotEvent::SkillInvoked(env) => opt_as_str(&env.parent_id),
            CopilotEvent::SessionWarning(env) => opt_as_str(&env.parent_id),
            CopilotEvent::SessionResume(env) => opt_as_str(&env.parent_id),
            CopilotEvent::SessionCompactionStart(env) => opt_as_str(&env.parent_id),
            CopilotEvent::SessionCompactionComplete(env) => opt_as_str(&env.parent_id),
            CopilotEvent::SystemNotification(env) => opt_as_str(&env.parent_id),
            CopilotEvent::PermissionRequested(env) => opt_as_str(&env.parent_id),
            CopilotEvent::PermissionCompleted(env) => opt_as_str(&env.parent_id),
            CopilotEvent::SubagentStarted(env) => opt_as_str(&env.parent_id),
            CopilotEvent::SubagentCompleted(env) => opt_as_str(&env.parent_id),
            CopilotEvent::SubagentFailed(env) => opt_as_str(&env.parent_id),
            CopilotEvent::Abort(env) => opt_as_str(&env.parent_id),
            CopilotEvent::Unknown => None,
        }
    }

}

/// The payload-defined name of an event, for the variants that have one.
pub open spec fn spec_payload_name(e: CopilotEvent) -> Option<Seq<char>> {
    match e {
        CopilotEvent::ToolExecStart(env) => Some(env.data.tool_name@),
        CopilotEvent::ToolUserRequested(env) => Some(env.data.tool_name@),
        CopilotEvent::HookStart(env) => Some(env.data.hook_type@),
        CopilotEvent::HookEnd(env) => Some(env.data.hook_type@),
        CopilotEvent::SkillInvoked(env) => Some(env.data.name@),
        _ => None,
    }
}

pub open spec fn spec_tool_call_id(e: CopilotEvent) -> Option<Seq<char>> {
    match e {
        CopilotEvent::ToolExecStart(env) => Some(env.data.tool_call_id@),
        CopilotEvent::ToolExecComplete(env) => Some(env.data.tool_call_id@),
        CopilotEvent::ToolUserRequested(env) => Some(env.data.tool_call_id@),
        _ => None,
    }
}

impl CopilotEvent {
    /// The payload-defined name: the tool name for `ToolExecStart` /
    /// `ToolUserRequested`, the hook type for `HookStart` / `HookEnd`, the
    /// skill name for `SkillInvoked`, `None` for every other variant.
    pub fn payload_name(&self) -> (r: Option<&str>)
        ensures
            opt_str_view(r) == spec_payload_name(*self),
    {
        match self {
            CopilotEvent::ToolExecStart(env) => Some(env.data.tool_name.as_str()),
            CopilotEvent::ToolUserRequested(env) => Some(env.data.tool_name.as_str()),
            CopilotEvent::HookStart(env) => Some(env.data.hook_type.as_str()),
            CopilotEvent::HookEnd(env) => Some(env.data.hook_type.as_str()),
            CopilotEvent::SkillInvoked(env) => Some(env.data.name.as_str()),
            _ => None,
        }
    }

    /// The model of an `AssistantMessage`; `None` for every other variant.
    pub fn payload_model(&self) -> (r: Option<&str>)
        ensures
            opt_str_view(r) == (match *self {
                CopilotEvent::AssistantMessage(env) => Some(env.data.model@),
                _ => None,
            }),
    {
        match self {
            CopilotEvent::AssistantMessage(env) => Some(env.data.model.as_str()),
            _ => None,
        }
    }

    /// The output token count of an `AssistantMessage`; `None` otherwise.
    pub fn payload_output_tokens(&self) -> (r: Option<u32>)
        ensures
            r == (match *self {
                CopilotEvent::AssistantMessage(env) => Some(env.data.output_tokens),
                _ => None,
            }),
    {
        match self {
            CopilotEvent::AssistantMessage(env) => Some(env.data.output_tokens),
            _ => None,
        }
    }

    /// The new mode of a `ModeChanged` event; `None` otherwise.
    pub fn payload_mode(&self) -> (r: Option<&str>)
        ensures
            opt_str_view(r) == (match *self {
                CopilotEvent::ModeChanged(env) => Some(env.data.new_mode@),
                _ => None,
            }),
    {
        match self {
            CopilotEvent::ModeChanged(env) => Some(env.data.new_mode.as_str()),
            _ => None,
        }
    }

    /// The `tool_call_id` of `ToolExecStart`, `ToolExecComplete` and
    /// `ToolUserRequested` events; `None` otherwise.
    pub fn tool_call_id(&self) -> (r: Option<&str>)
        ensures
            opt_str_view(r) == spec_tool_call_id(*self),
    {
        match self {
            CopilotEvent::ToolExecStart(env) => Some(env.data.tool_call_id.as_str()),
            CopilotEvent::ToolExecComplete(env) => Some(env.data.tool_call_id.as_str()),
            CopilotEvent::ToolUserRequested(env) => Some(env.data.tool_call_id.as_str()),
            _ => None,
        }
    }
}


/// The JSON object that a `tool.user_requested` payload's arguments
/// serialise to: `{"command": .., "description": ..}`.
pub open spec fn user_args_model(a: ToolUserArgs) -> JsonModel {
    JsonModel::Object(
        seq![
            ("command"@, JsonModel::String(a.command@)),
            ("description"@, JsonModel::String(a.description@)),
        ],
    )
}

/// The `(tool_call_id, arguments)` pairs an event carries, as models.
pub open spec fn spec_tool_requests(e: CopilotEvent) -> Seq<(Seq<char>, JsonModel)> {
    match e {
        CopilotEvent::AssistantMessage(env) => Seq::new(
            env.data.tool_requests@.len(),
            |i: int| (env.data.tool_requests@[i].tool_call_id@, env.data.tool_requests@[i].arguments.model()),
        ),
        CopilotEvent::ToolUserRequested(env) => seq![
            (env.data.tool_call_id@, user_args_model(env.data.arguments)),
        ],
        _ => Seq::empty(),
    }
}

/// Views of a list of `(id, json)` pairs.
pub open spec fn pair_models(v: Seq<(String, JsonValue)>) -> Seq<(Seq<char>, JsonModel)> {
    Seq::new(v.len(), |i: int| (v[i].0@, v[i].1.model()))
}

impl CopilotEvent {
    /// The tool requests an event carries, as `(tool_call_id, arguments)`:
    /// every entry of an `AssistantMessage`'s `tool_requests` in order, the
    /// single user-authorised call of a `ToolUserRequested` (its arguments as
    /// a `{"command", "description"}` object), and nothing for every other
    /// variant.
    pub fn payload_tool_requests(&self) -> (r: Vec<(String, JsonValue)>)
        ensures
            pair_models(r@) == spec_tool_requests(*self),
    {
        match self {
            CopilotEvent::AssistantMessage(env) => {
                let reqs = &env.data.tool_requests;
                let mut out: Vec<(String, JsonValue)> = Vec::new();
                let mut i: usize = 0;
                while i < reqs.len()
                    invariant
                        i <= reqs@.len(),
                        out@.len() == i,
                        forall|k: int|
                            0 <= k < i ==> (#[trigger] out@[k]).0@ == reqs@[k].tool_call_id@
                                && out@[k].1.model() == reqs@[k].arguments.model(),
                    decreases reqs@.len() - i,
                {
                    let id = reqs[i].tool_call_id.clone();
                    let args = clone_json(&reqs[i].arguments);
                    out.push((id, args));
                    i += 1;
                }
                assert(pair_models(out@) =~= spec_tool_requests(*self));
                out
            },
            CopilotEvent::ToolUserRequested(env) => {
                let ghost a = env.data.arguments;
                let command = JsonValue::String(env.data.arguments.command.clone());
                let description = JsonValue::String(env.data.arguments.description.clone());
                let mut fields: Vec<(String, JsonValue)> = Vec::new();
                fields.push(("command".to_owned(), command));
                fields.push(("description".to_owned(), description));
                assert(fields@[0].0@ == "command"@);
                assert(fields@[1].0@ == "description"@);
                assert(fields@[0].1.model() == JsonModel::String(a.command@));
                assert(fields@[1].1.model() == JsonModel::String(a.description@));
                let obj = JsonValue::Object(fields);
                proof {
                    reveal_strlit("command");
                    reveal_strlit("description");
                    assert(obj.model() =~= user_args_model(a)) by {
                        if let JsonModel::Object(m) = obj.model() {
                            assert(m =~= seq![
                                ("command"@, JsonModel::String(a.command@)),
                                ("description"@, JsonModel::String(a.description@)),
                            ]);
                        }
                    }
                }
                let mut out: Vec<(String, JsonValue)> = Vec::new();
                out.push((env.data.tool_call_id.clone(), obj));
                assert(pair_models(out@) =~= spec_tool_requests(*self));
                out
            },
            _ => {
                let out: Vec<(String, JsonValue)> = Vec::new();
                assert(pair_models(out@) =~= spec_tool_requests(*self));
                out
            },
        }
    }
}

} // verus!
