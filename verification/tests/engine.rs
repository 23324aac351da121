use dsh_pet::engine::{
    build_snapshot, EngineState, EventFrame, SessionItem, Snapshot, PENDING_TTL_MS,
};

fn frame(kind: &str) -> EventFrame {
    EventFrame {
        kind: Some(kind.to_string()),
        approval_id: None,
        session_id: None,
        tool_name: None,
        question_rpc_id: None,
        questions: None,
        item_count: None,
        running: None,
    }
}

fn item(id: &str, title: Option<&str>, running: Option<bool>) -> SessionItem {
    SessionItem {
        session_id: Some(id.to_string()),
        title: title.map(|t| t.to_string()),
        running,
    }
}

fn approval(id: &str, session: &str, tool: &str) -> EventFrame {
    let mut f = frame("approval/requested");
    f.approval_id = Some(id.to_string());
    f.session_id = Some(session.to_string());
    f.tool_name = Some(tool.to_string());
    f
}

fn question(id: &str, session: &str, text: &str) -> EventFrame {
    let mut f = frame("question/requested");
    f.question_rpc_id = Some(id.to_string());
    f.session_id = Some(session.to_string());
    f.questions = Some(vec![Some(text.to_string())]);
    f
}

fn host(session: &str, running: bool) -> EventFrame {
    let mut f = frame("host/session-status");
    f.session_id = Some(session.to_string());
    f.running = Some(running);
    f
}

fn connected() -> EngineState {
    let mut st = EngineState::default();
    st.apply_session_list(&vec![], 1_000);
    st
}

#[test]
fn fresh_state_is_offline() {
    let st = EngineState::default();
    let s: Snapshot = build_snapshot(&st);
    assert_eq!(s.state, "offline");
    assert!(s.attention.is_empty() && s.running.is_empty() && s.done.is_empty());
}

#[test]
fn empty_session_list_is_idle() {
    let st = connected();
    assert_eq!(build_snapshot(&st).state, "idle");
    assert!(st.connected);
    assert_eq!(st.last_emitted_mode.as_deref(), Some("idle"));
}

#[test]
fn poll_failure_is_offline_with_error() {
    let mut st = connected();
    let s = st.record_poll_failure("HTTP 500 Internal Server Error".to_string(), 2_000);
    assert_eq!(s.state, "offline");
    assert_eq!(st.last_error.as_deref(), Some("HTTP 500 Internal Server Error"));
    assert!(!st.connected);
}

#[test]
fn error_outranks_attention() {
    let mut st = connected();
    st.handle_frame(&approval("a1", "s1", "bash"), 1_000);
    st.last_error = Some("boom".to_string());
    assert_eq!(build_snapshot(&st).state, "error");
}

#[test]
fn running_session_is_working_with_titles() {
    let mut st = EngineState::default();
    let s = st.apply_session_list(
        &vec![item("s1", Some("写代码"), Some(true)), item("s2", None, Some(false))],
        1_000,
    );
    assert_eq!(s.state, "working");
    assert_eq!(s.running, vec!["写代码"]);
    assert_eq!(st.sessions.get(&"s2".to_string()).unwrap().title, "未命名会话");
}

#[test]
fn idle_sessions_are_turn_idle() {
    let mut st = EngineState::default();
    let s = st.apply_session_list(&vec![item("s1", Some("t"), None)], 1_000);
    assert_eq!(s.state, "turn-idle");
}

#[test]
fn running_to_stopped_marks_done() {
    let mut st = EngineState::default();
    st.apply_session_list(&vec![item("s1", Some("任务"), Some(true))], 1_000);
    let s = st.apply_session_list(&vec![item("s1", Some("任务"), Some(false))], 2_000);
    assert_eq!(s.state, "done");
    assert_eq!(s.done, vec!["任务"]);
    assert_eq!(st.done.get(&"s1".to_string()).unwrap().at, 2_000);
}

#[test]
fn done_expires_after_window() {
    let mut st = EngineState::default();
    st.apply_session_list(&vec![item("s1", Some("任务"), Some(true))], 1_000);
    st.apply_session_list(&vec![item("s1", Some("任务"), Some(false))], 2_000);
    let s = st.apply_session_list(&vec![item("s1", Some("任务"), Some(false))], 2_000 + 120_000);
    assert_eq!(s.state, "done");
    let s = st.apply_session_list(&vec![item("s1", Some("任务"), Some(false))], 2_001 + 120_000);
    assert_eq!(s.state, "turn-idle");
    assert!(st.done.is_empty());
}

#[test]
fn vanished_sessions_are_dropped() {
    let mut st = EngineState::default();
    st.apply_session_list(&vec![item("s1", Some("a"), None), item("s2", Some("b"), None)], 1_000);
    st.apply_session_list(&vec![item("s2", Some("b"), None)], 1_500);
    assert_eq!(st.sessions.len(), 1);
    assert!(!st.sessions.contains_key(&"s1".to_string()));
    assert_eq!(st.sessions.key_at(0), "s2");
}

#[test]
fn approval_lines_name_the_session() {
    let mut st = EngineState::default();
    st.apply_session_list(&vec![item("s1", Some("重构"), Some(true))], 1_000);
    let s = st.handle_frame(&approval("a1", "s1", "bash"), 1_100).unwrap();
    assert_eq!(s.state, "attention");
    assert_eq!(s.attention, vec!["「重构」请求使用 bash"]);
    let s = st.handle_frame(&approval("a2", "zz", "edit"), 1_200).unwrap();
    assert_eq!(s.attention, vec!["「重构」请求使用 bash", "「某会话」请求使用 edit"]);
}

#[test]
fn question_lines_follow_approvals() {
    let mut st = connected();
    st.handle_frame(&question("q1", "s9", "继续吗？"), 1_000);
    let s = st.handle_frame(&approval("a1", "s9", "bash"), 1_000).unwrap();
    assert_eq!(s.attention, vec!["「某会话」请求使用 bash", "「某会话」：继续吗？"]);
}

#[test]
fn question_without_text_is_empty() {
    let mut st = connected();
    let mut f = frame("question/requested");
    f.question_rpc_id = Some("q1".to_string());
    f.questions = Some(vec![]);
    let s = st.handle_frame(&f, 1_000).unwrap();
    assert_eq!(s.attention, vec!["「某会话」："]);
}

#[test]
fn resolving_removes_pending_items() {
    let mut st = connected();
    st.handle_frame(&approval("a1", "s1", "bash"), 1_000);
    st.handle_frame(&question("q1", "s1", "?"), 1_000);
    let mut r = frame("approval/resolved");
    r.approval_id = Some("a1".to_string());
    st.handle_frame(&r, 1_000);
    let mut q = frame("question/resolved");
    q.question_rpc_id = Some("q1".to_string());
    let s = st.handle_frame(&q, 1_000).unwrap();
    assert_eq!(s.state, "idle");
    assert!(st.pending_approvals.is_empty() && st.pending_questions.is_empty());
}

#[test]
fn pending_items_expire_after_ttl() {
    let mut st = connected();
    st.handle_frame(&approval("a1", "s1", "bash"), 1_000);
    let s = st.emit(1_000 + PENDING_TTL_MS);
    assert_eq!(s.state, "attention");
    let s = st.emit(1_001 + PENDING_TTL_MS);
    assert_eq!(s.state, "idle");
}

#[test]
fn queue_frame_sets_count() {
    let mut st = connected();
    let mut f = frame("session/queue");
    f.item_count = Some(4);
    assert!(st.handle_frame(&f, 1_000).is_some());
    assert_eq!(st.queued_count, 4);
    let f = frame("session/queue");
    st.handle_frame(&f, 1_000);
    assert_eq!(st.queued_count, 0);
}

#[test]
fn other_frames_change_nothing() {
    let mut st = connected();
    assert!(st.handle_frame(&frame("session/event"), 1_000).is_none());
    assert!(st.handle_frame(&frame("whatever"), 1_000).is_none());
    assert!(st.handle_host_frame(&frame("approval/requested"), 1_000).is_none());
}

#[test]
fn host_status_flips_running_and_marks_done() {
    let mut st = EngineState::default();
    st.apply_session_list(&vec![item("s1", Some("编译"), Some(false))], 1_000);
    let (s, refresh) = st.handle_host_frame(&host("s1", true), 1_100).unwrap();
    assert!(!refresh);
    assert_eq!(s.state, "working");
    st.handle_frame(&approval("a1", "s1", "bash"), 1_150);
    st.handle_frame(&approval("a2", "s2", "bash"), 1_150);
    let (s, _) = st.handle_host_frame(&host("s1", false), 1_200).unwrap();
    assert_eq!(s.done, vec!["编译"]);
    assert_eq!(st.pending_approvals.len(), 1);
    assert_eq!(st.pending_approvals.key_at(0), "a2");
    assert_eq!(s.state, "attention");
}

#[test]
fn host_status_of_unknown_session_asks_for_refresh() {
    let mut st = connected();
    let (s, refresh) = st.handle_host_frame(&host("new", true), 1_000).unwrap();
    assert!(refresh);
    assert_eq!(s.state, "idle");
    assert!(st.sessions.is_empty());
}

#[test]
fn undiscovered_is_offline_with_message() {
    let mut st = connected();
    let s = st.mark_undiscovered(5_000);
    assert_eq!(s.state, "offline");
    assert_eq!(st.last_error.as_deref(), Some("未发现 DSH，10 秒后重试"));
}

#[test]
fn clear_pending_drops_everything_pending() {
    let mut st = connected();
    st.handle_frame(&approval("a1", "s1", "bash"), 1_000);
    st.handle_frame(&question("q1", "s1", "?"), 1_000);
    st.clear_pending();
    assert!(st.pending_approvals.is_empty() && st.pending_questions.is_empty());
}

#[test]
fn emit_twice_gives_same_snapshot() {
    let mut st = EngineState::default();
    st.apply_session_list(&vec![item("s1", Some("x"), Some(true))], 1_000);
    st.handle_frame(&approval("a1", "s1", "t"), 1_000);
    let a = st.emit(5_000);
    let b = st.emit(5_000);
    assert_eq!(a.state, b.state);
    assert_eq!(a.attention, b.attention);
    assert_eq!(a.running, b.running);
}

#[test]
fn frames_are_read_from_json() {
    let v = parse(
        r#"{"type":"question/requested","questionRpcId":"q1","sessionId":"s1","questions":[{"question":"ok?"},{"x":1},"bad"],"items":[1,2,3],"running":true,"toolName":7}"#,
    );
    let f = EventFrame::from_json(&v);
    assert_eq!(f.kind.as_deref(), Some("question/requested"));
    assert_eq!(f.question_rpc_id.as_deref(), Some("q1"));
    assert_eq!(f.session_id.as_deref(), Some("s1"));
    assert_eq!(f.tool_name, None);
    assert_eq!(f.questions, Some(vec![Some("ok?".to_string()), None, None]));
    assert_eq!(f.item_count, Some(3));
    assert_eq!(f.running, Some(true));
    let f = EventFrame::from_json(&parse("[1]"));
    assert_eq!(f.kind, None);
    assert_eq!(f.questions, None);
    assert_eq!(f.item_count, None);
}

#[test]
fn session_list_is_read_from_json() {
    let v = parse(
        r#"{"items":[{"sessionId":"a","projections":{"values":{"title":"T"}},"running":true},{"sessionId":"b"}]}"#,
    );
    let items = dsh_pet::engine::session_items(&v);
    assert_eq!(items.len(), 2);
    assert_eq!(items[0].session_id.as_deref(), Some("a"));
    assert_eq!(items[0].title.as_deref(), Some("T"));
    assert_eq!(items[0].running, Some(true));
    assert_eq!(items[1].title, None);
    assert_eq!(items[1].running, None);
    let none = dsh_pet::engine::session_items(&parse(r#"{"items":3}"#));
    assert!(none.is_empty());
}

/// Parses JSON text the way event lines are decoded (a text without a `payload` member
/// decodes to itself).
fn parse(text: &str) -> dsh_pet::json::JsonValue {
    dsh_pet::sse::decode_events(vec![text.to_string()]).pop().unwrap()
}
