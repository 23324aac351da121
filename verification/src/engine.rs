//! The DSH state engine: sessions, pending approvals and questions, finished sessions,
//! and the five-mode snapshot derived from them.
use vstd::prelude::*;
use vstd::string::*;

use crate::json::{
    as_flag, as_items, as_text, field, field_in, field_of, field_opt, flag_of, json_views, lemma_array_view,
    text_of as json_text,
    JsonValue, JsonView,
};
use crate::registry::{keys_distinct, lookup, with_entry, without_key, Registry};
use crate::text::{contains_string, is_text, opt_text, strings_view};

verus! {

/// How long a finished session stays in "done, waiting to be looked at", in milliseconds.
pub const DONE_WINDOW_MS: i64 = 120_000;

/// How long a pending approval or question is kept before it expires, in milliseconds.
pub const PENDING_TTL_MS: i64 = 1_800_000;

/// How many failed polls in a row count as losing the DSH.
pub const MAX_POLL_FAILURES: u32 = 3;

// ---------------------------------------------------------------------------
// Data
// ---------------------------------------------------------------------------

/// One session as the DSH lists it.
pub struct SessionInfo {
    pub title: String,
    pub running: bool,
}

pub struct SessionView {
    pub title: Seq<char>,
    pub running: bool,
}

impl DeepView for SessionInfo {
    type V = SessionView;

    open spec fn deep_view(&self) -> SessionView {
        SessionView { title: self.title@, running: self.running }
    }
}

/// A tool use that waits for the user's approval.
pub struct PendingApproval {
    pub session_id: String,
    pub tool_name: String,
    pub requested_at: i64,
}

pub struct ApprovalView {
    pub session_id: Seq<char>,
    pub tool_name: Seq<char>,
    pub requested_at: i64,
}

impl DeepView for PendingApproval {
    type V = ApprovalView;

    open spec fn deep_view(&self) -> ApprovalView {
        ApprovalView {
            session_id: self.session_id@,
            tool_name: self.tool_name@,
            requested_at: self.requested_at,
        }
    }
}

/// A question that waits for the user's answer.
pub struct PendingQuestion {
    pub session_id: String,
    pub text: String,
    pub requested_at: i64,
}

pub struct QuestionView {
    pub session_id: Seq<char>,
    pub text: Seq<char>,
    pub requested_at: i64,
}

impl DeepView for PendingQuestion {
    type V = QuestionView;

    open spec fn deep_view(&self) -> QuestionView {
        QuestionView {
            session_id: self.session_id@,
            text: self.text@,
            requested_at: self.requested_at,
        }
    }
}

/// A session that finished running and has not been looked at yet.
pub struct DoneItem {
    pub title: String,
    pub at: i64,
}

pub struct DoneView {
    pub title: Seq<char>,
    pub at: i64,
}

impl DeepView for DoneItem {
    type V = DoneView;

    open spec fn deep_view(&self) -> DoneView {
        DoneView { title: self.title@, at: self.at }
    }
}

/// The engine's shared state.
pub struct EngineState {
    pub last_emitted_mode: Option<String>,
    pub connected: bool,
    pub last_error: Option<String>,
    pub sessions: Registry<SessionInfo>,
    pub pending_approvals: Registry<PendingApproval>,
    pub pending_questions: Registry<PendingQuestion>,
    pub done: Registry<DoneItem>,
    pub queued_count: usize,
}

pub struct EngineView {
    pub last_emitted_mode: Option<Seq<char>>,
    pub connected: bool,
    pub last_error: Option<Seq<char>>,
    pub sessions: Seq<(Seq<char>, SessionView)>,
    pub approvals: Seq<(Seq<char>, ApprovalView)>,
    pub questions: Seq<(Seq<char>, QuestionView)>,
    pub done: Seq<(Seq<char>, DoneView)>,
    pub queued_count: usize,
}

/// The characters of an optional text, or nothing.
pub open spec fn text_or_empty(o: Option<Seq<char>>) -> Seq<char> {
    match o {
        Some(s) => s,
        None => Seq::empty(),
    }
}

impl View for EngineState {
    type V = EngineView;

    open spec fn view(&self) -> EngineView {
        EngineView {
            last_emitted_mode: opt_text(self.last_emitted_mode),
            connected: self.connected,
            last_error: opt_text(self.last_error),
            sessions: self.sessions@,
            approvals: self.pending_approvals@,
            questions: self.pending_questions@,
            done: self.done@,
            queued_count: self.queued_count,
        }
    }
}

/// The snapshot sent to the front end: the mode and three lists of titles.
pub struct Snapshot {
    pub state: String,
    pub attention: Vec<String>,
    pub running: Vec<String>,
    pub done: Vec<String>,
}

pub struct SnapshotView {
    pub state: Seq<char>,
    pub attention: Seq<Seq<char>>,
    pub running: Seq<Seq<char>>,
    pub done: Seq<Seq<char>>,
}

impl View for Snapshot {
    type V = SnapshotView;

    open spec fn view(&self) -> SnapshotView {
        SnapshotView {
            state: self.state@,
            attention: strings_view(self.attention@),
            running: strings_view(self.running@),
            done: strings_view(self.done@),
        }
    }
}

/// The state every registry of the engine keeps: no key twice.
pub open spec fn engine_wf(st: EngineView) -> bool {
    &&& keys_distinct(st.sessions)
    &&& keys_distinct(st.approvals)
    &&& keys_distinct(st.questions)
    &&& keys_distinct(st.done)
}

/// A fresh engine state: offline, with nothing recorded.
pub open spec fn initial_engine() -> EngineView {
    EngineView {
        last_emitted_mode: None,
        connected: false,
        last_error: None,
        sessions: Seq::empty(),
        approvals: Seq::empty(),
        questions: Seq::empty(),
        done: Seq::empty(),
        queued_count: 0,
    }
}

impl Default for EngineState {
    fn default() -> (st: Self)
        ensures
            st@ == initial_engine(),
    {
        EngineState {
            last_emitted_mode: None,
            connected: false,
            last_error: None,
            sessions: Registry::new(),
            pending_approvals: Registry::new(),
            pending_questions: Registry::new(),
            done: Registry::new(),
            queued_count: 0,
        }
    }
}

// ---------------------------------------------------------------------------
// The snapshot
// ---------------------------------------------------------------------------

/// The title shown for a session id: its listed title, or a placeholder.
pub open spec fn session_title_of(sessions: Seq<(Seq<char>, SessionView)>, id: Seq<char>) -> Seq<
    char,
> {
    match lookup(sessions, id) {
        Some(s) => s.title,
        None => "某会话"@,
    }
}

/// The attention line for a pending approval.
pub open spec fn approval_line(sessions: Seq<(Seq<char>, SessionView)>, a: ApprovalView) -> Seq<
    char,
> {
    "「"@ + session_title_of(sessions, a.session_id) + "」请求使用 "@ + a.tool_name
}

/// The attention line for a pending question.
pub open spec fn question_line(sessions: Seq<(Seq<char>, SessionView)>, q: QuestionView) -> Seq<
    char,
> {
    "「"@ + session_title_of(sessions, q.session_id) + "」："@ + q.text
}

pub open spec fn approval_line_fn(sessions: Seq<(Seq<char>, SessionView)>) -> spec_fn(
    (Seq<char>, ApprovalView),
) -> Seq<char> {
    |e: (Seq<char>, ApprovalView)| approval_line(sessions, e.1)
}

pub open spec fn question_line_fn(sessions: Seq<(Seq<char>, SessionView)>) -> spec_fn(
    (Seq<char>, QuestionView),
) -> Seq<char> {
    |e: (Seq<char>, QuestionView)| question_line(sessions, e.1)
}

/// The title of a session entry if it is running.
pub open spec fn running_title_fn() -> spec_fn((Seq<char>, SessionView)) -> Option<Seq<char>> {
    |e: (Seq<char>, SessionView)|
        if e.1.running {
            Some(e.1.title)
        } else {
            None
        }
}

pub open spec fn done_title_fn() -> spec_fn((Seq<char>, DoneView)) -> Seq<char> {
    |e: (Seq<char>, DoneView)| e.1.title
}

/// Attention lines: every pending approval, then every pending question, in order.
pub open spec fn attention_of(st: EngineView) -> Seq<Seq<char>> {
    st.approvals.map_values(approval_line_fn(st.sessions)) + st.questions.map_values(
        question_line_fn(st.sessions),
    )
}

/// Titles of the running sessions, in order.
pub open spec fn running_of(st: EngineView) -> Seq<Seq<char>> {
    st.sessions.filter_map(running_title_fn())
}

/// Titles of the finished sessions, in order.
pub open spec fn done_of(st: EngineView) -> Seq<Seq<char>> {
    st.done.map_values(done_title_fn())
}

/// The mode, by priority: offline, error, attention, working, done, turn-idle, idle.
pub open spec fn mode_of(st: EngineView) -> Seq<char> {
    if !st.connected {
        "offline"@
    } else if st.last_error is Some {
        "error"@
    } else if attention_of(st).len() > 0 {
        "attention"@
    } else if running_of(st).len() > 0 {
        "working"@
    } else if done_of(st).len() > 0 {
        "done"@
    } else if st.sessions.len() > 0 {
        "turn-idle"@
    } else {
        "idle"@
    }
}

/// The snapshot of a state.
pub open spec fn snapshot_of(st: EngineView) -> SnapshotView {
    SnapshotView {
        state: mode_of(st),
        attention: attention_of(st),
        running: running_of(st),
        done: done_of(st),
    }
}

/// Builds a string made of an opening bracket, a title, a separator and a tail.
fn bracketed_line(title: String, sep: &str, tail: &String) -> (r: String)
    ensures
        r@ == "「"@ + title@ + sep@ + tail@,
{
    let mut r = String::from_str("「");
    r.append(title.as_str());
    r.append(sep);
    r.append(tail.as_str());
    r
}

/// The title shown for `id`: the session's title, or a placeholder for an unknown session.
fn session_title(state: &EngineState, id: &String) -> (t: String)
    ensures
        t@ == session_title_of(state@.sessions, id@),
{
    match state.sessions.get(id) {
        Some(s) => s.title.clone(),
        None => String::from_str("某会话"),
    }
}

/// Derives the five-mode snapshot (offline > error > attention > working > done >
/// turn-idle > idle) with its attention, running and done lists.
pub fn build_snapshot(state: &EngineState) -> (snap: Snapshot)
    ensures
        snap@ == snapshot_of(state@),
{
    let ghost st = state@;
    // Running sessions.
    let mut running: Vec<String> = Vec::new();
    let n = state.sessions.len();
    let mut i: usize = 0;
    while i < n
        invariant
            st == state@,
            n == st.sessions.len(),
            i <= n,
            strings_view(running@) == st.sessions.take(i as int).filter_map(running_title_fn()),
        decreases n - i,
    {
        let s = state.sessions.value_at(i);
        proof {
            st.sessions.lemma_filter_map_take_succ(running_title_fn(), i as int);
        }
        if s.running {
            running.push(s.title.clone());
        }
        assert(strings_view(running@) =~= st.sessions.take(i + 1).filter_map(running_title_fn()));
        i = i + 1;
    }
    assert(st.sessions.take(n as int) =~= st.sessions);

    // Attention lines: approvals first, then questions.
    let mut attention: Vec<String> = Vec::new();
    let na = state.pending_approvals.len();
    let mut j: usize = 0;
    while j < na
        invariant
            st == state@,
            na == st.approvals.len(),
            j <= na,
            strings_view(attention@) == st.approvals.take(j as int).map_values(
                approval_line_fn(st.sessions),
            ),
        decreases na - j,
    {
        let a = state.pending_approvals.value_at(j);
        let title = session_title(state, &a.session_id);
        let line = bracketed_line(title, "」请求使用 ", &a.tool_name);
        assert(line@ == approval_line(st.sessions, st.approvals[j as int].1));
        let ghost before = strings_view(attention@);
        let ghost line_v = line@;
        attention.push(line);
        assert(strings_view(attention@) =~= before.push(line_v));
        assert(st.approvals.take(j + 1).map_values(approval_line_fn(st.sessions)) =~= st.approvals.take(
            j as int,
        ).map_values(approval_line_fn(st.sessions)).push(line_v));
        assert(strings_view(attention@) =~= st.approvals.take(j + 1).map_values(
            approval_line_fn(st.sessions),
        ));
        j = j + 1;
    }
    assert(st.approvals.take(na as int) =~= st.approvals);
    let nq = state.pending_questions.len();
    let mut k: usize = 0;
    while k < nq
        invariant
            st == state@,
            nq == st.questions.len(),
            k <= nq,
            strings_view(attention@) == st.approvals.map_values(approval_line_fn(st.sessions))
                + st.questions.take(k as int).map_values(question_line_fn(st.sessions)),
        decreases nq - k,
    {
        let q = state.pending_questions.value_at(k);
        let title = session_title(state, &q.session_id);
        let line = bracketed_line(title, "」：", &q.text);
        assert(line@ == question_line(st.sessions, st.questions[k as int].1));
        let ghost before = strings_view(attention@);
        let ghost line_v = line@;
        attention.push(line);
        assert(strings_view(attention@) =~= before.push(line_v));
        assert(st.questions.take(k + 1).map_values(question_line_fn(st.sessions)) =~= st.questions.take(
            k as int,
        ).map_values(question_line_fn(st.sessions)).push(line_v));
        assert(strings_view(attention@) =~= st.approvals.map_values(approval_line_fn(st.sessions))
            + st.questions.take(k + 1).map_values(question_line_fn(st.sessions)));
        k = k + 1;
    }
    assert(st.questions.take(nq as int) =~= st.questions);

    // Finished sessions.
    let mut done: Vec<String> = Vec::new();
    let nd = state.done.len();
    let mut m: usize = 0;
    while m < nd
        invariant
            st == state@,
            nd == st.done.len(),
            m <= nd,
            strings_view(done@) == st.done.take(m as int).map_values(done_title_fn()),
        decreases nd - m,
    {
        let d = state.done.value_at(m);
        assert(d.title@ == st.done[m as int].1.title);
        let ghost before = strings_view(done@);
        done.push(d.title.clone());
        assert(strings_view(done@) =~= before.push(st.done[m as int].1.title));
        assert(strings_view(done@) =~= st.done.take(m + 1).map_values(done_title_fn()));
        m = m + 1;
    }
    assert(st.done.take(nd as int) =~= st.done);

    let mode = if !state.connected {
        "offline"
    } else if state.last_error.is_some() {
        "error"
    } else if attention.len() > 0 {
        "attention"
    } else if running.len() > 0 {
        "working"
    } else if done.len() > 0 {
        "done"
    } else if !state.sessions.is_empty() {
        "turn-idle"
    } else {
        "idle"
    };
    Snapshot { state: String::from_str(mode), attention, running, done }
}


// ---------------------------------------------------------------------------
// Emitting: expiring pending items, then deriving the snapshot
// ---------------------------------------------------------------------------

/// A pending approval is still fresh at `now`.
pub open spec fn approval_fresh_fn(now: i64) -> spec_fn((Seq<char>, ApprovalView)) -> bool {
    |e: (Seq<char>, ApprovalView)| now - e.1.requested_at <= PENDING_TTL_MS
}

/// A pending question is still fresh at `now`.
pub open spec fn question_fresh_fn(now: i64) -> spec_fn((Seq<char>, QuestionView)) -> bool {
    |e: (Seq<char>, QuestionView)| now - e.1.requested_at <= PENDING_TTL_MS
}

/// The state with expired approvals and questions dropped.
pub open spec fn pruned(st: EngineView, now: i64) -> EngineView {
    EngineView {
        approvals: st.approvals.filter(approval_fresh_fn(now)),
        questions: st.questions.filter(question_fresh_fn(now)),
        ..st
    }
}

/// The state after an emit at `now`: pruned, and remembering the mode it emitted.
pub open spec fn emitted(st: EngineView, now: i64) -> EngineView {
    let p = pruned(st, now);
    EngineView { last_emitted_mode: Some(mode_of(p)), ..p }
}

/// Whether an item stamped `at` is still within the pending time-to-live at `now`.
fn within_ttl(now: i64, at: i64) -> (b: bool)
    ensures
        b == (now - at <= PENDING_TTL_MS),
{
    (now as i128) - (at as i128) <= (PENDING_TTL_MS as i128)
}

/// The text of an optional string, or the empty string.
fn text_of(o: &Option<String>) -> (r: String)
    ensures
        r@ == text_or_empty(opt_text(*o)),
{
    match o {
        Some(s) => s.clone(),
        None => String::new(),
    }
}

impl EngineState {
    /// Drops approvals and questions older than the time-to-live, derives the snapshot and
    /// remembers its mode; the caller hands the snapshot on.
    pub fn emit(&mut self, now: i64) -> (snap: Snapshot)
        ensures
            final(self)@ == emitted(old(self)@, now),
            snap@ == snapshot_of(pruned(old(self)@, now)),
    {
        let fresh_approval = |_k: &String, a: &PendingApproval| -> (b: bool)
            ensures
                b == (now - a.requested_at <= PENDING_TTL_MS),
            { within_ttl(now, a.requested_at) };
        self.pending_approvals.retain(fresh_approval, Ghost(approval_fresh_fn(now)));
        let fresh_question = |_k: &String, q: &PendingQuestion| -> (b: bool)
            ensures
                b == (now - q.requested_at <= PENDING_TTL_MS),
            { within_ttl(now, q.requested_at) };
        self.pending_questions.retain(fresh_question, Ghost(question_fresh_fn(now)));
        let snap = build_snapshot(self);
        self.last_emitted_mode = Some(snap.state.clone());
        snap
    }
}

// ---------------------------------------------------------------------------
// Polling the session list
// ---------------------------------------------------------------------------

/// One item of a `session.list` reply, as read from the wire: each field is absent when
/// the reply lacks it or holds a value of another kind.
pub struct SessionItem {
    pub session_id: Option<String>,
    pub title: Option<String>,
    pub running: Option<bool>,
}

pub struct ItemView {
    pub session_id: Option<Seq<char>>,
    pub title: Option<Seq<char>>,
    pub running: Option<bool>,
}

impl View for SessionItem {
    type V = ItemView;

    open spec fn view(&self) -> ItemView {
        ItemView {
            session_id: opt_text(self.session_id),
            title: opt_text(self.title),
            running: self.running,
        }
    }
}

pub open spec fn items_view(v: Seq<SessionItem>) -> Seq<ItemView> {
    v.map_values(|i: SessionItem| i@)
}

/// The session id of an item, empty when absent.
pub open spec fn item_id(i: ItemView) -> Seq<char> {
    text_or_empty(i.session_id)
}

pub open spec fn item_id_fn() -> spec_fn(ItemView) -> Seq<char> {
    |i: ItemView| item_id(i)
}

/// The title of an item, with a placeholder when absent.
pub open spec fn item_title(i: ItemView) -> Seq<char> {
    match i.title {
        Some(t) => t,
        None => "未命名会话"@,
    }
}

/// Whether an item is running; absent means not running.
pub open spec fn item_running(i: ItemView) -> bool {
    match i.running {
        Some(b) => b,
        None => false,
    }
}

/// What the engine reads of one item of a `session.list` reply: `sessionId`,
/// `projections.values.title` and `running`, each when present and of the right kind.
pub open spec fn item_of_json(s: JsonView) -> ItemView {
    ItemView {
        session_id: as_text(field_of(s, "sessionId"@)),
        title: as_text(field_in(field_in(field_of(s, "projections"@), "values"@), "title"@)),
        running: as_flag(field_of(s, "running"@)),
    }
}

pub open spec fn item_of_json_fn() -> spec_fn(JsonView) -> ItemView {
    |s: JsonView| item_of_json(s)
}

/// The items of a `session.list` result: its `items` array read item by item, or none when
/// there is no such array.
pub open spec fn items_of_json(result: JsonView) -> Seq<ItemView> {
    match as_items(field_of(result, "items"@)) {
        Some(a) => a.map_values(item_of_json_fn()),
        None => Seq::empty(),
    }
}

impl SessionItem {
    /// Reads one item of a `session.list` reply (see `item_of_json`).
    pub fn from_json(s: &JsonValue) -> (r: SessionItem)
        ensures
            r@ == item_of_json(s@),
    {
        let projections = field(s, "projections");
        let values = field_opt(projections, "values");
        SessionItem {
            session_id: json_text(field(s, "sessionId")),
            title: json_text(field_opt(values, "title")),
            running: flag_of(field(s, "running")),
        }
    }
}

/// The items of a `session.list` result (see `items_of_json`).
pub fn session_items(result: &JsonValue) -> (r: Vec<SessionItem>)
    ensures
        items_view(r@) == items_of_json(result@),
{
    let mut out: Vec<SessionItem> = Vec::new();
    match field(result, "items") {
        Some(JsonValue::Array(a)) => {
            proof {
                lemma_array_view(a);
            }
            let ghost av = json_views(a@);
            let n = a.len();
            let mut i: usize = 0;
            while i < n
                invariant
                    n == a@.len(),
                    av.len() == n,
                    av == json_views(a@),
                    forall|j: int| 0 <= j < n ==> #[trigger] av[j] == a@[j]@,
                    items_view(out@) == av.take(i as int).map_values(item_of_json_fn()),
                    i <= n,
                decreases n - i,
            {
                let it = SessionItem::from_json(&a[i]);
                let ghost before = items_view(out@);
                let ghost iv = it@;
                out.push(it);
                assert(items_view(out@) =~= before.push(iv));
                assert(av.take(i + 1).map_values(item_of_json_fn()) =~= av.take(i as int).map_values(
                    item_of_json_fn(),
                ).push(item_of_json_fn()(av[i as int])));
                i = i + 1;
            }
            assert(av.take(n as int) =~= av);
        },
        _ => {
            assert(items_view(out@) =~= Seq::<ItemView>::empty());
        },
    }
    out
}

/// Records one listed item: the session takes the item's title and running flag, and a
/// session that was running and is no longer becomes "done" at `now`.
pub open spec fn observe_item(
    sessions: Seq<(Seq<char>, SessionView)>,
    done: Seq<(Seq<char>, DoneView)>,
    item: ItemView,
    now: i64,
) -> (Seq<(Seq<char>, SessionView)>, Seq<(Seq<char>, DoneView)>) {
    let id = item_id(item);
    let title = item_title(item);
    let running = item_running(item);
    let was_running = match lookup(sessions, id) {
        Some(p) => p.running,
        None => false,
    };
    let sessions2 = with_entry(sessions, id, SessionView { title, running });
    let done2 = if was_running && !running {
        with_entry(done, id, DoneView { title, at: now })
    } else {
        done
    };
    (sessions2, done2)
}

/// Records the listed items one after the other.
pub open spec fn observe_items(
    sessions: Seq<(Seq<char>, SessionView)>,
    done: Seq<(Seq<char>, DoneView)>,
    items: Seq<ItemView>,
    now: i64,
) -> (Seq<(Seq<char>, SessionView)>, Seq<(Seq<char>, DoneView)>)
    decreases items.len(),
{
    if items.len() == 0 {
        (sessions, done)
    } else {
        let (s, d) = observe_items(sessions, done, items.drop_last(), now);
        observe_item(s, d, items.last(), now)
    }
}

/// A session entry whose id is among `ids`.
pub open spec fn listed_fn(ids: Seq<Seq<char>>) -> spec_fn((Seq<char>, SessionView)) -> bool {
    |e: (Seq<char>, SessionView)| ids.contains(e.0)
}

/// A finished session still inside the done window at `now`.
pub open spec fn done_recent_fn(now: i64) -> spec_fn((Seq<char>, DoneView)) -> bool {
    |e: (Seq<char>, DoneView)| now - e.1.at <= DONE_WINDOW_MS
}

/// The state after a successful `session.list` at `now` (before emitting): connected, no
/// error, the listed sessions recorded, sessions no longer listed dropped, and finished
/// sessions older than the done window dropped.
pub open spec fn after_listing(st: EngineView, items: Seq<ItemView>, now: i64) -> EngineView {
    let (s, d) = observe_items(st.sessions, st.done, items, now);
    EngineView {
        connected: true,
        last_error: None,
        sessions: s.filter(listed_fn(items.map_values(item_id_fn()))),
        done: d.filter(done_recent_fn(now)),
        ..st
    }
}

/// The state after a failed `session.list` (before emitting): offline, with the error.
pub open spec fn after_poll_failure(st: EngineView, err: Seq<char>) -> EngineView {
    EngineView { connected: false, last_error: Some(err), ..st }
}

/// Whether a finished session stamped `at` is still inside the done window at `now`.
fn within_done_window(now: i64, at: i64) -> (b: bool)
    ensures
        b == (now - at <= DONE_WINDOW_MS),
{
    (now as i128) - (at as i128) <= (DONE_WINDOW_MS as i128)
}

impl EngineState {
    /// Records the items of a successful `session.list` reply at `now`, then emits.
    pub fn apply_session_list(&mut self, items: &Vec<SessionItem>, now: i64) -> (snap: Snapshot)
        ensures
            final(self)@ == emitted(after_listing(old(self)@, items_view(items@), now), now),
            snap@ == snapshot_of(pruned(after_listing(old(self)@, items_view(items@), now), now)),
    {
        let ghost st0 = self@;
        let ghost iv = items_view(items@);
        self.connected = true;
        self.last_error = None;
        let mut seen: Vec<String> = Vec::new();
        let n = items.len();
        let mut i: usize = 0;
        while i < n
            invariant
                iv == items_view(items@),
                n == iv.len(),
                i <= n,
                (self.sessions@, self.done@) == observe_items(
                    st0.sessions,
                    st0.done,
                    iv.take(i as int),
                    now,
                ),
                strings_view(seen@) == iv.take(i as int).map_values(item_id_fn()),
                self.connected,
                self.last_error is None,
                self@.approvals == st0.approvals,
                self@.questions == st0.questions,
                self@.queued_count == st0.queued_count,
                self@.last_emitted_mode == st0.last_emitted_mode,
            decreases n - i,
        {
            let item = &items[i];
            let ghost it = iv[i as int];
            assert(it == item@);
            let id = text_of(&item.session_id);
            let title = match &item.title {
                Some(t) => t.clone(),
                None => String::from_str("未命名会话"),
            };
            let running = match item.running {
                Some(b) => b,
                None => false,
            };
            let was_running = match self.sessions.get(&id) {
                Some(p) => p.running,
                None => false,
            };
            let ghost before_seen = strings_view(seen@);
            seen.push(id.clone());
            assert(strings_view(seen@) =~= before_seen.push(id@));
            assert(iv.take(i + 1).map_values(item_id_fn()) =~= iv.take(i as int).map_values(
                item_id_fn(),
            ).push(item_id(it)));
            self.sessions.insert(id.clone(), SessionInfo { title: title.clone(), running });
            if was_running && !running {
                self.done.insert(id, DoneItem { title, at: now });
            }
            assert(iv.take(i + 1).drop_last() =~= iv.take(i as int));
            assert(iv.take(i + 1).last() == it);
            i = i + 1;
        }
        assert(iv.take(n as int) =~= iv);
        let listed = |k: &String, _v: &SessionInfo| -> (b: bool)
            ensures
                b == strings_view(seen@).contains(k@),
            { contains_string(&seen, k) };
        self.sessions.retain(listed, Ghost(listed_fn(iv.map_values(item_id_fn()))));
        let recent = |_k: &String, d: &DoneItem| -> (b: bool)
            ensures
                b == (now - d.at <= DONE_WINDOW_MS),
            { within_done_window(now, d.at) };
        self.done.retain(recent, Ghost(done_recent_fn(now)));
        assert(self@ == after_listing(st0, iv, now));
        self.emit(now)
    }

    /// Records a failed `session.list` (offline, with the error), then emits.
    pub fn record_poll_failure(&mut self, err: String, now: i64) -> (snap: Snapshot)
        ensures
            final(self)@ == emitted(after_poll_failure(old(self)@, err@), now),
            snap@ == snapshot_of(pruned(after_poll_failure(old(self)@, err@), now)),
    {
        self.connected = false;
        self.last_error = Some(err);
        self.emit(now)
    }
}

// ---------------------------------------------------------------------------
// Event frames
// ---------------------------------------------------------------------------

/// The fields of an event frame that the engine reads, as read from the wire: each is
/// absent when the frame lacks it or holds a value of another kind.
pub struct EventFrame {
    /// `type`
    pub kind: Option<String>,
    /// `approvalId`
    pub approval_id: Option<String>,
    /// `sessionId`
    pub session_id: Option<String>,
    /// `toolName`
    pub tool_name: Option<String>,
    /// `questionRpcId`
    pub question_rpc_id: Option<String>,
    /// The `question` text of each element of the `questions` array.
    pub questions: Option<Vec<Option<String>>>,
    /// The length of the `items` array.
    pub item_count: Option<usize>,
    /// `running`
    pub running: Option<bool>,
}

pub struct FrameView {
    pub kind: Option<Seq<char>>,
    pub approval_id: Option<Seq<char>>,
    pub session_id: Option<Seq<char>>,
    pub tool_name: Option<Seq<char>>,
    pub question_rpc_id: Option<Seq<char>>,
    pub questions: Option<Seq<Option<Seq<char>>>>,
    pub item_count: Option<usize>,
    pub running: Option<bool>,
}

impl View for EventFrame {
    type V = FrameView;

    open spec fn view(&self) -> FrameView {
        FrameView {
            kind: opt_text(self.kind),
            approval_id: opt_text(self.approval_id),
            session_id: opt_text(self.session_id),
            tool_name: opt_text(self.tool_name),
            question_rpc_id: opt_text(self.question_rpc_id),
            questions: match self.questions {
                Some(v) => Some(v@.map_values(|o: Option<String>| opt_text(o))),
                None => None,
            },
            item_count: self.item_count,
            running: self.running,
        }
    }
}

/// The question text of each element of a `questions` array.
pub open spec fn question_text_fn() -> spec_fn(JsonView) -> Option<Seq<char>> {
    |q: JsonView| as_text(field_of(q, "question"@))
}

/// What the engine reads of a decoded event: each field when present and of the right kind.
pub open spec fn frame_of_json(v: JsonView) -> FrameView {
    FrameView {
        kind: as_text(field_of(v, "type"@)),
        approval_id: as_text(field_of(v, "approvalId"@)),
        session_id: as_text(field_of(v, "sessionId"@)),
        tool_name: as_text(field_of(v, "toolName"@)),
        question_rpc_id: as_text(field_of(v, "questionRpcId"@)),
        questions: match as_items(field_of(v, "questions"@)) {
            Some(a) => Some(a.map_values(question_text_fn())),
            None => None,
        },
        item_count: match as_items(field_of(v, "items"@)) {
            Some(a) => Some(a.len() as usize),
            None => None,
        },
        running: as_flag(field_of(v, "running"@)),
    }
}

/// The question text of each element of a `questions` array.
fn question_texts(a: &Vec<JsonValue>) -> (r: Vec<Option<String>>)
    ensures
        r@.map_values(|o: Option<String>| opt_text(o)) == json_views(a@).map_values(
            question_text_fn(),
        ),
{
    proof {
        lemma_array_view(a);
    }
    let ghost av = json_views(a@);
    let mut out: Vec<Option<String>> = Vec::new();
    let n = a.len();
    let mut i: usize = 0;
    while i < n
        invariant
            n == a@.len(),
            av.len() == n,
            av == json_views(a@),
            forall|j: int| 0 <= j < n ==> #[trigger] av[j] == a@[j]@,
            out@.map_values(|o: Option<String>| opt_text(o)) == av.take(i as int).map_values(
                question_text_fn(),
            ),
            i <= n,
        decreases n - i,
    {
        let t = json_text(field(&a[i], "question"));
        let ghost before = out@.map_values(|o: Option<String>| opt_text(o));
        let ghost tv = opt_text(t);
        assert(tv == question_text_fn()(av[i as int]));
        out.push(t);
        assert(out@.map_values(|o: Option<String>| opt_text(o)) =~= before.push(tv));
        assert(av.take(i + 1).map_values(question_text_fn()) =~= av.take(i as int).map_values(
            question_text_fn(),
        ).push(question_text_fn()(av[i as int])));
        i = i + 1;
    }
    assert(av.take(n as int) =~= av);
    out
}

impl EventFrame {
    /// Reads the fields the engine needs from a decoded event (see `frame_of_json`).
    pub fn from_json(v: &JsonValue) -> (f: EventFrame)
        ensures
            f@ == frame_of_json(v@),
    {
        let questions = match field(v, "questions") {
            Some(JsonValue::Array(a)) => Some(question_texts(a)),
            _ => None,
        };
        let item_count = match field(v, "items") {
            Some(JsonValue::Array(a)) => {
                proof {
                    lemma_array_view(a);
                }
                Some(a.len())
            },
            _ => None,
        };
        EventFrame {
            kind: json_text(field(v, "type")),
            approval_id: json_text(field(v, "approvalId")),
            session_id: json_text(field(v, "sessionId")),
            tool_name: json_text(field(v, "toolName")),
            question_rpc_id: json_text(field(v, "questionRpcId")),
            questions,
            item_count,
            running: flag_of(field(v, "running")),
        }
    }
}

/// The text of the first question, or the empty string.
pub open spec fn first_question(q: Option<Seq<Option<Seq<char>>>>) -> Seq<char> {
    match q {
        Some(arr) => if arr.len() > 0 {
            text_or_empty(arr[0])
        } else {
            Seq::empty()
        },
        None => Seq::empty(),
    }
}

/// The effect of a frame of the event stream: the new state (before emitting), or `None`
/// for a frame that changes nothing and emits nothing.
pub open spec fn mux_update(st: EngineView, f: FrameView, now: i64) -> Option<EngineView> {
    let kind = text_or_empty(f.kind);
    if kind == "approval/requested"@ {
        Some(
            EngineView {
                approvals: with_entry(
                    st.approvals,
                    text_or_empty(f.approval_id),
                    ApprovalView {
                        session_id: text_or_empty(f.session_id),
                        tool_name: text_or_empty(f.tool_name),
                        requested_at: now,
                    },
                ),
                ..st
            },
        )
    } else if kind == "approval/resolved"@ {
        Some(EngineView { approvals: without_key(st.approvals, text_or_empty(f.approval_id)), ..st })
    } else if kind == "question/requested"@ {
        Some(
            EngineView {
                questions: with_entry(
                    st.questions,
                    text_or_empty(f.question_rpc_id),
                    QuestionView {
                        session_id: text_or_empty(f.session_id),
                        text: first_question(f.questions),
                        requested_at: now,
                    },
                ),
                ..st
            },
        )
    } else if kind == "question/resolved"@ {
        Some(
            EngineView { questions: without_key(st.questions, text_or_empty(f.question_rpc_id)), ..st },
        )
    } else if kind == "session/queue"@ {
        Some(
            EngineView {
                queued_count: match f.item_count {
                    Some(c) => c,
                    None => 0,
                },
                ..st
            },
        )
    } else {
        None
    }
}

/// An approval that belongs to a session other than `id`.
pub open spec fn approval_elsewhere_fn(id: Seq<char>) -> spec_fn((Seq<char>, ApprovalView)) -> bool {
    |e: (Seq<char>, ApprovalView)| e.1.session_id != id
}

/// A question that belongs to a session other than `id`.
pub open spec fn question_elsewhere_fn(id: Seq<char>) -> spec_fn((Seq<char>, QuestionView)) -> bool {
    |e: (Seq<char>, QuestionView)| e.1.session_id != id
}

/// The effect of a frame of the host stream: `None` for a frame that is not a session
/// status; otherwise the new state (before emitting) and whether the session was unknown,
/// so that the session list must be fetched again.
pub open spec fn host_update(st: EngineView, f: FrameView, now: i64) -> Option<(EngineView, bool)> {
    if f.kind != Some("host/session-status"@) {
        None
    } else {
        let id = text_or_empty(f.session_id);
        let running = match f.running {
            Some(b) => b,
            None => false,
        };
        let (sessions, done, unknown) = match lookup(st.sessions, id) {
            Some(cur) => (
                with_entry(st.sessions, id, SessionView { title: cur.title, running }),
                if cur.running && !running {
                    with_entry(st.done, id, DoneView { title: cur.title, at: now })
                } else {
                    st.done
                },
                false,
            ),
            None => (st.sessions, st.done, true),
        };
        let approvals = if running {
            st.approvals
        } else {
            st.approvals.filter(approval_elsewhere_fn(id))
        };
        let questions = if running {
            st.questions
        } else {
            st.questions.filter(question_elsewhere_fn(id))
        };
        Some((EngineView { sessions, done, approvals, questions, ..st }, unknown))
    }
}

impl EngineState {
    /// Handles a frame of the event stream at `now`: approvals, questions and the queue.
    /// Returns the emitted snapshot, or `None` when the frame changes nothing.
    pub fn handle_frame(&mut self, frame: &EventFrame, now: i64) -> (r: Option<Snapshot>)
        ensures
            match mux_update(old(self)@, frame@, now) {
                Some(st) => r matches Some(snap) && final(self)@ == emitted(st, now) && snap@
                    == snapshot_of(pruned(st, now)),
                None => r is None && final(self)@ == old(self)@,
            },
    {
        let kind = text_of(&frame.kind);
        if is_text(&kind, "approval/requested") {
            let approval_id = text_of(&frame.approval_id);
            let session_id = text_of(&frame.session_id);
            let tool_name = text_of(&frame.tool_name);
            self.pending_approvals.insert(
                approval_id,
                PendingApproval { session_id, tool_name, requested_at: now },
            );
            Some(self.emit(now))
        } else if is_text(&kind, "approval/resolved") {
            let approval_id = text_of(&frame.approval_id);
            self.pending_approvals.remove(&approval_id);
            Some(self.emit(now))
        } else if is_text(&kind, "question/requested") {
            let question_rpc_id = text_of(&frame.question_rpc_id);
            let session_id = text_of(&frame.session_id);
            let text = match &frame.questions {
                Some(arr) => if arr.len() > 0 {
                    text_of(&arr[0])
                } else {
                    String::new()
                },
                None => String::new(),
            };
            self.pending_questions.insert(
                question_rpc_id,
                PendingQuestion { session_id, text, requested_at: now },
            );
            Some(self.emit(now))
        } else if is_text(&kind, "question/resolved") {
            let question_rpc_id = text_of(&frame.question_rpc_id);
            self.pending_questions.remove(&question_rpc_id);
            Some(self.emit(now))
        } else if is_text(&kind, "session/queue") {
            self.queued_count = match frame.item_count {
                Some(c) => c,
                None => 0,
            };
            Some(self.emit(now))
        } else {
            None
        }
    }

    /// Handles a frame of the host stream at `now`: a session's running flag flips at once,
    /// a session that stops becomes "done", and its pending approvals and questions go.
    /// Returns the emitted snapshot and whether the session list must be fetched again
    /// (the session was unknown), or `None` for a frame that is not a session status.
    pub fn handle_host_frame(&mut self, frame: &EventFrame, now: i64) -> (r: Option<
        (Snapshot, bool),
    >)
        ensures
            match host_update(old(self)@, frame@, now) {
                Some((st, unknown)) => r matches Some((snap, refresh)) && refresh == unknown
                    && final(self)@ == emitted(st, now) && snap@ == snapshot_of(pruned(st, now)),
                None => r is None && final(self)@ == old(self)@,
            },
    {
        let is_status = match &frame.kind {
            Some(k) => is_text(k, "host/session-status"),
            None => false,
        };
        if !is_status {
            return None;
        }
        let ghost st0 = self@;
        let session_id = text_of(&frame.session_id);
        let running = match frame.running {
            Some(b) => b,
            None => false,
        };
        let current = match self.sessions.get(&session_id) {
            Some(cur) => Some((cur.title.clone(), cur.running)),
            None => None,
        };
        let unknown = match current {
            Some((title, was_running)) => {
                self.sessions.insert(
                    session_id.clone(),
                    SessionInfo { title: title.clone(), running },
                );
                if was_running && !running {
                    self.done.insert(session_id.clone(), DoneItem { title, at: now });
                }
                false
            },
            None => true,
        };
        if !running {
            let elsewhere_a = |_k: &String, a: &PendingApproval| -> (b: bool)
                ensures
                    b == (a.session_id@ != session_id@),
                { !(a.session_id == session_id) };
            self.pending_approvals.retain(elsewhere_a, Ghost(approval_elsewhere_fn(session_id@)));
            let elsewhere_q = |_k: &String, q: &PendingQuestion| -> (b: bool)
                ensures
                    b == (q.session_id@ != session_id@),
                { !(q.session_id == session_id) };
            self.pending_questions.retain(elsewhere_q, Ghost(question_elsewhere_fn(session_id@)));
        }
        assert(host_update(st0, frame@, now) == Some((self@, unknown)));
        let snap = self.emit(now);
        Some((snap, unknown))
    }

    /// Records that no DSH was found (offline, to be retried), then emits.
    pub fn mark_undiscovered(&mut self, now: i64) -> (snap: Snapshot)
        ensures
            final(self)@ == emitted(after_poll_failure(old(self)@, undiscovered_message()), now),
            snap@ == snapshot_of(pruned(after_poll_failure(old(self)@, undiscovered_message()), now)),
    {
        self.record_poll_failure(String::from_str("未发现 DSH，10 秒后重试"), now)
    }

    /// Drops every pending approval and question (the event stream replays them on
    /// reconnecting).
    pub fn clear_pending(&mut self)
        ensures
            final(self)@ == (EngineView {
                approvals: Seq::empty(),
                questions: Seq::empty(),
                ..old(self)@
            }),
    {
        self.pending_approvals.clear();
        self.pending_questions.clear();
    }
}

/// The error recorded while no DSH can be found.
pub open spec fn undiscovered_message() -> Seq<char> {
    "未发现 DSH，10 秒后重试"@
}

} // verus!
