//! Properties of the state engine that span several operations.
use vstd::prelude::*;

use crate::engine::{
    approval_elsewhere_fn, approval_fresh_fn, emitted, engine_wf, host_update, item_id_fn,
    mux_update, observe_item, observe_items, after_listing, pruned, question_elsewhere_fn,
    question_fresh_fn, snapshot_of, ApprovalView, DoneView, EngineView, FrameView, ItemView,
    SessionView, PENDING_TTL_MS,
};
use crate::registry::{has_key, keys_distinct, lemma_with_entry, lookup, with_entry, without_key};

verus! {

/// Filtering twice by the same predicate is filtering once.
pub proof fn lemma_filter_twice<A>(s: Seq<A>, p: spec_fn(A) -> bool)
    ensures
        s.filter(p).filter(p) == s.filter(p),
    decreases s.len(),
{
    reveal(Seq::filter);
    if s.len() > 0 {
        lemma_filter_twice(s.drop_last(), p);
        let r = s.drop_last().filter(p);
        if p(s.last()) {
            assert(r.push(s.last()).drop_last() =~= r);
        }
    }
}

/// Every element that a filter keeps satisfies the predicate, and every element of the
/// sequence that satisfies it is kept.
pub proof fn lemma_filter_members<A>(s: Seq<A>, p: spec_fn(A) -> bool, x: A)
    ensures
        s.filter(p).contains(x) <==> (s.contains(x) && p(x)),
{
    broadcast use vstd::seq_lib::group_filter_ensures;

    if s.filter(p).contains(x) {
        s.lemma_filter_contains_rev(p, x);
        let i = choose|i: int| 0 <= i < s.filter(p).len() && s.filter(p)[i] == x;
        assert(p(s.filter(p)[i]));
    }
    if s.contains(x) && p(x) {
        let i = choose|i: int| 0 <= i < s.len() && s[i] == x;
        assert(s.filter(p).contains(s[i]));
    }
}

/// After an emit at `now`, no approval or question older than the time-to-live is left,
/// and every pending item that was still fresh is kept.
pub proof fn lemma_emit_expires_stale(st: EngineView, now: i64)
    ensures
        forall|i: int|
            0 <= i < emitted(st, now).approvals.len() ==> now - (
            #[trigger] emitted(st, now).approvals[i]).1.requested_at <= PENDING_TTL_MS,
        forall|i: int|
            0 <= i < emitted(st, now).questions.len() ==> now - (
            #[trigger] emitted(st, now).questions[i]).1.requested_at <= PENDING_TTL_MS,
        forall|i: int|
            0 <= i < st.approvals.len() && now - st.approvals[i].1.requested_at <= PENDING_TTL_MS
                ==> emitted(st, now).approvals.contains(#[trigger] st.approvals[i]),
        forall|i: int|
            0 <= i < st.questions.len() && now - st.questions[i].1.requested_at <= PENDING_TTL_MS
                ==> emitted(st, now).questions.contains(#[trigger] st.questions[i]),
{
    broadcast use vstd::seq_lib::group_filter_ensures;

    let e = emitted(st, now);
    assert forall|i: int| 0 <= i < e.approvals.len() implies now - (
    #[trigger] e.approvals[i]).1.requested_at <= PENDING_TTL_MS by {
        assert(approval_fresh_fn(now)(st.approvals.filter(approval_fresh_fn(now))[i]));
    }
    assert forall|i: int| 0 <= i < e.questions.len() implies now - (
    #[trigger] e.questions[i]).1.requested_at <= PENDING_TTL_MS by {
        assert(question_fresh_fn(now)(st.questions.filter(question_fresh_fn(now))[i]));
    }
    assert forall|i: int|
        0 <= i < st.approvals.len() && now - st.approvals[i].1.requested_at
            <= PENDING_TTL_MS implies e.approvals.contains(#[trigger] st.approvals[i]) by {
        assert(approval_fresh_fn(now)(st.approvals[i]));
    }
    assert forall|i: int|
        0 <= i < st.questions.len() && now - st.questions[i].1.requested_at
            <= PENDING_TTL_MS implies e.questions.contains(#[trigger] st.questions[i]) by {
        assert(question_fresh_fn(now)(st.questions[i]));
    }
}

/// Emitting twice at the same time changes nothing more than emitting once, and both
/// emits hand on the same snapshot.
pub proof fn lemma_emit_idempotent(st: EngineView, now: i64)
    ensures
        emitted(emitted(st, now), now) == emitted(st, now),
        snapshot_of(pruned(emitted(st, now), now)) == snapshot_of(pruned(st, now)),
{
    lemma_filter_twice(st.approvals, approval_fresh_fn(now));
    lemma_filter_twice(st.questions, question_fresh_fn(now));
    let e = emitted(st, now);
    assert(pruned(e, now).approvals == pruned(st, now).approvals);
    assert(pruned(e, now).questions == pruned(st, now).questions);
    assert(pruned(e, now) == EngineView { last_emitted_mode: e.last_emitted_mode, ..pruned(st, now) });
    assert(snapshot_of(pruned(e, now)) == snapshot_of(pruned(st, now)));
}

/// `lookup` finds a value exactly for the keys that occur.
pub proof fn lemma_lookup_some<V>(s: Seq<(Seq<char>, V)>, k: Seq<char>)
    ensures
        lookup(s, k) is Some <==> has_key(s, k),
{
}

/// Recording listed items keeps the sessions already known and adds every listed id,
/// and keeps the keys distinct.
pub proof fn lemma_observe_keys(
    sessions: Seq<(Seq<char>, SessionView)>,
    done: Seq<(Seq<char>, DoneView)>,
    items: Seq<ItemView>,
    now: i64,
    k: Seq<char>,
)
    requires
        keys_distinct(sessions),
        keys_distinct(done),
    ensures
        keys_distinct(observe_items(sessions, done, items, now).0),
        keys_distinct(observe_items(sessions, done, items, now).1),
        has_key(observe_items(sessions, done, items, now).0, k) <==> (has_key(sessions, k)
            || items.map_values(item_id_fn()).contains(k)),
    decreases items.len(),
{
    if items.len() > 0 {
        let rest = items.drop_last();
        lemma_observe_keys(sessions, done, rest, now, k);
        let (s, d) = observe_items(sessions, done, rest, now);
        let it = items.last();
        let id = crate::engine::item_id(it);
        let sv = SessionView { title: crate::engine::item_title(it), running: crate::engine::item_running(it) };
        lemma_with_entry(s, id, sv, k);
        lemma_with_entry(d, id, DoneView { title: crate::engine::item_title(it), at: now }, k);
        lemma_lookup_some(s, k);
        lemma_lookup_some(with_entry(s, id, sv), k);
        let ids = items.map_values(item_id_fn());
        let rids = rest.map_values(item_id_fn());
        assert(ids =~= rids.push(id));
        if rids.contains(k) {
            let j = choose|j: int| 0 <= j < rids.len() && rids[j] == k;
            assert(ids[j] == k);
        }
        if ids.contains(k) && k != id {
            let j = choose|j: int| 0 <= j < ids.len() && ids[j] == k;
            assert(j < rids.len());
            assert(rids[j] == k);
        }
        if k == id {
            assert(ids[ids.len() - 1] == k);
        }
    }
}

/// After a successful `session.list`, the known sessions are exactly the listed ones.
pub proof fn lemma_listing_mirrors_list(st: EngineView, items: Seq<ItemView>, now: i64, k: Seq<char>)
    requires
        engine_wf(st),
    ensures
        has_key(after_listing(st, items, now).sessions, k) <==> items.map_values(
            item_id_fn(),
        ).contains(k),
        engine_wf(after_listing(st, items, now)),
{
    lemma_observe_keys(st.sessions, st.done, items, now, k);
    let (s, d) = observe_items(st.sessions, st.done, items, now);
    let ids = items.map_values(item_id_fn());
    let p = crate::engine::listed_fn(ids);
    let r = s.filter(p);
    broadcast use vstd::seq_lib::group_filter_ensures;

    crate::registry::lemma_filter_keys_distinct_pub(s, p);
    crate::registry::lemma_filter_keys_distinct_pub(d, crate::engine::done_recent_fn(now));
    if has_key(r, k) {
        let i = choose|i: int| 0 <= i < r.len() && #[trigger] r[i].0 == k;
        assert(p(r[i]));
    }
    if ids.contains(k) {
        let i = choose|i: int| 0 <= i < s.len() && #[trigger] s[i].0 == k;
        assert(p(s[i]));
        assert(r.contains(s[i]));
        let j = choose|j: int| 0 <= j < r.len() && r[j] == s[i];
        assert(r[j].0 == k);
    }
}

/// A `session.list` that reports a running session as no longer running marks it "done"
/// at once with the listed title, and records it as not running.
pub proof fn lemma_listing_marks_finished(st: EngineView, item: ItemView, now: i64)
    requires
        engine_wf(st),
        lookup(st.sessions, crate::engine::item_id(item)) matches Some(p) && p.running,
        !crate::engine::item_running(item),
    ensures
        ({
            let after = after_listing(st, seq![item], now);
            let id = crate::engine::item_id(item);
            let title = crate::engine::item_title(item);
            &&& lookup(after.done, id) == Some(DoneView { title, at: now })
            &&& lookup(after.sessions, id) == Some(SessionView { title, running: false })
        }),
{
    let id = crate::engine::item_id(item);
    let title = crate::engine::item_title(item);
    let items = seq![item];
    assert(items.drop_last() =~= Seq::<ItemView>::empty());
    assert(observe_items(st.sessions, st.done, Seq::<ItemView>::empty(), now) == (st.sessions, st.done));
    assert(items.last() == item);
    assert(observe_items(st.sessions, st.done, items, now) == observe_item(st.sessions, st.done, item, now));
    let sv = SessionView { title, running: false };
    let dv = DoneView { title, at: now };
    lemma_with_entry(st.sessions, id, sv, id);
    lemma_with_entry(st.done, id, dv, id);
    let s2 = with_entry(st.sessions, id, sv);
    let d2 = with_entry(st.done, id, dv);
    let ids = items.map_values(item_id_fn());
    assert(ids[0] == id);
    assert(crate::engine::listed_fn(ids)((id, sv)));
    assert(crate::engine::done_recent_fn(now)((id, dv)));
    crate::registry::lemma_lookup_filter(s2, crate::engine::listed_fn(ids), id);
    crate::registry::lemma_lookup_filter(d2, crate::engine::done_recent_fn(now), id);
}

/// A host status that reports a running session as stopped marks it "done" at once with
/// its title, records it as not running, and drops its pending approvals and questions.
pub proof fn lemma_host_stop_marks_done(st: EngineView, f: FrameView, now: i64)
    requires
        engine_wf(st),
        f.kind == Some("host/session-status"@),
        f.running == Some(false),
        lookup(st.sessions, crate::engine::text_or_empty(f.session_id)) matches Some(cur)
            && cur.running,
    ensures
        host_update(st, f, now) matches Some((st2, unknown)) && {
            let id = crate::engine::text_or_empty(f.session_id);
            let cur = lookup(st.sessions, id)->Some_0;
            &&& !unknown
            &&& lookup(st2.sessions, id) == Some(SessionView { title: cur.title, running: false })
            &&& lookup(st2.done, id) == Some(DoneView { title: cur.title, at: now })
            &&& forall|i: int|
                0 <= i < st2.approvals.len() ==> (#[trigger] st2.approvals[i]).1.session_id != id
            &&& forall|i: int|
                0 <= i < st2.questions.len() ==> (#[trigger] st2.questions[i]).1.session_id != id
        },
{
    broadcast use vstd::seq_lib::group_filter_ensures;

    let id = crate::engine::text_or_empty(f.session_id);
    let cur = lookup(st.sessions, id)->Some_0;
    lemma_with_entry(st.sessions, id, SessionView { title: cur.title, running: false }, id);
    lemma_with_entry(st.done, id, DoneView { title: cur.title, at: now }, id);
    let (st2, unknown) = host_update(st, f, now)->Some_0;
    assert forall|i: int| 0 <= i < st2.approvals.len() implies (
    #[trigger] st2.approvals[i]).1.session_id != id by {
        assert(approval_elsewhere_fn(id)(st.approvals.filter(approval_elsewhere_fn(id))[i]));
    }
    assert forall|i: int| 0 <= i < st2.questions.len() implies (
    #[trigger] st2.questions[i]).1.session_id != id by {
        assert(question_elsewhere_fn(id)(st.questions.filter(question_elsewhere_fn(id))[i]));
    }
}

/// Resolving an approval undoes requesting it: a request for an id that was not pending,
/// emitted, then resolved at the same time, leaves the pending approvals as an emit alone
/// would have left them.
pub proof fn lemma_resolve_undoes_request(
    st: EngineView,
    requested: FrameView,
    resolved: FrameView,
    now: i64,
)
    requires
        engine_wf(st),
        requested.kind == Some("approval/requested"@),
        resolved.kind == Some("approval/resolved"@),
        requested.approval_id == resolved.approval_id,
        !has_key(st.approvals, crate::engine::text_or_empty(requested.approval_id)),
    ensures
        mux_update(st, requested, now) matches Some(st1) && mux_update(emitted(st1, now), resolved, now)
            matches Some(st2) && st2.approvals == emitted(st, now).approvals,
{
    reveal_strlit("approval/requested");
    reveal_strlit("approval/resolved");
    let id = crate::engine::text_or_empty(requested.approval_id);
    let a = ApprovalView {
        session_id: crate::engine::text_or_empty(requested.session_id),
        tool_name: crate::engine::text_or_empty(requested.tool_name),
        requested_at: now,
    };
    let st1 = mux_update(st, requested, now)->Some_0;
    assert(st1.approvals == st.approvals.push((id, a)));
    let p = approval_fresh_fn(now);
    let f = st.approvals.filter(p);
    reveal(Seq::filter);
    assert(st.approvals.push((id, a)).drop_last() =~= st.approvals);
    assert(st1.approvals.filter(p) == f.push((id, a)));
    lemma_filter_members(st.approvals, p, (id, a));
    if has_key(f, id) {
        let i = choose|i: int| 0 <= i < f.len() && #[trigger] f[i].0 == id;
        lemma_filter_members(st.approvals, p, f[i]);
        let j = choose|j: int| 0 <= j < st.approvals.len() && st.approvals[j] == f[i];
        assert(st.approvals[j].0 == id);
    }
    let g = f.push((id, a));
    crate::registry::lemma_filter_keys_distinct_pub(st.approvals, p);
    assert(keys_distinct(g)) by {
        assert forall|i: int, j: int|
            0 <= i < g.len() && 0 <= j < g.len() && i != j implies #[trigger] g[i].0
            != #[trigger] g[j].0 by {
            if i < f.len() && j < f.len() {
                assert(f[i].0 != f[j].0);
            } else if i < f.len() {
                assert(f[i].0 == g[i].0);
            } else {
                assert(f[j].0 == g[j].0);
            }
        }
    }
    assert(g[f.len() as int].0 == id);
    crate::registry::lemma_position_unique(g, f.len() as int);
    assert(without_key(g, id) =~= f);
    assert(emitted(st1, now).approvals == g);
    assert("approval/resolved"@ != "approval/requested"@) by {
        assert("approval/resolved"@.len() != "approval/requested"@.len());
    }
    assert(crate::engine::text_or_empty(resolved.kind) == "approval/resolved"@);
    let st2 = mux_update(emitted(st1, now), resolved, now)->Some_0;
    assert(st2.approvals == without_key(g, id));
}

/// `filter_map` keeps something exactly when some element maps to something.
proof fn lemma_filter_map_nonempty<A, B>(s: Seq<A>, f: spec_fn(A) -> Option<B>)
    ensures
        s.filter_map(f).len() > 0 <==> exists|i: int| 0 <= i < s.len() && (#[trigger] f(s[i])) is Some,
    decreases s.len(),
{
    if s.len() > 0 {
        let r = s.drop_last();
        lemma_filter_map_nonempty(r, f);
        if exists|i: int| 0 <= i < r.len() && (#[trigger] f(r[i])) is Some {
            let i = choose|i: int| 0 <= i < r.len() && (#[trigger] f(r[i])) is Some;
            assert(s[i] == r[i]);
        }
        if exists|i: int| 0 <= i < s.len() && (#[trigger] f(s[i])) is Some {
            let i = choose|i: int| 0 <= i < s.len() && (#[trigger] f(s[i])) is Some;
            if i < s.len() - 1 {
                assert(r[i] == s[i]);
            } else {
                assert(s.last() == s[i]);
            }
        }
    }
}

/// The mode of the snapshot follows the documented priority offline > error > attention >
/// working > done > turn-idle > idle, each read straight off the state: not connected is
/// offline; an error is error; a pending approval or question is attention; then a running
/// session is working, whatever has finished; then a finished session is done; then any
/// session is turn-idle; and nothing at all is idle.
pub proof fn lemma_mode_priority(st: EngineView)
    ensures
        !st.connected ==> snapshot_of(st).state == "offline"@,
        st.connected && st.last_error is Some ==> snapshot_of(st).state == "error"@,
        st.connected && st.last_error is None && (st.approvals.len() > 0 || st.questions.len() > 0)
            ==> snapshot_of(st).state == "attention"@,
        st.connected && st.last_error is None && st.approvals.len() == 0 && st.questions.len()
            == 0 && (exists|i: int| 0 <= i < st.sessions.len() && (#[trigger] st.sessions[i]).1.running)
            ==> snapshot_of(st).state == "working"@,
        st.connected && st.last_error is None && st.approvals.len() == 0 && st.questions.len()
            == 0 && (forall|i: int| 0 <= i < st.sessions.len() ==> !(#[trigger] st.sessions[i]).1.running)
            && st.done.len() > 0 ==> snapshot_of(st).state == "done"@,
        st.connected && st.last_error is None && st.approvals.len() == 0 && st.questions.len()
            == 0 && (forall|i: int| 0 <= i < st.sessions.len() ==> !(#[trigger] st.sessions[i]).1.running)
            && st.done.len() == 0 && st.sessions.len() > 0 ==> snapshot_of(st).state == "turn-idle"@,
        st.connected && st.last_error is None && st.approvals.len() == 0 && st.questions.len()
            == 0 && st.done.len() == 0 && st.sessions.len() == 0 ==> snapshot_of(st).state
            == "idle"@,
{
    let f = crate::engine::running_title_fn();
    lemma_filter_map_nonempty(st.sessions, f);
    assert forall|i: int| 0 <= i < st.sessions.len() implies (#[trigger] f(st.sessions[i])) is Some
        <==> st.sessions[i].1.running by {}
    if exists|i: int| 0 <= i < st.sessions.len() && (#[trigger] st.sessions[i]).1.running {
        let i = choose|i: int| 0 <= i < st.sessions.len() && (#[trigger] st.sessions[i]).1.running;
        assert(f(st.sessions[i]) is Some);
    }
    if crate::engine::running_of(st).len() > 0 {
        let i = choose|i: int| 0 <= i < st.sessions.len() && (#[trigger] f(st.sessions[i])) is Some;
        assert(st.sessions[i].1.running);
    }
    assert(crate::engine::attention_of(st).len() == st.approvals.len() + st.questions.len());
    assert(crate::engine::done_of(st).len() == st.done.len());
}

/// A successful session listing ends any error: afterwards the engine is connected and has
/// no error, so its mode is neither offline nor error, whatever failed before.
pub proof fn lemma_listing_clears_error(st: EngineView, items: Seq<ItemView>, now: i64)
    ensures
        emitted(after_listing(st, items, now), now).connected,
        emitted(after_listing(st, items, now), now).last_error is None,
        snapshot_of(pruned(after_listing(st, items, now), now)).state != "offline"@,
        snapshot_of(pruned(after_listing(st, items, now), now)).state != "error"@,
{
    let p = pruned(after_listing(st, items, now), now);
    lemma_mode_priority(p);
    reveal_strlit("offline");
    reveal_strlit("error");
    reveal_strlit("attention");
    reveal_strlit("working");
    reveal_strlit("done");
    reveal_strlit("turn-idle");
    reveal_strlit("idle");
    assert("offline"@[0] != "error"@[0]);
    assert("attention"@.len() != "offline"@.len() && "attention"@.len() != "error"@.len());
    assert("working"@[0] != "offline"@[0] && "working"@[0] != "error"@[0]);
    assert("done"@.len() != "offline"@.len() && "done"@.len() != "error"@.len());
    assert("turn-idle"@.len() != "offline"@.len() && "turn-idle"@.len() != "error"@.len());
    assert("idle"@.len() != "offline"@.len() && "idle"@.len() != "error"@.len());
}

/// A host status frame that reports a session as running keeps every pending approval and
/// question; only a session that stops loses its pending items.
pub proof fn lemma_host_running_keeps_pending(st: EngineView, f: FrameView, now: i64)
    requires
        f.kind == Some("host/session-status"@),
        f.running == Some(true),
    ensures
        host_update(st, f, now) matches Some((st2, _)) && st2.approvals == st.approvals
            && st2.questions == st.questions,
{
}

/// A requested question is recorded under its id, for its session, at `now`, with the
/// `question` text of the first element of the `questions` array (empty when the array is
/// missing or empty, or its first element has no text).
pub proof fn lemma_question_text_is_first(st: EngineView, f: FrameView, now: i64)
    requires
        engine_wf(st),
        f.kind == Some("question/requested"@),
    ensures
        ({
            let id = match f.question_rpc_id {
                Some(q) => q,
                None => Seq::<char>::empty(),
            };
            let session = match f.session_id {
                Some(s) => s,
                None => Seq::<char>::empty(),
            };
            let text = match f.questions {
                Some(arr) => if arr.len() > 0 {
                    match arr[0] {
                        Some(t) => t,
                        None => Seq::<char>::empty(),
                    }
                } else {
                    Seq::<char>::empty()
                },
                None => Seq::<char>::empty(),
            };
            mux_update(st, f, now) matches Some(st2) && lookup(st2.questions, id) == Some(
                crate::engine::QuestionView { session_id: session, text, requested_at: now },
            )
        }),
{
    reveal_strlit("question/requested");
    reveal_strlit("approval/requested");
    reveal_strlit("approval/resolved");
    assert("question/requested"@[0] != "approval/requested"@[0]);
    assert("question/requested"@.len() != "approval/resolved"@.len());
    let id = crate::engine::text_or_empty(f.question_rpc_id);
    let q = crate::engine::QuestionView {
        session_id: crate::engine::text_or_empty(f.session_id),
        text: crate::engine::first_question(f.questions),
        requested_at: now,
    };
    lemma_with_entry(st.questions, id, q, id);
}

proof fn lemma_kind_literals()
    ensures
        "approval/requested"@ != "approval/resolved"@,
        "approval/requested"@ != "question/requested"@,
        "approval/requested"@ != "question/resolved"@,
        "approval/requested"@ != "session/queue"@,
        "approval/resolved"@ != "question/requested"@,
        "approval/resolved"@ != "question/resolved"@,
        "approval/resolved"@ != "session/queue"@,
        "question/requested"@ != "question/resolved"@,
        "question/requested"@ != "session/queue"@,
        "question/resolved"@ != "session/queue"@,
{
    reveal_strlit("approval/requested");
    reveal_strlit("approval/resolved");
    reveal_strlit("question/requested");
    reveal_strlit("question/resolved");
    reveal_strlit("session/queue");
    assert("approval/requested"@.len() != "approval/resolved"@.len());
    assert("approval/requested"@[0] != "question/requested"@[0]);
    assert("approval/requested"@.len() != "question/resolved"@.len());
    assert("approval/requested"@[0] != "session/queue"@[0]);
    assert("approval/resolved"@.len() != "question/requested"@.len());
    assert("approval/resolved"@[0] != "question/resolved"@[0]);
    assert("approval/resolved"@[0] != "session/queue"@[0]);
    assert("question/requested"@.len() != "question/resolved"@.len());
    assert("question/requested"@[0] != "session/queue"@[0]);
    assert("question/resolved"@[0] != "session/queue"@[0]);
}

/// An approval request records the approval under its id, for its session and tool, at
/// `now`; every other approval, question, session and finished session stays as it was.
pub proof fn lemma_approval_recorded(st: EngineView, f: FrameView, now: i64, other: Seq<char>)
    requires
        engine_wf(st),
        f.kind == Some("approval/requested"@),
    ensures
        ({
            let id = match f.approval_id {
                Some(a) => a,
                None => Seq::<char>::empty(),
            };
            let session = match f.session_id {
                Some(x) => x,
                None => Seq::<char>::empty(),
            };
            let tool = match f.tool_name {
                Some(t) => t,
                None => Seq::<char>::empty(),
            };
            mux_update(st, f, now) matches Some(st2) && lookup(st2.approvals, id) == Some(
                ApprovalView { session_id: session, tool_name: tool, requested_at: now },
            ) && (other != id ==> lookup(st2.approvals, other) == lookup(st.approvals, other))
                && st2.questions == st.questions && st2.sessions == st.sessions && st2.done
                == st.done && st2.connected == st.connected && st2.last_error == st.last_error
        }),
{
    let id = crate::engine::text_or_empty(f.approval_id);
    let a = ApprovalView {
        session_id: crate::engine::text_or_empty(f.session_id),
        tool_name: crate::engine::text_or_empty(f.tool_name),
        requested_at: now,
    };
    lemma_with_entry(st.approvals, id, a, other);
}

/// A resolution removes the approval or question of that id and leaves every other one.
pub proof fn lemma_resolution_removes(st: EngineView, f: FrameView, now: i64, other: Seq<char>)
    requires
        engine_wf(st),
        f.kind == Some("approval/resolved"@) || f.kind == Some("question/resolved"@),
    ensures
        mux_update(st, f, now) matches Some(st2) && (f.kind == Some("approval/resolved"@) ==> {
            let id = match f.approval_id {
                Some(a) => a,
                None => Seq::<char>::empty(),
            };
            &&& lookup(st2.approvals, id) is None
            &&& other != id ==> lookup(st2.approvals, other) == lookup(st.approvals, other)
            &&& st2.questions == st.questions
        }) && (f.kind == Some("question/resolved"@) ==> {
            let id = match f.question_rpc_id {
                Some(q) => q,
                None => Seq::<char>::empty(),
            };
            &&& lookup(st2.questions, id) is None
            &&& other != id ==> lookup(st2.questions, other) == lookup(st.questions, other)
            &&& st2.approvals == st.approvals
        }),
{
    lemma_kind_literals();
    crate::registry::lemma_without_key(st.approvals, crate::engine::text_or_empty(f.approval_id), other);
    crate::registry::lemma_without_key(
        st.questions,
        crate::engine::text_or_empty(f.question_rpc_id),
        other,
    );
}

/// A queue frame sets the queued count to the length of its `items` (0 without one) and
/// changes nothing else.
pub proof fn lemma_queue_count(st: EngineView, f: FrameView, now: i64)
    requires
        f.kind == Some("session/queue"@),
    ensures
        mux_update(st, f, now) matches Some(st2) && st2.queued_count == (match f.item_count {
            Some(c) => c,
            None => 0,
        }) && st2.approvals == st.approvals && st2.questions == st.questions && st2.sessions
            == st.sessions && st2.done == st.done,
{
    lemma_kind_literals();
}

/// Any other frame of the event stream changes nothing and emits nothing.
pub proof fn lemma_other_frames_ignored(st: EngineView, f: FrameView, now: i64)
    requires
        f.kind != Some("approval/requested"@),
        f.kind != Some("approval/resolved"@),
        f.kind != Some("question/requested"@),
        f.kind != Some("question/resolved"@),
        f.kind != Some("session/queue"@),
    ensures
        mux_update(st, f, now) is None,
{
    reveal_strlit("approval/requested");
    reveal_strlit("approval/resolved");
    reveal_strlit("question/requested");
    reveal_strlit("question/resolved");
    reveal_strlit("session/queue");
    assert("approval/requested"@.len() > 0);
    assert("approval/resolved"@.len() > 0);
    assert("question/requested"@.len() > 0);
    assert("question/resolved"@.len() > 0);
    assert("session/queue"@.len() > 0);
}

/// A host status frame sets a known session's running flag to the reported one (absent
/// means not running) and keeps its title; for an unknown session it changes no session or
/// finished session and asks for the list to be fetched again. A frame of another type is
/// ignored.
pub proof fn lemma_host_status(st: EngineView, f: FrameView, now: i64)
    requires
        engine_wf(st),
    ensures
        f.kind != Some("host/session-status"@) ==> host_update(st, f, now) is None,
        f.kind == Some("host/session-status"@) ==> (host_update(st, f, now) matches Some((st2, unknown)) && {
            let id = match f.session_id {
                Some(x) => x,
                None => Seq::<char>::empty(),
            };
            let running = match f.running {
                Some(b) => b,
                None => false,
            };
            match lookup(st.sessions, id) {
                Some(cur) => !unknown && lookup(st2.sessions, id) == Some(
                    SessionView { title: cur.title, running },
                ),
                None => unknown && st2.sessions == st.sessions && st2.done == st.done,
            }
        }),
{
    let id = crate::engine::text_or_empty(f.session_id);
    match lookup(st.sessions, id) {
        Some(cur) => {
            let running = match f.running {
                Some(b) => b,
                None => false,
            };
            lemma_with_entry(st.sessions, id, SessionView { title: cur.title, running }, id);
        },
        None => {},
    }
}

/// After a session listing, every finished session kept is within the done window of
/// `now`.
pub proof fn lemma_listing_done_window(st: EngineView, items: Seq<ItemView>, now: i64)
    ensures
        forall|i: int|
            0 <= i < after_listing(st, items, now).done.len() ==> now - (#[trigger] after_listing(
                st,
                items,
                now,
            ).done[i]).1.at <= crate::engine::DONE_WINDOW_MS,
{
    let (s, d) = observe_items(st.sessions, st.done, items, now);
    let kept = d.filter(crate::engine::done_recent_fn(now));
    assert forall|i: int| 0 <= i < kept.len() implies now - (#[trigger] kept[i]).1.at
        <= crate::engine::DONE_WINDOW_MS by {
        lemma_filter_members(d, crate::engine::done_recent_fn(now), kept[i]);
        assert(kept.contains(kept[i]));
    }
}

/// The attention lines of the snapshot: first one per pending approval, in order, reading
/// `「<session title>」请求使用 <tool>`, then one per pending question, reading
/// `「<session title>」：<question>`; a session that is not listed is called `某会话`. The
/// done list holds the titles of the finished sessions, in order.
pub proof fn lemma_snapshot_lines(st: EngineView)
    ensures
        snapshot_of(st).attention.len() == st.approvals.len() + st.questions.len(),
        forall|i: int|
            0 <= i < st.approvals.len() ==> snapshot_of(st).attention[i] == "「"@ + (match lookup(
                st.sessions,
                (#[trigger] st.approvals[i]).1.session_id,
            ) {
                Some(x) => x.title,
                None => "某会话"@,
            }) + "」请求使用 "@ + st.approvals[i].1.tool_name,
        forall|j: int|
            0 <= j < st.questions.len() ==> snapshot_of(st).attention[st.approvals.len() + j]
                == "「"@ + (match lookup(st.sessions, (#[trigger] st.questions[j]).1.session_id) {
                Some(x) => x.title,
                None => "某会话"@,
            }) + "」："@ + st.questions[j].1.text,
        snapshot_of(st).done.len() == st.done.len(),
        forall|k: int| 0 <= k < st.done.len() ==> snapshot_of(st).done[k] == (#[trigger] st.done[k]).1.title,
{
    let a = st.approvals.map_values(crate::engine::approval_line_fn(st.sessions));
    assert forall|j: int| 0 <= j < st.questions.len() implies snapshot_of(st).attention[st.approvals.len()
        + j] == crate::engine::question_line_fn(st.sessions)(#[trigger] st.questions[j]) by {
        assert(a.len() == st.approvals.len());
    }
}

} // verus!
