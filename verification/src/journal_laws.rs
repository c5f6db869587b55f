//! What is read back of the journal, the signals, the state, the events and the log lines
//! of a workflow.

use vstd::prelude::*;
use crate::json::{lookup, named, JsonV, Members};
use crate::laws::{
    is_keyed, last_write, law_commit_lands_whole, law_step_is_read_back, lemma_step_place,
};
use crate::order::{before, is_order, pick};
use crate::protocol::{FlowMsgV, KvWriteV};
use crate::rows::{KvRowV, SignalRowV, StepRowV};
use crate::store::{LogLineV, StepViewV};
use crate::tables::{
    event_items, events_of, is_state, is_step_list, journal_of, kv_of, kv_with, log_lines, logs_of,
    member_keys, pending_signal, seq_keys, signal_members, signal_with, state_members, step_views,
    step_with, steps_of, unconsumed, ChangeV, EventItem, StoreV, Tables,
};
use crate::text::{first_where, is_blank, lemma_first_where, lemma_first_where_is};
use crate::worker::{answer, deliveries, ending, TerminalV, WorkerV};
use crate::workflow_laws::{is_numbered, law_journal_is_complete};

verus! {

// ---------------------------------------------------------------------------
// Signals
// ---------------------------------------------------------------------------

/// The signals that are delivered to a workflow.
pub open spec fn delivered(t: Tables, id: Seq<char>) -> Members {
    signal_members(t.signals.filter(unconsumed(id)))
}

/// A signal that was sent to a workflow is delivered to it behind those before it, with the
/// payload that was sent, whatever kind of value that is. The signals of other workflows
/// are as they were.
pub proof fn law_sent_is_delivered(
    s: StoreV,
    k: i64,
    id: Seq<char>,
    name: Seq<char>,
    payload: JsonV,
    now: Seq<char>,
    other: Seq<char>,
)
    ensures
        ({
            let after = s.signalled(k, id, name, payload, now).tables;
            &&& delivered(after, id) == delivered(s.tables, id).push((name, payload))
            &&& other != id ==> delivered(after, other) == delivered(s.tables, other)
            &&& after == Tables { signals: after.signals, ..s.tables }
            &&& after.signals.len() == s.tables.signals.len() + 1
            &&& after.signals.last().id == k && after.signals.last().workflow_id == id
                && after.signals.last().created_at == now
        }),
{
    reveal(Seq::filter);
    let after = s.signalled(k, id, name, payload, now).tables;
    assert(after.signals.drop_last() =~= s.tables.signals);
    assert(delivered(after, id) =~= delivered(s.tables, id).push((name, payload)));
    assert(delivered(after, other) =~= if other == id {
        delivered(s.tables, other).push((name, payload))
    } else {
        delivered(s.tables, other)
    });
}

/// What a workflow is handed of its signals is their names and payloads, in order.
pub proof fn law_handed_out_in_order(m: Members, i: int)
    requires
        0 <= i < m.len(),
    ensures
        deliveries(m).len() == m.len(),
        deliveries(m)[i].name == m[i].0,
        deliveries(m)[i].payload == m[i].1,
{
}

proof fn lemma_kept_update<T>(s: Seq<T>, p: spec_fn(T) -> bool, i: int, x: T)
    requires
        0 <= i < s.len(),
        p(s[i]),
        !p(x),
    ensures
        s.update(i, x).filter(p) == s.filter(p).remove(kept_before(s, p, i) as int),
        kept_before(s, p, i) < s.filter(p).len(),
        s.filter(p)[kept_before(s, p, i) as int] == s[i],
    decreases s.len(),
{
    reveal(Seq::filter);
    let r = s.drop_last();
    let u = s.update(i, x);
    if i == s.len() - 1 {
        assert(u.drop_last() =~= r);
        assert(s.take(i) =~= r);
        assert(s.filter(p).remove(r.filter(p).len() as int) =~= r.filter(p));
    } else {
        assert(u.drop_last() =~= r.update(i, x));
        lemma_kept_update(r, p, i, x);
        assert(r.take(i) =~= s.take(i));
        assert(u.last() == s.last());
        assert(s.update(i, x).filter(p) =~= s.filter(p).remove(kept_before(s, p, i) as int));
    }
}

/// How many items before an index satisfy `p`.
pub open spec fn kept_before<T>(s: Seq<T>, p: spec_fn(T) -> bool, i: int) -> nat {
    s.take(i).filter(p).len()
}

proof fn lemma_kept_unchanged<T>(s: Seq<T>, p: spec_fn(T) -> bool, i: int, x: T)
    requires
        0 <= i < s.len(),
        !p(s[i]),
        !p(x),
    ensures
        s.update(i, x).filter(p) == s.filter(p),
    decreases s.len(),
{
    reveal(Seq::filter);
    let r = s.drop_last();
    let u = s.update(i, x);
    if i == s.len() - 1 {
        assert(u.drop_last() =~= r);
    } else {
        assert(u.drop_last() =~= r.update(i, x));
        lemma_kept_unchanged(r, p, i, x);
    }
}

proof fn lemma_first_kept(s: Seq<SignalRowV>, id: Seq<char>, name: Seq<char>, i: int, n: int)
    requires
        0 <= n <= i < s.len(),
        forall|j: int|
            0 <= j < i ==> !((#[trigger] s[j]).workflow_id == id && s[j].name == name
                && s[j].consumed == 0),
    ensures
        forall|q: int|
            0 <= q < s.take(n).filter(unconsumed(id)).len() ==> (#[trigger] s.take(n).filter(
                unconsumed(id),
            )[q]).name != name,
    decreases n,
{
    reveal(Seq::filter);
    if n > 0 {
        lemma_first_kept(s, id, name, i, n - 1);
        let t = s.take(n);
        assert(t.drop_last() =~= s.take(n - 1));
        assert(t.last() == s[n - 1]);
    }
}

/// A signal that a workflow consumes is delivered no more: of those delivered to it, the
/// first of that name goes, and the others stay as they were. Where there is none of that
/// name, and for every other workflow, nothing changes.
pub proof fn law_consumed_is_delivered_no_more(
    s: StoreV,
    id: Seq<char>,
    name: Seq<char>,
    other: Seq<char>,
)
    requires
        is_keyed(s.tables),
    ensures
        ({
            let before = delivered(s.tables, id);
            let after = delivered(s.consumed(id, name).tables, id);
            let q = first_where(before, named(name));
            &&& after == if q < before.len() {
                before.remove(q)
            } else {
                before
            }
            &&& other != id ==> delivered(s.consumed(id, name).tables, other) == delivered(
                s.tables,
                other,
            )
        }),
{
    let sig = s.tables.signals;
    let p = unconsumed(id);
    let f = sig.filter(p);
    let before = delivered(s.tables, id);
    let i = first_where(sig, pending_signal(id, name));
    lemma_first_where(sig, pending_signal(id, name));
    assert forall|j: int| 0 <= j < i implies !((#[trigger] sig[j]).workflow_id == id && sig[j].name
        == name && sig[j].consumed == 0) by {
        assert(!pending_signal(id, name)(sig[j]));
    }
    if i < sig.len() {
        let k = sig[i].id;
        let x = SignalRowV { consumed: 1, ..sig[i] };
        assert forall|j: int| 0 <= j < i implies !signal_with(k)(#[trigger] sig[j]) by {
            assert(sig[j].id < sig[i].id);
        }
        lemma_first_where_is(sig, signal_with(k), i);
        lemma_kept_update(sig, p, i, x);
        if other != id {
            lemma_kept_unchanged(sig, unconsumed(other), i, x);
        }
        let q = kept_before(sig, p, i) as int;
        lemma_first_kept(sig, id, name, i, i);
        lemma_prefix(sig, p, i);
        assert forall|j: int| 0 <= j < q implies !named(name)(#[trigger] before[j]) by {
            assert(before[j].0 == f[j].name);
            assert(f[j] == sig.take(i).filter(p)[j]);
        }
        assert(named(name)(before[q]));
        lemma_first_where_is(before, named(name), q);
        assert(delivered(s.consumed(id, name).tables, id) =~= before.remove(q));
    } else {
        assert(sig.take(sig.len() as int) =~= sig);
        lemma_all_kept(sig, id, name, sig.len() as int);
        assert forall|j: int| 0 <= j < before.len() implies !named(name)(#[trigger] before[j]) by {
            assert(before[j].0 == f[j].name);
        }
        lemma_first_where_is(before, named(name), before.len() as int);
    }
}

proof fn lemma_all_kept(s: Seq<SignalRowV>, id: Seq<char>, name: Seq<char>, n: int)
    requires
        0 <= n <= s.len(),
        forall|j: int|
            0 <= j < s.len() ==> !((#[trigger] s[j]).workflow_id == id && s[j].name == name
                && s[j].consumed == 0),
    ensures
        forall|q: int|
            0 <= q < s.take(n).filter(unconsumed(id)).len() ==> (#[trigger] s.take(n).filter(
                unconsumed(id),
            )[q]).name != name,
    decreases n,
{
    reveal(Seq::filter);
    if n > 0 {
        lemma_all_kept(s, id, name, n - 1);
        let t = s.take(n);
        assert(t.drop_last() =~= s.take(n - 1));
        assert(t.last() == s[n - 1]);
    }
}

/// What a filter leaves of the first items comes first in what it leaves of all.
pub proof fn lemma_prefix<T>(s: Seq<T>, p: spec_fn(T) -> bool, i: int)
    requires
        0 <= i <= s.len(),
    ensures
        s.take(i).filter(p).len() <= s.filter(p).len(),
        forall|j: int|
            0 <= j < s.take(i).filter(p).len() ==> #[trigger] s.filter(p)[j] == s.take(i).filter(p)[j],
    decreases s.len() - i,
{
    if i < s.len() {
        reveal(Seq::filter);
        lemma_prefix(s, p, i + 1);
        let t = s.take(i + 1);
        assert(t.drop_last() =~= s.take(i));
        assert forall|j: int| 0 <= j < s.take(i).filter(p).len() implies #[trigger] s.filter(p)[j]
            == s.take(i).filter(p)[j] by {
            assert(t.filter(p)[j] == s.take(i).filter(p)[j]);
        }
    } else {
        assert(s.take(i) =~= s);
    }
}

// ---------------------------------------------------------------------------
// Messages and the journal
// ---------------------------------------------------------------------------

/// What is known of the output of a step.
pub open spec fn output_of(t: Tables, id: Seq<char>, seq: u32) -> Option<Option<JsonV>> {
    match t.step(id, seq as i64) {
        Some(r) => r.output,
        None => None,
    }
}

/// A step that starts is in the journal as started, under its name, without an error and
/// without an end. What is known of its output stays.
pub proof fn law_start_is_journaled(
    w: WorkerV,
    id: Seq<char>,
    seq: u32,
    name: Seq<char>,
    attempt: u32,
    now: Seq<char>,
)
    ensures
        ({
            let v = w.heard(id, FlowMsgV::StepStart { seq, name, attempt }, now);
            v.store.tables.step(id, seq as i64) matches Some(r) && r.status == "started"@
                && r.step_name == name && r.error is None && r.finished_at is None && r.output
                == output_of(w.store.tables, id, seq) && r.started_at == match w.store.tables.step(
                id,
                seq as i64,
            ) {
                Some(old) => old.started_at,
                None => now,
            }
        }),
{
    lemma_step_place(w.store.tables, id, seq as i64);
    let v = w.stepped(id, FlowMsgV::StepStart { seq, name, attempt }, now);
    law_step_is_read_back(w.store, v.store.changes.last()->Step_0, id, seq as i64);
}

proof fn lemma_not_started()
    ensures
        "failed"@ != "started"@,
        "skipped"@ != "started"@,
        "success"@ != "started"@,
{
    reveal_strlit("failed");
    reveal_strlit("skipped");
    reveal_strlit("success");
    reveal_strlit("started");
    assert("skipped"@[1] != "started"@[1]);
    assert("success"@[1] != "started"@[1]);
}

/// A step that fails is in the journal as failed, with its error, its duration and its end.
/// What is known of its output stays.
pub proof fn law_failure_is_journaled(
    w: WorkerV,
    id: Seq<char>,
    seq: u32,
    name: Seq<char>,
    duration_ms: u64,
    error: Seq<char>,
    now: Seq<char>,
)
    ensures
        ({
            let v = w.heard(id, FlowMsgV::StepFailure { seq, name, duration_ms, error }, now);
            v.store.tables.step(id, seq as i64) matches Some(r) && r.status == "failed"@
                && r.step_name == name && r.error == Some(error) && r.finished_at == Some(now)
                && r.duration_ms == Some(duration_ms as i64) && r.output == output_of(
                w.store.tables,
                id,
                seq,
            )
        }),
{
    lemma_step_place(w.store.tables, id, seq as i64);
    lemma_not_started();
    let v = w.stepped(id, FlowMsgV::StepFailure { seq, name, duration_ms, error }, now);
    law_step_is_read_back(w.store, v.store.changes.last()->Step_0, id, seq as i64);
}

/// A step that is skipped stays done if it was, and is else in the journal as skipped. What
/// is known of its output stays.
pub proof fn law_skip_is_journaled(
    w: WorkerV,
    id: Seq<char>,
    seq: u32,
    name: Seq<char>,
    reason: Seq<char>,
    now: Seq<char>,
)
    ensures
        ({
            let v = w.heard(id, FlowMsgV::StepSkipped { seq, name, reason }, now);
            let done = w.store.tables.step(id, seq as i64) matches Some(old) && old.status
                == "success"@;
            v.store.tables.step(id, seq as i64) matches Some(r) && r.step_name == name
                && r.error is None && r.finished_at == Some(now) && r.duration_ms == Some(0i64)
                && r.output == output_of(w.store.tables, id, seq) && r.status == if done {
                "success"@
            } else {
                "skipped"@
            }
        }),
{
    lemma_step_place(w.store.tables, id, seq as i64);
    lemma_not_started();
    let v = w.stepped(id, FlowMsgV::StepSkipped { seq, name, reason }, now);
    law_step_is_read_back(w.store, v.store.changes.last()->Step_0, id, seq as i64);
}

/// A step whose result arrives is in the journal as done, with its output, its duration and
/// its end, whether or not it writes state; and the state has what it last wrote under each
/// key, and nothing else new.
pub proof fn law_result_is_journaled(
    w: WorkerV,
    id: Seq<char>,
    seq: u32,
    name: Seq<char>,
    duration_ms: u64,
    output: JsonV,
    writes: Seq<KvWriteV>,
    now: Seq<char>,
    other: Seq<char>,
    key: Seq<char>,
)
    ensures
        ({
            let m = FlowMsgV::StepResult { seq, name, duration_ms, output, writes };
            let v = w.heard(id, m, now);
            &&& v.store.tables.step(id, seq as i64) matches Some(r) && r.status == "success"@
                && r.step_name == name && r.output == Some(Some(output)) && r.finished_at == Some(
                now,
            ) && r.duration_ms == Some(duration_ms as i64) && (writes.len() == 0 ==> r.error is None)
            &&& v.store.tables.state(other, key) == if other == id && last_write(
                writes,
                key,
            ) is Some {
                Some(
                    KvRowV {
                        workflow_id: id,
                        key,
                        value: Some(last_write(writes, key).unwrap()),
                    },
                )
            } else {
                w.store.tables.state(other, key)
            }
            &&& v.store.tables.workflows == w.store.tables.workflows
            &&& v.store.tables.signals == w.store.tables.signals
        }),
{
    lemma_step_place(w.store.tables, id, seq as i64);
    lemma_not_started();
    if writes.len() == 0 {
        let put = w.store.step_put(
            id,
            seq as i64,
            name,
            "success"@,
            Some(output),
            None,
            Some(duration_ms as i64),
            now,
        );
        law_step_is_read_back(w.store, put.changes.last()->Step_0, id, seq as i64);
        assert(last_write(writes, key) is None);
    } else {
        law_commit_lands_whole(
            w.store,
            id,
            seq as i64,
            name,
            output,
            duration_ms as i64,
            writes,
            now,
            other,
            key,
            0,
        );
        let row = w.store.committed_row(id, seq as i64, name, output, duration_ms as i64, now);
        law_step_is_read_back(w.store, row, id, seq as i64);
        lemma_kv_steps(w.store.put(ChangeV::Step(row)), id, writes);
    }
}

proof fn lemma_kv_steps(s: StoreV, id: Seq<char>, writes: Seq<KvWriteV>)
    ensures
        s.kv_put(id, writes).tables.steps == s.tables.steps,
    decreases writes.len(),
{
    if writes.len() > 0 {
        lemma_kv_steps(s, id, writes.drop_last());
    }
}

/// A signal that a workflow consumes is in the journal as a step that is done, with the
/// payload as its output.
pub proof fn law_consumption_is_journaled(
    w: WorkerV,
    id: Seq<char>,
    seq: u32,
    name: Seq<char>,
    payload: JsonV,
    now: Seq<char>,
)
    requires
        is_keyed(w.store.tables),
    ensures
        ({
            let v = w.heard(id, FlowMsgV::SignalConsume { seq, name, payload }, now);
            let before = delivered(w.store.tables, id);
            let q = first_where(before, named(name));
            &&& v.store.tables.step(id, seq as i64) matches Some(r) && r.status == "success"@
                && r.step_name == "signal:"@ + name && r.output == Some(Some(payload))
            &&& delivered(v.store.tables, id) == if q < before.len() {
                before.remove(q)
            } else {
                before
            }
        }),
{
    let s = w.store.consumed(id, name);
    law_consumed_is_delivered_no_more(w.store, id, name, id);
    lemma_step_place(s.tables, id, seq as i64);
    let put = s.step_put(
        id,
        seq as i64,
        "signal:"@ + name,
        "success"@,
        Some(payload),
        None,
        Some(0),
        now,
    );
    law_step_is_read_back(s, put.changes.last()->Step_0, id, seq as i64);
    let v = w.heard(id, FlowMsgV::SignalConsume { seq, name, payload }, now);
    assert(v.store.tables.signals == s.tables.signals);
}

/// A message of one step leaves every other step as it was, of its workflow and of others.
pub proof fn law_other_steps_are_left_alone(
    w: WorkerV,
    id: Seq<char>,
    msg: FlowMsgV,
    now: Seq<char>,
    other: Seq<char>,
    place: i64,
)
    requires
        other != id || (match msg {
            FlowMsgV::StepStart { seq, .. } => seq as i64 != place,
            FlowMsgV::StepSkipped { seq, .. } => seq as i64 != place,
            FlowMsgV::StepFailure { seq, .. } => seq as i64 != place,
            FlowMsgV::StepResult { seq, .. } => seq as i64 != place,
            FlowMsgV::SignalConsume { seq, .. } => seq as i64 != place,
            _ => true,
        }),
    ensures
        w.heard(id, msg, now).store.tables.step(other, place) == w.store.tables.step(other, place),
{
    let s = match msg {
        FlowMsgV::SignalConsume { name, .. } => w.store.consumed(id, name),
        _ => w.store,
    };
    match msg {
        FlowMsgV::StepStart { seq, .. } => {
            lemma_step_place(s.tables, id, seq as i64);
            let v = w.stepped(id, msg, now);
            law_step_is_read_back(s, v.store.changes.last()->Step_0, other, place);
        },
        FlowMsgV::StepSkipped { seq, .. } => {
            lemma_step_place(s.tables, id, seq as i64);
            let v = w.stepped(id, msg, now);
            law_step_is_read_back(s, v.store.changes.last()->Step_0, other, place);
        },
        FlowMsgV::StepFailure { seq, .. } => {
            lemma_step_place(s.tables, id, seq as i64);
            let v = w.stepped(id, msg, now);
            law_step_is_read_back(s, v.store.changes.last()->Step_0, other, place);
        },
        FlowMsgV::StepResult { seq, name, duration_ms, output, writes } => {
            lemma_step_place(s.tables, id, seq as i64);
            if writes.len() == 0 {
                let took = duration_ms as i64;
                lemma_journaled_place(s, id, seq, name, output, took, now, other, place);
            } else {
                law_commit_lands_whole(
                    s,
                    id,
                    seq as i64,
                    name,
                    output,
                    duration_ms as i64,
                    writes,
                    now,
                    other,
                    name,
                    place,
                );
            }
        },
        FlowMsgV::SignalConsume { seq, name, payload } => {
            lemma_step_place(s.tables, id, seq as i64);
            assert(s.tables.steps == w.store.tables.steps);
            lemma_journaled_place(s, id, seq, "signal:"@ + name, payload, 0, now, other, place);
        },
        _ => {},
    }
}

proof fn lemma_journaled_place(
    s: StoreV,
    id: Seq<char>,
    seq: u32,
    name: Seq<char>,
    output: JsonV,
    duration_ms: i64,
    now: Seq<char>,
    other: Seq<char>,
    place: i64,
)
    requires
        other != id || seq as i64 != place,
    ensures
        s.step_put(id, seq as i64, name, "success"@, Some(output), None, Some(duration_ms), now)
            .tables.step(other, place) == s.tables.step(other, place),
{
    lemma_step_place(s.tables, id, seq as i64);
    let put = s.step_put(
        id,
        seq as i64,
        name,
        "success"@,
        Some(output),
        None,
        Some(duration_ms),
        now,
    );
    law_step_is_read_back(s, put.changes.last()->Step_0, other, place);
}

/// Every other message leaves the journal, the state and the signals alone.
pub proof fn law_other_messages_are_only_told(
    w: WorkerV,
    id: Seq<char>,
    msg: FlowMsgV,
    now: Seq<char>,
)
    requires
        match msg {
            FlowMsgV::StepStart { .. } => false,
            FlowMsgV::StepSkipped { .. } => false,
            FlowMsgV::StepFailure { .. } => false,
            FlowMsgV::StepResult { .. } => false,
            FlowMsgV::SignalConsume { .. } => false,
            _ => true,
        },
    ensures
        ({
            let t = w.heard(id, msg, now).store.tables;
            t == Tables { events: t.events, ..w.store.tables }
        }),
{
}

/// The journal of a workflow has an entry for each of its steps and for no other: its status
/// as the table has it, and its output, which is null where there is none that can be read.
pub proof fn law_journal_has_each_step(t: Tables, id: Seq<char>, seq: u32)
    requires
        is_keyed(t),
        is_numbered(t, id),
    ensures
        journal_of(t.steps, id).contains_key(seq) <==> t.step(id, seq as i64) is Some,
        t.step(id, seq as i64) matches Some(r) ==> journal_of(t.steps, id)[seq].status == r.status
            && journal_of(t.steps, id)[seq].output == match r.output {
            Some(Some(j)) => j,
            _ => JsonV::Null,
        },
{
    if t.step(id, seq as i64) is Some {
        law_journal_is_complete(t, id, seq);
    } else {
        lemma_first_where(t.steps, step_with(id, seq as i64));
        assert forall|i: int| 0 <= i < t.steps.len() implies !((#[trigger] t.steps[i]).workflow_id
            == id && t.steps[i].step_seq == seq as i64) by {
            assert(!step_with(id, seq as i64)(t.steps[i]));
        }
        lemma_no_entry(t.steps, id, seq);
    }
}

proof fn lemma_no_entry(rows: Seq<StepRowV>, id: Seq<char>, seq: u32)
    requires
        forall|i: int|
            0 <= i < rows.len() && (#[trigger] rows[i]).workflow_id == id ==> 0 <= rows[i].step_seq
                <= u32::MAX && rows[i].step_seq != seq as i64,
    ensures
        !journal_of(rows, id).contains_key(seq),
    decreases rows.len(),
{
    if rows.len() > 0 {
        let rest = rows.drop_last();
        assert forall|i: int| 0 <= i < rest.len() && (#[trigger] rest[i]).workflow_id == id implies 0
            <= rest[i].step_seq <= u32::MAX && rest[i].step_seq != seq as i64 by {
            assert(rest[i] == rows[i]);
        }
        lemma_no_entry(rest, id, seq);
        assert(rows[rows.len() - 1].workflow_id == id ==> rows[rows.len() - 1].step_seq
            != seq as i64);
    }
}

/// Only a result and a consumed signal are answered, under their sequence number; and only
/// the three last words say how an execution ends: well, with a value; badly; or parked.
pub proof fn law_answers_and_endings(msg: FlowMsgV)
    ensures
        match msg {
            FlowMsgV::StepResult { seq, .. } => answer(msg) == Some(seq) && ending(msg) is None,
            FlowMsgV::SignalConsume { seq, .. } => answer(msg) == Some(seq) && ending(msg) is None,
            FlowMsgV::WorkflowSuccess { output } => answer(msg) is None && ending(msg) == Some(
                TerminalV::Success(output),
            ),
            FlowMsgV::WorkflowFailure { .. } => answer(msg) is None && ending(msg) == Some(
                TerminalV::Failure,
            ),
            FlowMsgV::WorkflowPark { wake_at } => answer(msg) is None && ending(msg) == Some(
                TerminalV::Parked(wake_at),
            ),
            _ => answer(msg) is None && ending(msg) is None,
        },
{
}

// ---------------------------------------------------------------------------
// Events and log lines
// ---------------------------------------------------------------------------

/// The events of a workflow, for display.
pub open spec fn shown_events(t: Tables, id: Seq<char>) -> Seq<EventItem> {
    event_items(t.events.filter(events_of(id)))
}

/// The log lines of a workflow, for display.
pub open spec fn shown_logs(t: Tables, id: Seq<char>) -> Seq<LogLineV> {
    log_lines(t.logs.filter(logs_of(id)))
}

/// What is noted of a workflow is shown behind its other events, under a number above all
/// others, and told to clients under the same number. The events of other workflows are as
/// they were.
pub proof fn law_noted_is_shown(
    w: WorkerV,
    id: Seq<char>,
    kind: Seq<char>,
    payload: JsonV,
    now: Seq<char>,
    other: Seq<char>,
    i: int,
)
    requires
        is_keyed(w.store.tables),
        w.store.tables.events.len() == 0 || w.store.tables.events.last().id < i64::MAX,
    ensures
        ({
            let v = w.noted(id, kind, payload, now);
            let n = v.store.tables.events.last().id;
            &&& shown_events(v.store.tables, id) == shown_events(w.store.tables, id).push(
                (n, now, kind, payload),
            )
            &&& 0 <= i < w.store.tables.events.len() ==> w.store.tables.events[i].id < n
            &&& other != id ==> shown_events(v.store.tables, other) == shown_events(
                w.store.tables,
                other,
            )
            &&& v.store.tables == Tables { events: v.store.tables.events, ..w.store.tables }
            &&& v.sent.len() == w.sent.len() + 1 && v.sent.drop_last() == w.sent
            &&& v.sent.last().workflow_id == id && v.sent.last().seq == n && v.sent.last().ts == now
                && v.sent.last().kind == "event"@ && v.sent.last().payload == payload
            &&& v.launches == w.launches && v.active == w.active
        }),
{
    reveal(Seq::filter);
    let v = w.noted(id, kind, payload, now);
    let n = v.store.tables.events.last().id;
    assert(v.store.tables.events.drop_last() =~= w.store.tables.events);
    assert(shown_events(v.store.tables, id) =~= shown_events(w.store.tables, id).push(
        (n, now, kind, payload),
    ));
    if other != id {
        assert(shown_events(v.store.tables, other) =~= shown_events(w.store.tables, other));
    }
    assert(v.sent.drop_last() =~= w.sent);
    let last = w.store.tables.events.len() - 1;
    if 0 <= i < last {
        assert(w.store.tables.events[i].id < w.store.tables.events[last].id);
    }
}

/// A line that is logged of a workflow is shown behind its other lines, and told to clients.
/// The lines of other workflows are as they were.
pub proof fn law_logged_is_shown(
    w: WorkerV,
    id: Seq<char>,
    stream: Seq<char>,
    line: Seq<char>,
    now: Seq<char>,
    other: Seq<char>,
)
    requires
        w.store.tables.logs.len() == 0 || w.store.tables.logs.last().id < i64::MAX,
    ensures
        ({
            let v = w.logged(id, stream, line, now);
            &&& shown_logs(v.store.tables, id) == shown_logs(w.store.tables, id).push(
                LogLineV { ts: now, stream, line },
            )
            &&& other != id ==> shown_logs(v.store.tables, other) == shown_logs(
                w.store.tables,
                other,
            )
            &&& v.store.tables == Tables { logs: v.store.tables.logs, ..w.store.tables }
            &&& v.sent.len() == w.sent.len() + 1 && v.sent.drop_last() == w.sent
            &&& v.sent.last().workflow_id == id && v.sent.last().ts == now && v.sent.last().kind
                == "log"@ && v.sent.last().payload == JsonV::Obj(
                seq![("stream"@, JsonV::Str(stream)), ("line"@, JsonV::Str(line))],
            )
            &&& v.launches == w.launches && v.active == w.active
        }),
{
    reveal(Seq::filter);
    let v = w.logged(id, stream, line, now);
    assert(v.store.tables.logs.drop_last() =~= w.store.tables.logs);
    assert(shown_logs(v.store.tables, id) =~= shown_logs(w.store.tables, id).push(
        LogLineV { ts: now, stream, line },
    ));
    if other != id {
        assert(shown_logs(v.store.tables, other) =~= shown_logs(w.store.tables, other));
    }
    assert(v.sent.drop_last() =~= w.sent);
}

/// A blank line of a process is nothing. One that is no message is logged under the name of
/// the SDK, and one that is a message is told.
pub proof fn law_lines_are_sorted_out(
    w: WorkerV,
    id: Seq<char>,
    line: Seq<char>,
    msg: Option<FlowMsgV>,
    now: Seq<char>,
)
    ensures
        is_blank(line) ==> w.line_heard(id, line, msg, now) == w,
        !is_blank(line) && msg is None ==> w.line_heard(id, line, msg, now) == w.logged(
            id,
            "sdk"@,
            line,
            now,
        ),
        !is_blank(line) && msg is Some ==> w.line_heard(id, line, msg, now) == w.heard(
            id,
            msg.unwrap(),
            now,
        ),
{
}

/// Every message is told once, and the event that tells it is of the workflow that sent it.
pub proof fn law_message_is_told_once(w: WorkerV, id: Seq<char>, msg: FlowMsgV, now: Seq<char>)
    ensures
        ({
            let v = w.heard(id, msg, now);
            &&& v.sent.len() == w.sent.len() + 1 && v.sent.drop_last() == w.sent
            &&& v.sent.last().workflow_id == id && v.sent.last().kind == "event"@
                && v.sent.last().ts == now
            &&& v.sent.last().payload.field("type"@) == Some(
                JsonV::Str(
                    match msg {
                        FlowMsgV::WorkflowStart { .. } => "workflow_start"@,
                        FlowMsgV::StepStart { .. } => "step_start"@,
                        FlowMsgV::StepSkipped { .. } => "step_skipped"@,
                        FlowMsgV::StepResult { .. } => "step_success"@,
                        FlowMsgV::StepRetry { .. } => "step_retry"@,
                        FlowMsgV::StepFailure { .. } => "step_failure"@,
                        FlowMsgV::Log { .. } => "log"@,
                        FlowMsgV::WorkflowSuccess { .. } => "workflow_success"@,
                        FlowMsgV::WorkflowFailure { .. } => "workflow_failure"@,
                        FlowMsgV::WorkflowPark { .. } => "workflow_park"@,
                        FlowMsgV::SignalConsume { .. } => "step_success"@,
                    },
                ),
            )
            &&& v.launches == w.launches && v.active == w.active
        }),
{
    let v = w.heard(id, msg, now);
    assert(v.sent.drop_last() =~= w.sent);
    if let JsonV::Obj(m) = v.sent.last().payload {
        assert(named("type"@)(m[0]));
        lemma_first_where_is(m, named("type"@), 0);
    }
}

// ---------------------------------------------------------------------------
// State
// ---------------------------------------------------------------------------

proof fn lemma_kv_kept(s: Seq<KvRowV>, id: Seq<char>, q: int) -> (j: int)
    requires
        0 <= q < s.filter(kv_of(id)).len(),
    ensures
        0 <= j < s.len(),
        s[j] == s.filter(kv_of(id))[q],
        s[j].workflow_id == id,
    decreases s.len(),
{
    reveal(Seq::filter);
    let r = s.drop_last();
    if s.len() == 0 {
        0
    } else if q < r.filter(kv_of(id)).len() {
        let j = lemma_kv_kept(r, id, q);
        assert(r[j] == s[j]);
        j
    } else {
        s.len() - 1
    }
}

proof fn lemma_kv_at(s: Seq<KvRowV>, id: Seq<char>, i: int) -> (q: int)
    requires
        0 <= i < s.len(),
        s[i].workflow_id == id,
    ensures
        0 <= q < s.filter(kv_of(id)).len(),
        s.filter(kv_of(id))[q] == s[i],
    decreases s.len(),
{
    reveal(Seq::filter);
    let r = s.drop_last();
    if i == s.len() - 1 {
        s.filter(kv_of(id)).len() - 1
    } else {
        assert(r[i] == s[i]);
        lemma_kv_at(r, id, i)
    }
}

/// What is published of the state of a workflow has under each key what was last written
/// there, and no other keys.
pub proof fn law_query_reads_the_state(t: Tables, id: Seq<char>, m: Members, key: Seq<char>)
    requires
        is_keyed(t),
        is_state(t.kv, id, m),
    ensures
        lookup(m, key) == match t.state(id, key) {
            Some(r) => Some(
                match r.value {
                    Some(j) => j,
                    None => JsonV::Null,
                },
            ),
            None => None,
        },
{
    let f = t.kv.filter(kv_of(id));
    let all = state_members(f);
    let o = choose|o: Seq<int>| is_order(member_keys(all), o) && m == #[trigger] pick(all, o);
    lemma_first_where(t.kv, kv_with(id, key));
    lemma_first_where(m, named(key));
    let i = first_where(t.kv, kv_with(id, key));
    let a = first_where(m, named(key));
    if a < m.len() {
        assert(named(key)(m[a]));
        assert(0 <= o[a] < member_keys(all).len());
        let j = lemma_kv_kept(t.kv, id, o[a]);
        assert(kv_with(id, key)(t.kv[j]));
        if i < j {
            assert(kv_with(id, key)(t.kv[i]));
            assert((t.kv[i].workflow_id, t.kv[i].key) != (t.kv[j].workflow_id, t.kv[j].key));
        }
        if j < i {
            assert(!kv_with(id, key)(t.kv[j]));
        }
    } else if i < t.kv.len() {
        assert(kv_with(id, key)(t.kv[i]));
        let q = lemma_kv_at(t.kv, id, i);
        assert(o.contains(q));
        let b = choose|b: int| 0 <= b < o.len() && o[b] == q;
        assert(named(key)(m[b]));
    }
}

/// What is published of the state of a workflow is sorted by key.
pub proof fn law_query_is_sorted(t: Tables, id: Seq<char>, m: Members, a: int, b: int)
    requires
        is_state(t.kv, id, m),
        0 <= a < b < m.len(),
    ensures
        !crate::text::lex_less(m[b].0, m[a].0),
{
    let all = state_members(t.kv.filter(kv_of(id)));
    let keys = member_keys(all);
    let o = choose|o: Seq<int>| is_order(keys, o) && m == #[trigger] pick(all, o);
    assert(0 <= o[a] < keys.len() && 0 <= o[b] < keys.len());
    crate::order::lemma_before_differs(keys, o[a], o[b]);
}

// ---------------------------------------------------------------------------
// Steps for display
// ---------------------------------------------------------------------------

proof fn lemma_steps_kept(s: Seq<StepRowV>, id: Seq<char>, q: int) -> (j: int)
    requires
        0 <= q < s.filter(steps_of(id)).len(),
    ensures
        0 <= j < s.len(),
        s[j] == s.filter(steps_of(id))[q],
        s[j].workflow_id == id,
    decreases s.len(),
{
    reveal(Seq::filter);
    let r = s.drop_last();
    if s.len() == 0 {
        0
    } else if q < r.filter(steps_of(id)).len() {
        let j = lemma_steps_kept(r, id, q);
        assert(r[j] == s[j]);
        j
    } else {
        s.len() - 1
    }
}

proof fn lemma_steps_at(s: Seq<StepRowV>, id: Seq<char>, i: int) -> (q: int)
    requires
        0 <= i < s.len(),
        s[i].workflow_id == id,
    ensures
        0 <= q < s.filter(steps_of(id)).len(),
        s.filter(steps_of(id))[q] == s[i],
    decreases s.len(),
{
    reveal(Seq::filter);
    let r = s.drop_last();
    if i == s.len() - 1 {
        s.filter(steps_of(id)).len() - 1
    } else {
        assert(r[i] == s[i]);
        lemma_steps_at(r, id, i)
    }
}

/// Whether a step is shown as its row has it.
pub open spec fn shows(v: StepViewV, r: StepRowV) -> bool {
    v.seq == r.step_seq && v.name == r.step_name && v.status == r.status && v.duration_ms
        == r.duration_ms && v.error == r.error
}

/// Every step of a workflow is shown, as its row has it, and no step of another; in the
/// order of their sequence numbers.
pub proof fn law_steps_are_shown(t: Tables, id: Seq<char>, s: Seq<StepViewV>, i: int, a: int, b: int)
    requires
        is_step_list(t.steps, id, s),
    ensures
        0 <= i < t.steps.len() && t.steps[i].workflow_id == id ==> exists|k: int|
            0 <= k < s.len() && shows(#[trigger] s[k], t.steps[i]),
        0 <= a < s.len() ==> exists|j: int|
            0 <= j < t.steps.len() && (#[trigger] t.steps[j]).workflow_id == id && shows(
                s[a],
                t.steps[j],
            ),
        0 <= a < b < s.len() ==> s[a].seq <= s[b].seq,
{
    let f = t.steps.filter(steps_of(id));
    let all = step_views(f);
    let keys = seq_keys(all);
    let o = choose|o: Seq<int>| is_order(keys, o) && s == #[trigger] pick(all, o);
    if 0 <= i < t.steps.len() && t.steps[i].workflow_id == id {
        let q = lemma_steps_at(t.steps, id, i);
        assert(o.contains(q));
        let k = choose|k: int| 0 <= k < o.len() && o[k] == q;
        assert(shows(s[k], t.steps[i]));
    }
    if 0 <= a < s.len() {
        assert(0 <= o[a] < keys.len());
        let j = lemma_steps_kept(t.steps, id, o[a]);
        assert(shows(s[a], t.steps[j]));
    }
    if 0 <= a < b < s.len() {
        assert(0 <= o[b] < keys.len());
        crate::order::lemma_before_differs(keys, o[a], o[b]);
    }
}

} // verus!
