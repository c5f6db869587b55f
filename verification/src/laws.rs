//! What holds of the durable tables whatever is done to them.

use vstd::prelude::*;
use crate::config::DeploymentV;
use crate::json::JsonV;
use crate::protocol::KvWriteV;
use crate::rows::{
    DeploymentRowV, EventRowV, KvRowV, LogRowV, SignalRowV, StepRowV, WorkflowRowV,
};
use crate::store::argv_of_text;
use crate::tables::{
    deployment_named, deployment_of, find_row, kv_with, pending_signal, put_row,
    signal_with, step_with, workflow_with, ChangeV, StoreV, Tables,
};
use crate::text::{first_where, lemma_filter_take, lemma_first_where, lemma_first_where_is};

verus! {

// ---------------------------------------------------------------------------
// The changes tell the whole story
// ---------------------------------------------------------------------------

/// Whether a change of the tables numbers a row that it adds above all others.
pub open spec fn is_sound(t: Tables, c: ChangeV) -> bool {
    match c {
        ChangeV::Signal(r) => t.signals.len() > 0 ==> t.signals.last().id < r.id,
        ChangeV::Event(r) => t.events.len() > 0 ==> t.events.last().id < r.id,
        ChangeV::Log(r) => t.logs.len() > 0 ==> t.logs.last().id < r.id,
        _ => true,
    }
}

/// Whether each of several changes is sound where it is made.
pub open spec fn is_sound_run(t: Tables, cs: Seq<ChangeV>) -> bool
    decreases cs.len(),
{
    if cs.len() == 0 {
        true
    } else {
        is_sound_run(t, cs.drop_last()) && is_sound(t.replay(cs.drop_last()), cs.last())
    }
}

impl StoreV {
    /// The store after several changes.
    pub open spec fn after(self, cs: Seq<ChangeV>) -> StoreV {
        StoreV { tables: self.tables.replay(cs), changes: self.changes + cs }
    }
}

/// Whether a store comes from another by sound changes, all of which it remembers.
pub open spec fn comes_from(a: StoreV, b: StoreV) -> bool {
    exists|cs: Seq<ChangeV>| is_sound_run(a.tables, cs) && b == #[trigger] a.after(cs)
}

/// A store comes from itself.
pub proof fn lemma_comes_from_self(a: StoreV)
    ensures
        comes_from(a, a),
{
    let none = Seq::<ChangeV>::empty();
    assert(a.changes + none =~= a.changes);
    assert(a.after(none) == a);
    assert(is_sound_run(a.tables, none));
}

/// One more sound change.
pub proof fn lemma_comes_from_put(a: StoreV, b: StoreV, c: ChangeV)
    requires
        comes_from(a, b),
        is_sound(b.tables, c),
    ensures
        comes_from(a, b.put(c)),
{
    let cs = choose|cs: Seq<ChangeV>| is_sound_run(a.tables, cs) && b == #[trigger] a.after(cs);
    let more = cs.push(c);
    assert(more.drop_last() =~= cs);
    assert(a.changes + more =~= (a.changes + cs).push(c));
    assert(a.after(more) == b.put(c));
}

/// Changes that follow on others.
pub proof fn lemma_comes_from_trans(a: StoreV, b: StoreV, c: StoreV)
    requires
        comes_from(a, b),
        comes_from(b, c),
    ensures
        comes_from(a, c),
{
    let cs = choose|cs: Seq<ChangeV>| is_sound_run(b.tables, cs) && c == #[trigger] b.after(cs);
    lemma_comes_from_run(a, b, cs);
}

proof fn lemma_comes_from_run(a: StoreV, b: StoreV, cs: Seq<ChangeV>)
    requires
        comes_from(a, b),
        is_sound_run(b.tables, cs),
    ensures
        comes_from(a, b.after(cs)),
    decreases cs.len(),
{
    if cs.len() == 0 {
        assert(b.changes + cs =~= b.changes);
        assert(b.after(cs) == b);
    } else {
        lemma_comes_from_run(a, b, cs.drop_last());
        lemma_comes_from_put(a, b.after(cs.drop_last()), cs.last());
        assert(b.changes + cs =~= (b.changes + cs.drop_last()).push(cs.last()));
        assert(b.after(cs) == b.after(cs.drop_last()).put(cs.last()));
    }
}

/// The changes that a store hands out rebuild its tables: made one after the other
/// on the tables that it had when it last handed changes out, they give the tables
/// that it has.
pub proof fn law_changes_rebuild_tables(a: StoreV, b: StoreV)
    requires
        a.changes.len() == 0,
        comes_from(a, b),
    ensures
        a.tables.replay(b.changes) == b.tables,
{
    let cs = choose|cs: Seq<ChangeV>| is_sound_run(a.tables, cs) && b == #[trigger] a.after(cs);
    assert(a.changes + cs =~= cs);
}

/// Everything that is done to a workflow is told as changes.
pub proof fn law_workflow_changes_are_told(
    s: StoreV,
    id: Seq<char>,
    deployment: Seq<char>,
    trigger: Seq<char>,
    input: JsonV,
    version: Seq<char>,
    wake_at: Option<i64>,
    status: Seq<char>,
    output: Option<JsonV>,
    error: Option<Seq<char>>,
    now: Seq<char>,
)
    ensures
        comes_from(s, s.created(id, deployment, trigger, input, version, now)),
        comes_from(s, s.parked(id, wake_at, now)),
        comes_from(s, s.set_running(id, now)),
        comes_from(s, s.finished(id, status, output, error, now)),
        comes_from(s, s.attempted(id, now)),
{
    lemma_comes_from_self(s);
    lemma_workflow_put(s);
}

proof fn lemma_workflow_put(s: StoreV)
    ensures
        forall|r: WorkflowRowV| comes_from(s, #[trigger] s.put(ChangeV::Workflow(r))),
{
    lemma_comes_from_self(s);
    assert forall|r: WorkflowRowV| comes_from(s, #[trigger] s.put(ChangeV::Workflow(r))) by {
        lemma_comes_from_put(s, s, ChangeV::Workflow(r));
    }
}

/// Everything that is done to a step and to the state that it writes is told as
/// changes.
pub proof fn law_step_changes_are_told(
    s: StoreV,
    id: Seq<char>,
    seq: i64,
    name: Seq<char>,
    status: Seq<char>,
    output: Option<JsonV>,
    error: Option<Seq<char>>,
    duration_ms: Option<i64>,
    done: JsonV,
    took: i64,
    writes: Seq<KvWriteV>,
    now: Seq<char>,
)
    ensures
        comes_from(s, s.step_put(id, seq, name, status, output, error, duration_ms, now)),
        comes_from(s, s.committed(id, seq, name, done, took, writes, now)),
{
    lemma_comes_from_self(s);
    let put = s.step_put(id, seq, name, status, output, error, duration_ms, now);
    lemma_comes_from_put(s, s, put.changes.last());
    let row = s.committed_row(id, seq, name, done, took, now);
    lemma_comes_from_put(s, s, ChangeV::Step(row));
    lemma_comes_from_kv(s, s.put(ChangeV::Step(row)), id, writes);
}

proof fn lemma_comes_from_kv(a: StoreV, b: StoreV, id: Seq<char>, writes: Seq<KvWriteV>)
    requires
        comes_from(a, b),
    ensures
        comes_from(a, b.kv_put(id, writes)),
    decreases writes.len(),
{
    if writes.len() > 0 {
        lemma_comes_from_kv(a, b, id, writes.drop_last());
        let w = writes.last();
        lemma_comes_from_put(
            a,
            b.kv_put(id, writes.drop_last()),
            ChangeV::Kv(KvRowV { workflow_id: id, key: w.key, value: Some(w.value) }),
        );
    }
}

/// Everything that is done to deployments, signals, events and log lines is told
/// as changes.
pub proof fn law_other_changes_are_told(
    s: StoreV,
    d: DeploymentV,
    cmd: Seq<char>,
    id: Seq<char>,
    name: Seq<char>,
    payload: JsonV,
    stream: Seq<char>,
    line: Seq<char>,
    now: Seq<char>,
)
    ensures
        comes_from(s, s.deployed(d, cmd)),
        s.tables.next_signal() matches Some(k) ==> comes_from(
            s,
            s.signalled(k, id, name, payload, now),
        ),
        comes_from(s, s.consumed(id, name)),
        comes_from(s, s.event_added(id, name, payload, now)),
        comes_from(s, s.log_added(id, stream, line, now)),
{
    lemma_comes_from_self(s);
    lemma_comes_from_put(s, s, s.deployed(d, cmd).changes.last());
    if s.tables.next_signal() is Some {
        let k = s.tables.next_signal().unwrap();
        lemma_comes_from_put(s, s, s.signalled(k, id, name, payload, now).changes.last());
    }
    if find_row(s.tables.signals, pending_signal(id, name)) is Some {
        lemma_comes_from_put(s, s, s.consumed(id, name).changes.last());
    }
    if s.tables.next_event() is Some {
        lemma_comes_from_put(s, s, s.event_added(id, name, payload, now).changes.last());
    }
    if s.tables.next_log() is Some {
        lemma_comes_from_put(s, s, s.log_added(id, stream, line, now).changes.last());
    }
}

// ---------------------------------------------------------------------------
// Keys stay unique
// ---------------------------------------------------------------------------

/// Whether no two rows of a table have one key.
pub open spec fn distinct<T, K>(s: Seq<T>, key: spec_fn(T) -> K) -> bool {
    forall|i: int, j: int| 0 <= i < j < s.len() ==> key(#[trigger] s[i]) != key(#[trigger] s[j])
}

/// Whether the numbers of the rows of a table ascend.
pub open spec fn ascending<T>(s: Seq<T>, key: spec_fn(T) -> i64) -> bool {
    forall|i: int, j: int| 0 <= i < j < s.len() ==> key(#[trigger] s[i]) < key(#[trigger] s[j])
}

/// Whether the tables have the keys that they are declared with: each deployment
/// one name, each workflow one id, each step and each item of state one place, and
/// signals, events and log lines ascending numbers.
pub open spec fn is_keyed(t: Tables) -> bool {
    &&& distinct(t.deployments, |r: DeploymentRowV| r.name)
    &&& distinct(t.workflows, |r: WorkflowRowV| r.id)
    &&& distinct(t.kv, |r: KvRowV| (r.workflow_id, r.key))
    &&& distinct(t.steps, |r: StepRowV| (r.workflow_id, r.step_seq))
    &&& ascending(t.signals, |r: SignalRowV| r.id)
    &&& ascending(t.events, |r: EventRowV| r.id)
    &&& ascending(t.logs, |r: LogRowV| r.id)
}

proof fn lemma_put_distinct<T, K>(
    s: Seq<T>,
    key: spec_fn(T) -> K,
    p: spec_fn(T) -> bool,
    r: T,
)
    requires
        distinct(s, key),
        forall|x: T| #[trigger] p(x) <==> key(x) == key(r),
    ensures
        distinct(put_row(s, p, r), key),
{
    lemma_first_where(s, p);
    let i = first_where(s, p);
    let t = put_row(s, p, r);
    assert forall|a: int, b: int| 0 <= a < b < t.len() implies key(#[trigger] t[a]) != key(
        #[trigger] t[b],
    ) by {
        if i < s.len() {
            assert(p(s[i]));
            if a != i {
                assert(t[a] == s[a]);
            }
            if b != i {
                assert(t[b] == s[b]);
            }
        } else {
            assert(t[a] == s[a]);
            assert(!p(s[a]));
            if b < s.len() {
                assert(t[b] == s[b]);
            }
        }
    }
}

proof fn lemma_push_ascending<T>(s: Seq<T>, key: spec_fn(T) -> i64, r: T)
    requires
        ascending(s, key),
        s.len() > 0 ==> key(s.last()) < key(r),
    ensures
        ascending(s.push(r), key),
{
    let t = s.push(r);
    assert forall|a: int, b: int| 0 <= a < b < t.len() implies key(#[trigger] t[a]) < key(
        #[trigger] t[b],
    ) by {
        assert(t[a] == s[a]);
        if b < s.len() {
            assert(t[b] == s[b]);
        } else if a < s.len() - 1 {
            assert(key(s[a]) < key(s[s.len() - 1]));
        }
    }
}

/// A sound change keeps the keys.
pub proof fn law_change_keeps_keys(t: Tables, c: ChangeV)
    requires
        is_keyed(t),
        is_sound(t, c),
    ensures
        is_keyed(t.apply(c)),
{
    match c {
        ChangeV::Deployment(r) => {
            lemma_put_distinct(
                t.deployments,
                |r: DeploymentRowV| r.name,
                deployment_named(r.name),
                r,
            );
        },
        ChangeV::Workflow(r) => {
            lemma_put_distinct(t.workflows, |r: WorkflowRowV| r.id, workflow_with(r.id), r);
        },
        ChangeV::Kv(r) => {
            lemma_put_distinct(
                t.kv,
                |r: KvRowV| (r.workflow_id, r.key),
                kv_with(r.workflow_id, r.key),
                r,
            );
        },
        ChangeV::Step(r) => {
            lemma_put_distinct(
                t.steps,
                |r: StepRowV| (r.workflow_id, r.step_seq),
                step_with(r.workflow_id, r.step_seq),
                r,
            );
        },
        ChangeV::Signal(r) => {
            lemma_push_ascending(t.signals, |r: SignalRowV| r.id, r);
        },
        ChangeV::Consumed(id) => {
            let i = first_where(t.signals, signal_with(id));
            lemma_first_where(t.signals, signal_with(id));
            if i < t.signals.len() {
                let u = t.apply(c).signals;
                assert forall|a: int, b: int| 0 <= a < b < u.len() implies (#[trigger] u[a]).id < (
                #[trigger] u[b]).id by {
                    assert(u[a].id == t.signals[a].id);
                    assert(u[b].id == t.signals[b].id);
                }
            }
        },
        ChangeV::Event(r) => {
            lemma_push_ascending(t.events, |r: EventRowV| r.id, r);
        },
        ChangeV::Log(r) => {
            lemma_push_ascending(t.logs, |r: LogRowV| r.id, r);
        },
    }
}

/// Whatever is done, the keys are kept.
pub proof fn law_keys_are_kept(a: StoreV, b: StoreV)
    requires
        is_keyed(a.tables),
        comes_from(a, b),
    ensures
        is_keyed(b.tables),
{
    let cs = choose|cs: Seq<ChangeV>| is_sound_run(a.tables, cs) && b == #[trigger] a.after(cs);
    lemma_run_keeps_keys(a.tables, cs);
}

proof fn lemma_run_keeps_keys(t: Tables, cs: Seq<ChangeV>)
    requires
        is_keyed(t),
        is_sound_run(t, cs),
    ensures
        is_keyed(t.replay(cs)),
    decreases cs.len(),
{
    if cs.len() > 0 {
        lemma_run_keeps_keys(t, cs.drop_last());
        law_change_keeps_keys(t.replay(cs.drop_last()), cs.last());
    }
}

/// A database without a row has its keys.
pub proof fn law_empty_is_keyed()
    ensures
        is_keyed(Tables::empty()),
{
}

// ---------------------------------------------------------------------------
// What a read gives back of a write
// ---------------------------------------------------------------------------

/// A row that is written is found.
pub proof fn lemma_put_finds<T>(s: Seq<T>, p: spec_fn(T) -> bool, r: T)
    requires
        p(r),
    ensures
        find_row(put_row(s, p, r), p) == Some(r),
{
    lemma_first_where(s, p);
    let i = first_where(s, p);
    let t = put_row(s, p, r);
    assert forall|j: int| 0 <= j < i implies !p(#[trigger] t[j]) by {
        assert(t[j] == s[j]);
    }
    lemma_first_where_is(t, p, i);
}

/// A row that is written leaves those with other keys alone.
pub proof fn lemma_put_keeps<T>(s: Seq<T>, p: spec_fn(T) -> bool, q: spec_fn(T) -> bool, r: T)
    requires
        !q(r),
        forall|x: T| #[trigger] p(x) ==> !q(x),
    ensures
        find_row(put_row(s, p, r), q) == find_row(s, q),
{
    lemma_first_where(s, p);
    lemma_first_where(s, q);
    let i = first_where(s, p);
    let k = first_where(s, q);
    let t = put_row(s, p, r);
    if i < s.len() {
        assert(p(s[i]));
    }
    assert forall|j: int| 0 <= j < k implies !q(#[trigger] t[j]) by {
        if j != i {
            assert(t[j] == s[j]);
        }
    }
    if k < s.len() {
        assert(t[k] == s[k]);
        lemma_first_where_is(t, q, k);
    } else {
        assert forall|j: int| 0 <= j < t.len() implies !q(#[trigger] t[j]) by {
            if j < s.len() && j != i {
                assert(t[j] == s[j]);
            }
        }
        lemma_first_where_is(t, q, t.len() as int);
    }
}

/// A workflow that is written is read back, and the others are as they were.
pub proof fn law_workflow_is_read_back(s: StoreV, r: WorkflowRowV, other: Seq<char>)
    ensures
        s.put(ChangeV::Workflow(r)).tables.workflow(r.id) == Some(r),
        other != r.id ==> s.put(ChangeV::Workflow(r)).tables.workflow(other) == s.tables.workflow(
            other,
        ),
{
    lemma_put_finds(s.tables.workflows, workflow_with(r.id), r);
    if other != r.id {
        lemma_put_keeps(s.tables.workflows, workflow_with(r.id), workflow_with(other), r);
    }
}

/// The workflow that an id finds has that id.
pub proof fn lemma_workflow_id(t: Tables, id: Seq<char>)
    ensures
        t.workflow(id) matches Some(r) ==> r.id == id,
{
    lemma_first_where(t.workflows, workflow_with(id));
}

/// A deployment that is written is read back as it was given.
pub proof fn law_deployment_is_read_back(s: StoreV, d: DeploymentV, cmd: Seq<char>)
    requires
        argv_of_text(cmd) == Some(d.cmd),
    ensures
        s.deployed(d, cmd).tables.deployment(d.name) matches Some(r) && deployment_of(r) == Some(d),
{
    let row = crate::tables::deployment_row(d, cmd);
    lemma_put_finds(s.tables.deployments, deployment_named(d.name), row);
    assert(deployment_of(row).unwrap() =~= d);
}

/// A submitted workflow is read back running, with no attempt behind it.
pub proof fn law_created_is_read_back(
    s: StoreV,
    id: Seq<char>,
    deployment: Seq<char>,
    trigger: Seq<char>,
    input: JsonV,
    version: Seq<char>,
    now: Seq<char>,
)
    ensures
        s.created(id, deployment, trigger, input, version, now).tables.get_workflow(id) matches Some(
            w,
        ) && w.status == "running"@ && w.deployment == deployment && w.trigger == trigger && w.input
            == input && w.version == version && w.attempts == 0 && w.output is None && w.error is None,
{
    let t = s.created(id, deployment, trigger, input, version, now);
    law_workflow_is_read_back(s, t.changes.last()->Workflow_0, id);
}

/// Parking a workflow and making it run again leaves its row as it was but for its
/// time of change, and leaves the journal and the state alone.
pub proof fn law_park_and_resume(
    s: StoreV,
    id: Seq<char>,
    wake_at: Option<i64>,
    now: Seq<char>,
    later: Seq<char>,
)
    requires
        s.tables.workflow(id) matches Some(r) && r.status == "running"@ && r.wake_at is None,
    ensures
        ({
            let parked = s.parked(id, wake_at, now);
            let back = parked.set_running(id, later);
            &&& parked.tables.workflow(id) matches Some(p) && p.wake_at == wake_at && p.status == if wake_at is Some {
                "sleeping"@
            } else {
                "waiting"@
            }
            &&& back.tables.workflow(id) == Some(
                WorkflowRowV { updated_at: later, ..s.tables.workflow(id).unwrap() },
            )
            &&& back.tables == Tables { workflows: back.tables.workflows, ..s.tables }
        }),
{
    lemma_workflow_id(s.tables, id);
    let parked = s.parked(id, wake_at, now);
    law_workflow_is_read_back(s, parked.changes.last()->Workflow_0, id);
    let back = parked.set_running(id, later);
    law_workflow_is_read_back(parked, back.changes.last()->Workflow_0, id);
    assert(back.tables.workflow(id).unwrap() =~= WorkflowRowV {
        updated_at: later,
        ..s.tables.workflow(id).unwrap()
    });
}

// ---------------------------------------------------------------------------
// The journal
// ---------------------------------------------------------------------------

/// The step that a place finds has that place.
pub proof fn lemma_step_place(t: Tables, id: Seq<char>, seq: i64)
    ensures
        t.step(id, seq) matches Some(r) ==> r.workflow_id == id && r.step_seq == seq,
{
    lemma_first_where(t.steps, step_with(id, seq));
}

/// A step that is written is read back, and the others are as they were.
pub proof fn law_step_is_read_back(s: StoreV, r: StepRowV, id: Seq<char>, seq: i64)
    ensures
        s.put(ChangeV::Step(r)).tables.step(r.workflow_id, r.step_seq) == Some(r),
        !(id == r.workflow_id && seq == r.step_seq) ==> s.put(ChangeV::Step(r)).tables.step(id, seq)
            == s.tables.step(id, seq),
{
    lemma_put_finds(s.tables.steps, step_with(r.workflow_id, r.step_seq), r);
    if !(id == r.workflow_id && seq == r.step_seq) {
        lemma_put_keeps(
            s.tables.steps,
            step_with(r.workflow_id, r.step_seq),
            step_with(id, seq),
            r,
        );
    }
}

/// The output that the journal has of a step survives every later word of that
/// step that brings no output: that it started again, was skipped or failed.
pub proof fn law_output_survives(
    s: StoreV,
    id: Seq<char>,
    seq: i64,
    name: Seq<char>,
    status: Seq<char>,
    error: Option<Seq<char>>,
    now: Seq<char>,
)
    requires
        s.tables.step(id, seq) is Some,
    ensures
        ({
            let before = s.tables.step(id, seq).unwrap();
            let after = s.step_put(id, seq, name, status, None, error, None, now).tables.step(
                id,
                seq,
            );
            after matches Some(r) && r.output == before.output && r.duration_ms
                == before.duration_ms && r.started_at == before.started_at
        }),
{
    lemma_step_place(s.tables, id, seq);
    let after = s.step_put(id, seq, name, status, None, error, None, now);
    law_step_is_read_back(s, after.changes.last()->Step_0, id, seq);
}

/// A step that starts for the first time is in the journal without an output and
/// without an end.
pub proof fn law_first_start(s: StoreV, id: Seq<char>, seq: i64, name: Seq<char>, now: Seq<char>)
    requires
        s.tables.step(id, seq) is None,
    ensures
        s.step_put(id, seq, name, "started"@, None, None, None, now).tables.step(id, seq) matches Some(
            r,
        ) && r.status == "started"@ && r.output is None && r.finished_at is None && r.started_at == now,
{
    let after = s.step_put(id, seq, name, "started"@, None, None, None, now);
    law_step_is_read_back(s, after.changes.last()->Step_0, id, seq);
}

/// The item of state that a place finds has that place.
proof fn lemma_kv_read_back(s: StoreV, r: KvRowV, id: Seq<char>, key: Seq<char>)
    ensures
        s.put(ChangeV::Kv(r)).tables.state(r.workflow_id, r.key) == Some(r),
        !(id == r.workflow_id && key == r.key) ==> s.put(ChangeV::Kv(r)).tables.state(id, key)
            == s.tables.state(id, key),
{
    lemma_put_finds(s.tables.kv, kv_with(r.workflow_id, r.key), r);
    if !(id == r.workflow_id && key == r.key) {
        lemma_put_keeps(s.tables.kv, kv_with(r.workflow_id, r.key), kv_with(id, key), r);
    }
}

/// What was last written under a key.
pub open spec fn last_write(writes: Seq<KvWriteV>, key: Seq<char>) -> Option<JsonV>
    decreases writes.len(),
{
    if writes.len() == 0 {
        None
    } else if writes.last().key == key {
        Some(writes.last().value)
    } else {
        last_write(writes.drop_last(), key)
    }
}

proof fn lemma_writes(
    s: StoreV,
    id: Seq<char>,
    writes: Seq<KvWriteV>,
    other: Seq<char>,
    key: Seq<char>,
)
    ensures
        ({
            let t = s.kv_put(id, writes).tables;
            &&& t == Tables { kv: t.kv, ..s.tables }
            &&& t.state(other, key) == if other == id && last_write(writes, key) is Some {
                Some(
                    KvRowV {
                        workflow_id: id,
                        key,
                        value: Some(last_write(writes, key).unwrap()),
                    },
                )
            } else {
                s.tables.state(other, key)
            }
        }),
    decreases writes.len(),
{
    if writes.len() > 0 {
        lemma_writes(s, id, writes.drop_last(), other, key);
        let w = writes.last();
        let row = KvRowV { workflow_id: id, key: w.key, value: Some(w.value) };
        lemma_kv_read_back(s.kv_put(id, writes.drop_last()), row, other, key);
    }
}

/// A committed step and its durable writes land together: the journal has the step
/// as done with its output, the state has what was last written under each key,
/// and everything else is as it was.
pub proof fn law_commit_lands_whole(
    s: StoreV,
    id: Seq<char>,
    seq: i64,
    name: Seq<char>,
    output: JsonV,
    duration_ms: i64,
    writes: Seq<KvWriteV>,
    now: Seq<char>,
    other: Seq<char>,
    key: Seq<char>,
    place: i64,
)
    ensures
        ({
            let t = s.committed(id, seq, name, output, duration_ms, writes, now).tables;
            &&& t.step(id, seq) matches Some(r) && r.status == "success"@ && r.output == Some(
                Some(output),
            ) && r.duration_ms == Some(duration_ms)
            &&& !(other == id && place == seq) ==> t.step(other, place) == s.tables.step(other, place)
            &&& t.state(other, key) == if other == id && last_write(writes, key) is Some {
                Some(
                    KvRowV {
                        workflow_id: id,
                        key,
                        value: Some(last_write(writes, key).unwrap()),
                    },
                )
            } else {
                s.tables.state(other, key)
            }
            &&& t == Tables { steps: t.steps, kv: t.kv, ..s.tables }
        }),
{
    lemma_step_place(s.tables, id, seq);
    let row = s.committed_row(id, seq, name, output, duration_ms, now);
    law_step_is_read_back(s, row, other, place);
    law_step_is_read_back(s, row, id, seq);
    lemma_writes(s.put(ChangeV::Step(row)), id, writes, other, key);
}

/// A committed step and its durable writes are told side by side, the step first.
pub proof fn law_commit_is_one_batch(
    s: StoreV,
    id: Seq<char>,
    seq: i64,
    name: Seq<char>,
    output: JsonV,
    duration_ms: i64,
    writes: Seq<KvWriteV>,
    now: Seq<char>,
)
    ensures
        s.committed(id, seq, name, output, duration_ms, writes, now).changes == s.changes.push(
            ChangeV::Step(s.committed_row(id, seq, name, output, duration_ms, now)),
        ) + Seq::new(
            writes.len(),
            |i: int|
                ChangeV::Kv(
                    KvRowV { workflow_id: id, key: writes[i].key, value: Some(writes[i].value) },
                ),
        ),
{
    let row = s.committed_row(id, seq, name, output, duration_ms, now);
    lemma_kv_changes(s.put(ChangeV::Step(row)), id, writes);
}

proof fn lemma_kv_changes(s: StoreV, id: Seq<char>, writes: Seq<KvWriteV>)
    ensures
        s.kv_put(id, writes).changes == s.changes + Seq::new(
            writes.len(),
            |i: int|
                ChangeV::Kv(
                    KvRowV { workflow_id: id, key: writes[i].key, value: Some(writes[i].value) },
                ),
        ),
    decreases writes.len(),
{
    if writes.len() > 0 {
        lemma_kv_changes(s, id, writes.drop_last());
    }
    assert(s.kv_put(id, writes).changes =~= s.changes + Seq::new(
        writes.len(),
        |i: int|
            ChangeV::Kv(
                KvRowV { workflow_id: id, key: writes[i].key, value: Some(writes[i].value) },
            ),
    ));
}

// ---------------------------------------------------------------------------
// Signals
// ---------------------------------------------------------------------------

proof fn lemma_filter_same<T>(s: Seq<T>, t: Seq<T>, p: spec_fn(T) -> bool, i: int, n: int)
    requires
        s.len() == t.len(),
        0 <= i < s.len(),
        i < n <= s.len(),
        forall|j: int| 0 <= j < s.len() && j != i ==> s[j] == t[j],
        forall|j: int| 0 <= j < i ==> !p(#[trigger] s[j]),
        p(s[i]),
        !p(t[i]),
    ensures
        s.take(n).filter(p) == seq![s[i]] + t.take(n).filter(p),
    decreases n,
{
    lemma_filter_take(s, p, n - 1);
    lemma_filter_take(t, p, n - 1);
    if n - 1 == i {
        lemma_filter_none(s, p, i);
        assert forall|j: int| 0 <= j < i implies !p(#[trigger] t[j]) by {
            assert(s[j] == t[j]);
        }
        lemma_filter_none(t, p, i);
        assert(s.take(n).filter(p) =~= seq![s[i]] + t.take(n).filter(p));
    } else {
        lemma_filter_same(s, t, p, i, n - 1);
        assert(s[n - 1] == t[n - 1]);
        assert(s.take(n).filter(p) =~= seq![s[i]] + t.take(n).filter(p));
    }
}

proof fn lemma_filter_none<T>(s: Seq<T>, p: spec_fn(T) -> bool, n: int)
    requires
        0 <= n <= s.len(),
        forall|j: int| 0 <= j < n ==> !p(#[trigger] s[j]),
    ensures
        s.take(n).filter(p) == Seq::<T>::empty(),
    decreases n,
{
    reveal(Seq::filter);
    if n > 0 {
        lemma_filter_none(s, p, n - 1);
        lemma_filter_take(s, p, n - 1);
    }
}

/// A signal is consumed once: consuming takes away the oldest unconsumed signal of
/// that name and no other.
pub proof fn law_signal_is_consumed_once(s: StoreV, id: Seq<char>, name: Seq<char>)
    requires
        is_keyed(s.tables),
    ensures
        ({
            let p = pending_signal(id, name);
            let before = s.tables.signals.filter(p);
            let after = s.consumed(id, name).tables.signals.filter(p);
            if before.len() == 0 {
                after == before
            } else {
                before == seq![before[0]] + after
            }
        }),
{
    let p = pending_signal(id, name);
    let sig = s.tables.signals;
    let n = sig.len() as int;
    let i = first_where(sig, p);
    lemma_first_where(sig, p);
    assert(sig.take(n) =~= sig);
    if i == n {
        lemma_filter_none(sig, p, n);
    } else {
        let k = sig[i].id;
        lemma_first_where(sig, signal_with(k));
        let j = first_where(sig, signal_with(k));
        assert(sig[i].id == k);
        if i < j {
            assert(!signal_with(k)(sig[i]));
        }
        if j < i {
            assert(sig[j].id < sig[i].id);
        }
        let t = s.consumed(id, name).tables.signals;
        assert(t.take(n) =~= t);
        lemma_filter_same(sig, t, p, i, n);
    }
}

/// A signal that was added is the youngest unconsumed one of its name.
pub proof fn law_signal_is_delivered(
    s: StoreV,
    k: i64,
    id: Seq<char>,
    name: Seq<char>,
    payload: JsonV,
    now: Seq<char>,
)
    ensures
        ({
            let p = pending_signal(id, name);
            let after = s.signalled(k, id, name, payload, now).tables.signals;
            after.filter(p) == s.tables.signals.filter(p).push(after.last())
        }),
{
    reveal(Seq::filter);
    let after = s.signalled(k, id, name, payload, now).tables.signals;
    assert(after.drop_last() =~= s.tables.signals);
}

} // verus!
