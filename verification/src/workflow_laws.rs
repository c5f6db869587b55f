//! What holds of workflows whatever their processes do.

use vstd::prelude::*;
use crate::config::DeploymentV;
use crate::json::{merge_of, JsonV};
use crate::laws::{
    comes_from, distinct, is_keyed, law_commit_lands_whole, law_keys_are_kept,
    law_other_changes_are_told, law_step_changes_are_told, law_step_is_read_back,
    law_workflow_changes_are_told, law_workflow_is_read_back, lemma_comes_from_self,
    lemma_comes_from_trans, lemma_step_place, lemma_workflow_id,
};
use crate::order::{is_order, pick};
use crate::protocol::{opt_real_of, FlowMsgV, KvWriteV};
use crate::rows::StepRowV;
use crate::store::{StepRecordV, StoreError, WorkflowV};
use crate::tables::{
    created_keys, is_due, is_running, is_running_list, journal_of, record_of, running_of, step_with,
    workflow_of, workflows_of, ChangeV, StoreV, Tables,
};
use crate::text::{first_where, is_blank, lemma_filter_take, lemma_first_where};
use crate::worker::{
    answer, ending, fresh_id, step_success, typed, version, ExecResultV, LaunchV, TerminalV,
    TriggerError, WorkerV, WrittenV,
};

verus! {

// ---------------------------------------------------------------------------
// Everything the worker does is durable
// ---------------------------------------------------------------------------

proof fn lemma_noted(w: WorkerV, id: Seq<char>, kind: Seq<char>, payload: JsonV, now: Seq<char>)
    ensures
        comes_from(w.store, w.noted(id, kind, payload, now).store),
{
    law_other_changes_are_told(w.store, arbitrary(), arbitrary(), id, kind, payload, kind, kind, now);
}

/// Every submission is told as changes, whatever comes of it.
pub proof fn law_trigger_is_told(
    w: WorkerV,
    dep: DeploymentV,
    trigger: Seq<char>,
    extra: JsonV,
    id: Option<Seq<char>>,
    token: Seq<char>,
    now: Seq<char>,
)
    ensures
        comes_from(w.store, w.triggered(dep, trigger, extra, id, token, now).0.store),
{
    lemma_comes_from_self(w.store);
    let wid = match id {
        Some(wid) => wid,
        None => fresh_id(token),
    };
    law_workflow_changes_are_told(
        w.store,
        wid,
        dep.name,
        trigger,
        merge_of(JsonV::Obj(dep.params), extra),
        version(dep.cmd),
        None,
        wid,
        None,
        None,
        now,
    );
}

/// Every resumption is told as changes.
pub proof fn law_resume_is_told(w: WorkerV, wf: WorkflowV, event: Seq<char>, now: Seq<char>)
    ensures
        comes_from(w.store, w.resumed(wf, event, now).store),
{
    let removed = "deployment removed"@;
    let mismatch = "version mismatch: deployment command changed since submission"@;
    law_workflow_changes_are_told(
        w.store,
        wf.id,
        wf.id,
        wf.id,
        wf.input,
        wf.id,
        None,
        "failed"@,
        None,
        Some(removed),
        now,
    );
    law_workflow_changes_are_told(
        w.store,
        wf.id,
        wf.id,
        wf.id,
        wf.input,
        wf.id,
        None,
        "failed"@,
        None,
        Some(mismatch),
        now,
    );
    let run = w.with_store(w.store.set_running(wf.id, now));
    lemma_noted(run, wf.id, event, typed(event), now);
    lemma_comes_from_trans(
        w.store,
        run.store,
        run.noted(wf.id, event, typed(event), now).store,
    );
}

/// Recovery is told as changes.
pub proof fn law_recovery_is_told(w: WorkerV, ws: Seq<WorkflowV>, event: Seq<char>, now: Seq<char>)
    ensures
        comes_from(w.store, w.resumed_all(ws, event, now).store),
    decreases ws.len(),
{
    if ws.len() == 0 {
        lemma_comes_from_self(w.store);
    } else {
        law_recovery_is_told(w, ws.drop_last(), event, now);
        let v = w.resumed_all(ws.drop_last(), event, now);
        law_resume_is_told(v, ws.last(), event, now);
        lemma_comes_from_trans(w.store, v.store, v.resumed(ws.last(), event, now).store);
    }
}

/// Waking is told as changes.
pub proof fn law_waking_is_told(w: WorkerV, ws: Seq<WorkflowV>, id: Seq<char>, now: Seq<char>)
    ensures
        comes_from(w.store, w.woken(ws, now).store),
        comes_from(w.store, w.signalled(id, now).store),
    decreases ws.len(),
{
    lemma_comes_from_self(w.store);
    if let Some(wf) = w.store.tables.get_workflow(id) {
        law_resume_is_told(w, wf, "workflow_signalled"@, now);
    }
    if ws.len() > 0 {
        law_waking_is_told(w, ws.drop_last(), id, now);
        let v = w.woken(ws.drop_last(), now);
        law_resume_is_told(v, ws.last(), "workflow_wake"@, now);
        lemma_comes_from_self(v.store);
        lemma_comes_from_trans(w.store, v.store, w.woken(ws, now).store);
    }
}

proof fn lemma_journaled(
    w: WorkerV,
    id: Seq<char>,
    seq: u32,
    name: Seq<char>,
    output: JsonV,
    duration_ms: u64,
    now: Seq<char>,
)
    ensures
        comes_from(w.store, w.journaled(id, seq, name, output, duration_ms, now).store),
{
    law_step_changes_are_told(
        w.store,
        id,
        seq as i64,
        name,
        "success"@,
        Some(output),
        None,
        Some(duration_ms as i64),
        output,
        0,
        Seq::empty(),
        now,
    );
    let v = w.with_store(
        w.store.step_put(
            id,
            seq as i64,
            name,
            "success"@,
            Some(output),
            None,
            Some(duration_ms as i64),
            now,
        ),
    );
    let payload = JsonV::Obj(step_success(seq, name, duration_ms));
    lemma_noted(v, id, "step_success"@, payload, now);
    lemma_comes_from_trans(
        w.store,
        v.store,
        v.noted(id, "step_success"@, payload, now).store,
    );
}

proof fn lemma_applied(w: WorkerV, id: Seq<char>, msg: FlowMsgV, now: Seq<char>)
    ensures
        comes_from(w.store, w.applied(id, msg, now).store),
{
    lemma_comes_from_self(w.store);
    match msg {
        FlowMsgV::StepStart { seq, name, .. } => {
            law_step_changes_are_told(
                w.store,
                id,
                seq as i64,
                name,
                "started"@,
                None,
                None,
                None,
                JsonV::Null,
                0,
                Seq::empty(),
                now,
            );
        },
        FlowMsgV::StepSkipped { seq, name, .. } => {
            law_step_changes_are_told(
                w.store,
                id,
                seq as i64,
                name,
                w.skip_status(id, seq),
                None,
                None,
                Some(0),
                JsonV::Null,
                0,
                Seq::empty(),
                now,
            );
        },
        FlowMsgV::StepFailure { seq, name, duration_ms, error } => {
            law_step_changes_are_told(
                w.store,
                id,
                seq as i64,
                name,
                "failed"@,
                None,
                Some(error),
                Some(duration_ms as i64),
                JsonV::Null,
                0,
                Seq::empty(),
                now,
            );
        },
        _ => {},
    }
    let v = w.stepped(id, msg, now);
    lemma_noted(v, id, msg.kind(), msg.json(), now);
    lemma_comes_from_trans(w.store, v.store, v.noted(id, msg.kind(), msg.json(), now).store);
}

proof fn lemma_heard(w: WorkerV, id: Seq<char>, msg: FlowMsgV, now: Seq<char>)
    ensures
        comes_from(w.store, w.heard(id, msg, now).store),
{
    match msg {
        FlowMsgV::StepResult { seq, name, duration_ms, output, writes } => {
            if writes.len() == 0 {
                lemma_journaled(w, id, seq, name, output, duration_ms, now);
            } else {
                law_step_changes_are_told(
                    w.store,
                    id,
                    seq as i64,
                    name,
                    name,
                    None,
                    None,
                    None,
                    output,
                    duration_ms as i64,
                    writes,
                    now,
                );
                let v = w.with_store(
                    w.store.committed(
                        id,
                        seq as i64,
                        name,
                        output,
                        duration_ms as i64,
                        writes,
                        now,
                    ),
                );
                let payload = JsonV::Obj(
                    step_success(seq, name, duration_ms).push(
                        ("writes"@, JsonV::Int(writes.len() as int)),
                    ),
                );
                lemma_noted(v, id, "step_success"@, payload, now);
                lemma_comes_from_trans(
                    w.store,
                    v.store,
                    v.noted(id, "step_success"@, payload, now).store,
                );
            }
        },
        FlowMsgV::SignalConsume { seq, name, payload } => {
            law_other_changes_are_told(
                w.store,
                arbitrary(),
                arbitrary(),
                id,
                name,
                payload,
                name,
                name,
                now,
            );
            let v = w.with_store(w.store.consumed(id, name));
            lemma_journaled(v, id, seq, "signal:"@ + name, payload, 0, now);
            lemma_comes_from_trans(
                w.store,
                v.store,
                v.journaled(id, seq, "signal:"@ + name, payload, 0, now).store,
            );
        },
        FlowMsgV::WorkflowPark { wake_at } => {
            lemma_noted(
                w,
                id,
                "workflow_park"@,
                JsonV::Obj(
                    seq![
                        ("type"@, JsonV::Str("workflow_park"@)),
                        ("wake_at"@, opt_real_of(wake_at)),
                    ],
                ),
                now,
            );
        },
        _ => {
            lemma_applied(w, id, msg, now);
        },
    }
}

/// Every line of a workflow's process is told as changes.
pub proof fn law_line_is_told(
    w: WorkerV,
    id: Seq<char>,
    line: Seq<char>,
    msg: Option<FlowMsgV>,
    now: Seq<char>,
)
    ensures
        comes_from(w.store, w.line_heard(id, line, msg, now).store),
{
    lemma_comes_from_self(w.store);
    law_other_changes_are_told(
        w.store,
        arbitrary(),
        arbitrary(),
        id,
        line,
        JsonV::Null,
        "sdk"@,
        line,
        now,
    );
    if let Some(m) = msg {
        lemma_heard(w, id, m, now);
    }
}

/// The consequence of every execution, and the end of every supervision, is told as
/// changes.
pub proof fn law_supervision_is_told(
    w: WorkerV,
    dep: DeploymentV,
    id: Seq<char>,
    res: ExecResultV,
    name: Seq<char>,
    error: Option<Seq<char>>,
    now: Seq<char>,
)
    ensures
        comes_from(w.store, w.supervised(dep, id, res, now).0.store),
        comes_from(w.store, w.released(name, id, error, now).store),
        comes_from(w.store, w.concluded(dep, id, res, now).0.store),
{
    lemma_comes_from_self(w.store);
    let wake = match res.terminal {
        Some(TerminalV::Parked(k)) => k,
        _ => None,
    };
    let output = match res.terminal {
        Some(TerminalV::Success(j)) => Some(j),
        _ => None,
    };
    law_workflow_changes_are_told(
        w.store, id, id, id, JsonV::Null, id, wake, "success"@, output, None, now,
    );
    law_workflow_changes_are_told(
        w.store,
        id,
        id,
        id,
        JsonV::Null,
        id,
        wake,
        "failed"@,
        None,
        Some("workflow reported failure"@),
        now,
    );
    law_workflow_changes_are_told(
        w.store, id, id, id, JsonV::Null, id, wake, "failed"@, None, Some("crashed"@), now,
    );
    law_workflow_changes_are_told(
        w.store, id, id, id, JsonV::Null, id, wake, "failed"@, None, error, now,
    );
    let v = w.with_store(w.store.attempted(id, now));
    let payload = JsonV::Obj(
        seq![
            ("type"@, JsonV::Str("workflow_resume"@)),
            ("attempt"@, JsonV::Int(w.attempts(id) + 1)),
        ],
    );
    lemma_noted(v, id, "workflow_resume"@, payload, now);
    lemma_comes_from_trans(
        w.store,
        v.store,
        v.noted(id, "workflow_resume"@, payload, now).store,
    );
    let (x, again) = w.supervised(dep, id, res, now);
    if let Err(e) = again {
        let reason = Some(e.message_of());
        law_workflow_changes_are_told(
            x.store, id, id, id, JsonV::Null, id, wake, "failed"@, None, reason, now,
        );
        lemma_comes_from_trans(
            w.store,
            x.store,
            x.store.finished(id, "failed"@, None, reason, now),
        );
    }
}

// ---------------------------------------------------------------------------
// Submission
// ---------------------------------------------------------------------------

/// Submission is idempotent: a workflow that was submitted under an id is returned
/// by every later submission under that id, which changes nothing.
pub proof fn law_submit_is_idempotent(
    w: WorkerV,
    dep: DeploymentV,
    trigger: Seq<char>,
    extra: JsonV,
    id: Seq<char>,
    token: Seq<char>,
    now: Seq<char>,
    dep2: DeploymentV,
    trigger2: Seq<char>,
    extra2: JsonV,
    token2: Seq<char>,
    later: Seq<char>,
)
    requires
        w.triggered(dep, trigger, extra, Some(id), token, now).1 is Ok,
    ensures
        ({
            let (v, r) = w.triggered(dep, trigger, extra, Some(id), token, now);
            &&& r == Ok::<Seq<char>, TriggerError>(id)
            &&& v.triggered(dep2, trigger2, extra2, Some(id), token2, later) == (
                v,
                Ok::<Seq<char>, TriggerError>(id),
            )
        }),
{
    let (v, r) = w.triggered(dep, trigger, extra, Some(id), token, now);
    if w.store.tables.workflow(id) is None {
        law_workflow_is_read_back(w.store, v.store.changes.last()->Workflow_0, id);
    }
}

proof fn lemma_created_count(
    w: WorkerV,
    dep: DeploymentV,
    trigger: Seq<char>,
    extra: JsonV,
    id: Option<Seq<char>>,
    token: Seq<char>,
    now: Seq<char>,
    name: Seq<char>,
)
    requires
        ({
            let wid = match id {
                Some(wid) => wid,
                None => fresh_id(token),
            };
            let r = w.triggered(dep, trigger, extra, id, token, now);
            w.store.tables.workflow(wid) is None && r.1 is Ok
        }),
    ensures
        ({
            let before = w.store.tables.workflows.filter(running_of(name)).len();
            let after = w.triggered(dep, trigger, extra, id, token, now).0.store.tables.workflows;
            after.filter(running_of(name)).len() == if name == dep.name {
                before + 1
            } else {
                before
            }
        }),
{
    let rows = w.store.tables.workflows;
    let after = w.triggered(dep, trigger, extra, id, token, now).0.store.tables.workflows;
    assert(after.drop_last() =~= rows);
    reveal(Seq::filter);
}

/// Submission keeps the limit of a deployment: where no more of its workflows run
/// than it says, no submission, of that deployment or of another, makes it more.
pub proof fn law_concurrency_is_capped(
    w: WorkerV,
    name: Seq<char>,
    limit: u32,
    dep: DeploymentV,
    trigger: Seq<char>,
    extra: JsonV,
    id: Option<Seq<char>>,
    token: Seq<char>,
    now: Seq<char>,
)
    requires
        limit > 0,
        w.store.tables.workflows.filter(running_of(name)).len() <= limit,
        dep.name == name ==> dep.concurrency == limit,
    ensures
        w.triggered(dep, trigger, extra, id, token, now).0.store.tables.workflows.filter(
            running_of(name),
        ).len() <= limit,
{
    let wid = match id {
        Some(wid) => wid,
        None => fresh_id(token),
    };
    let r = w.triggered(dep, trigger, extra, id, token, now);
    if w.store.tables.workflow(wid) is None && r.1 is Ok {
        lemma_created_count(w, dep, trigger, extra, id, token, now, name);
    }
}

/// A submission over the limit is refused and changes nothing.
pub proof fn law_over_limit_is_refused(
    w: WorkerV,
    dep: DeploymentV,
    trigger: Seq<char>,
    extra: JsonV,
    token: Seq<char>,
    now: Seq<char>,
)
    requires
        w.is_full(dep),
    ensures
        w.triggered(dep, trigger, extra, None, token, now) == (
            w,
            Err::<Seq<char>, TriggerError>(TriggerError::Limit),
        ),
{
}

/// A deployment that skips overlaps has no second workflow started while one is
/// active, and is active once one is started.
pub proof fn law_overlap_is_skipped(
    w: WorkerV,
    dep: DeploymentV,
    trigger: Seq<char>,
    extra: JsonV,
    token: Seq<char>,
    token2: Seq<char>,
    now: Seq<char>,
    later: Seq<char>,
)
    requires
        dep.overlap == "skip"@,
        w.triggered(dep, trigger, extra, None, token, now).1 is Ok,
    ensures
        ({
            let v = w.triggered(dep, trigger, extra, None, token, now).0;
            &&& v.active.contains(dep.name)
            &&& v.triggered(dep, trigger, extra, None, token2, later).0 == v
            &&& v.triggered(dep, trigger, extra, None, token2, later).1 is Err
        }),
{
}

/// A new workflow is started once, with the parameters of its deployment under the
/// input that was given.
pub proof fn law_submission_launches_once(
    w: WorkerV,
    dep: DeploymentV,
    trigger: Seq<char>,
    extra: JsonV,
    id: Option<Seq<char>>,
    token: Seq<char>,
    now: Seq<char>,
)
    ensures
        ({
            let wid = match id {
                Some(wid) => wid,
                None => fresh_id(token),
            };
            let (v, r) = w.triggered(dep, trigger, extra, id, token, now);
            if r is Ok && w.store.tables.workflow(wid) is None {
                v.launches == w.launches.push(
                    LaunchV {
                        dep,
                        workflow_id: wid,
                        input: merge_of(JsonV::Obj(dep.params), extra),
                    },
                )
            } else {
                v.launches == w.launches
            }
        }),
{
}

// ---------------------------------------------------------------------------
// The journal and resumption
// ---------------------------------------------------------------------------

/// Whether the steps of a workflow have sequence numbers as the protocol has them.
pub open spec fn is_numbered(t: Tables, id: Seq<char>) -> bool {
    forall|i: int|
        0 <= i < t.steps.len() && t.steps[i].workflow_id == id ==> 0
            <= (#[trigger] t.steps[i]).step_seq <= u32::MAX
}

proof fn lemma_journal_entry(rows: Seq<StepRowV>, id: Seq<char>, k: int)
    requires
        distinct(rows, |r: StepRowV| (r.workflow_id, r.step_seq)),
        forall|i: int|
            0 <= i < rows.len() && rows[i].workflow_id == id ==> 0
                <= (#[trigger] rows[i]).step_seq <= u32::MAX,
        0 <= k < rows.len(),
        rows[k].workflow_id == id,
    ensures
        journal_of(rows, id).contains_key(rows[k].step_seq as u32),
        journal_of(rows, id)[rows[k].step_seq as u32] == record_of(rows[k]),
    decreases rows.len(),
{
    let last = rows.len() - 1;
    if k < last {
        let rest = rows.drop_last();
        assert forall|i: int| 0 <= i < rest.len() && rest[i].workflow_id == id implies 0
            <= (#[trigger] rest[i]).step_seq <= u32::MAX by {
            assert(rest[i] == rows[i]);
        }
        assert forall|i: int, j: int| 0 <= i < j < rest.len() implies (
        #[trigger] rest[i].workflow_id, rest[i].step_seq) != (
        #[trigger] rest[j].workflow_id, rest[j].step_seq) by {
            assert(rest[i] == rows[i] && rest[j] == rows[j]);
        }
        lemma_journal_entry(rest, id, k);
        assert(rest[k] == rows[k]);
        assert((rows[k].workflow_id, rows[k].step_seq) != (
            rows[last].workflow_id,
            rows[last].step_seq,
        ));
        assert(rows[last].workflow_id == id ==> 0 <= rows[last].step_seq <= u32::MAX);
    }
}

/// The journal that a workflow receives has what the table has of each of its steps.
pub proof fn law_journal_is_complete(t: Tables, id: Seq<char>, seq: u32)
    requires
        is_keyed(t),
        is_numbered(t, id),
        t.step(id, seq as i64) is Some,
    ensures
        journal_of(t.steps, id).contains_key(seq),
        journal_of(t.steps, id)[seq] == record_of(t.step(id, seq as i64).unwrap()),
{
    lemma_first_where(t.steps, step_with(id, seq as i64));
    lemma_journal_entry(t.steps, id, first_where(t.steps, step_with(id, seq as i64)));
}

proof fn lemma_numbered_put(t: Tables, r: StepRowV, id: Seq<char>)
    requires
        is_numbered(t, id),
        r.workflow_id == id ==> 0 <= r.step_seq <= u32::MAX,
    ensures
        is_numbered(t.apply(ChangeV::Step(r)), id),
{
    let p = step_with(r.workflow_id, r.step_seq);
    lemma_first_where(t.steps, p);
    let u = t.apply(ChangeV::Step(r));
    assert forall|i: int| 0 <= i < u.steps.len() && u.steps[i].workflow_id == id implies 0
        <= (#[trigger] u.steps[i]).step_seq <= u32::MAX by {
        if i < t.steps.len() && i != first_where(t.steps, p) {
            assert(u.steps[i] == t.steps[i]);
        }
    }
}

/// Every message keeps the sequence numbers as the protocol has them.
pub proof fn law_steps_stay_numbered(
    w: WorkerV,
    id: Seq<char>,
    msg: FlowMsgV,
    now: Seq<char>,
    other: Seq<char>,
)
    requires
        is_numbered(w.store.tables, other),
    ensures
        is_numbered(w.heard(id, msg, now).store.tables, other),
{
    let s = match msg {
        FlowMsgV::SignalConsume { name, .. } => w.store.consumed(id, name),
        _ => w.store,
    };
    match msg {
        FlowMsgV::StepResult { seq, name, duration_ms, output, writes } => {
            lemma_step_place(s.tables, id, seq as i64);
            if writes.len() > 0 {
                let row = s.committed_row(id, seq as i64, name, output, duration_ms as i64, now);
                lemma_numbered_put(s.tables, row, other);
                lemma_kv_keeps_steps(s.put(ChangeV::Step(row)), id, writes);
            } else {
                let put = s.step_put(
                    id,
                    seq as i64,
                    name,
                    "success"@,
                    Some(output),
                    None,
                    Some(duration_ms as i64),
                    now,
                );
                lemma_numbered_put(s.tables, put.changes.last()->Step_0, other);
            }
        },
        FlowMsgV::SignalConsume { seq, name, payload } => {
            lemma_step_place(s.tables, id, seq as i64);
            let put = s.step_put(
                id,
                seq as i64,
                "signal:"@ + name,
                "success"@,
                Some(payload),
                None,
                Some(0),
                now,
            );
            lemma_numbered_put(s.tables, put.changes.last()->Step_0, other);
        },
        FlowMsgV::StepStart { seq, name, .. } => {
            lemma_step_place(s.tables, id, seq as i64);
            let put = s.step_put(id, seq as i64, name, "started"@, None, None, None, now);
            lemma_numbered_put(s.tables, put.changes.last()->Step_0, other);
        },
        FlowMsgV::StepSkipped { seq, name, .. } => {
            lemma_step_place(s.tables, id, seq as i64);
            let put = s.step_put(
                id,
                seq as i64,
                name,
                w.skip_status(id, seq),
                None,
                None,
                Some(0),
                now,
            );
            lemma_numbered_put(s.tables, put.changes.last()->Step_0, other);
        },
        FlowMsgV::StepFailure { seq, name, duration_ms, error } => {
            lemma_step_place(s.tables, id, seq as i64);
            let put = s.step_put(
                id,
                seq as i64,
                name,
                "failed"@,
                None,
                Some(error),
                Some(duration_ms as i64),
                now,
            );
            lemma_numbered_put(s.tables, put.changes.last()->Step_0, other);
        },
        _ => {},
    }
}

proof fn lemma_kv_keeps_steps(s: StoreV, id: Seq<char>, writes: Seq<KvWriteV>)
    ensures
        s.kv_put(id, writes).tables.steps == s.tables.steps,
    decreases writes.len(),
{
    if writes.len() > 0 {
        lemma_kv_keeps_steps(s, id, writes.drop_last());
    }
}

/// What a message that asks for an answer has journaled by the time the answer goes
/// out.
pub open spec fn acked_output(msg: FlowMsgV) -> JsonV {
    match msg {
        FlowMsgV::StepResult { output, .. } => output,
        FlowMsgV::SignalConsume { payload, .. } => payload,
        _ => JsonV::Null,
    }
}

/// The answer to a step is the barrier of durability: by the time it goes out, the
/// journal has the step as done with its output.
pub proof fn law_acked_is_journaled(w: WorkerV, id: Seq<char>, msg: FlowMsgV, now: Seq<char>)
    requires
        answer(msg) is Some,
    ensures
        w.heard(id, msg, now).store.tables.step(id, answer(msg).unwrap() as i64) matches Some(r)
            && r.status == "success"@ && r.output == Some(Some(acked_output(msg))),
{
    match msg {
        FlowMsgV::StepResult { seq, name, duration_ms, output, writes } => {
            if writes.len() == 0 {
                lemma_journaled_step(w, id, seq, name, output, duration_ms, now);
            } else {
                law_commit_lands_whole(
                    w.store,
                    id,
                    seq as i64,
                    name,
                    output,
                    duration_ms as i64,
                    writes,
                    now,
                    id,
                    name,
                    0,
                );
            }
        },
        FlowMsgV::SignalConsume { seq, name, payload } => {
            lemma_journaled_step(
                w.with_store(w.store.consumed(id, name)),
                id,
                seq,
                "signal:"@ + name,
                payload,
                0,
                now,
            );
        },
        _ => {},
    }
}

proof fn lemma_journaled_step(
    w: WorkerV,
    id: Seq<char>,
    seq: u32,
    name: Seq<char>,
    output: JsonV,
    duration_ms: u64,
    now: Seq<char>,
)
    ensures
        w.journaled(id, seq, name, output, duration_ms, now).store.tables.step(id, seq as i64) matches Some(
            r,
        ) && r.status == "success"@ && r.output == Some(Some(output)),
{
    lemma_step_place(w.store.tables, id, seq as i64);
    let put = w.store.step_put(
        id,
        seq as i64,
        name,
        "success"@,
        Some(output),
        None,
        Some(duration_ms as i64),
        now,
    );
    law_step_is_read_back(w.store, put.changes.last()->Step_0, id, seq as i64);
}

/// A completed step is not lost: once its result was answered, the journal with which
/// the workflow is dispatched has it as done with its output.
pub proof fn law_completed_step_is_replayed(w: WorkerV, id: Seq<char>, msg: FlowMsgV, now: Seq<char>)
    requires
        is_keyed(w.store.tables),
        is_numbered(w.store.tables, id),
        answer(msg) is Some,
    ensures
        ({
            let journal = journal_of(w.heard(id, msg, now).store.tables.steps, id);
            let seq = answer(msg).unwrap();
            journal.contains_key(seq) && journal[seq] == (StepRecordV {
                status: "success"@,
                output: acked_output(msg),
            })
        }),
{
    law_acked_is_journaled(w, id, msg, now);
    law_steps_stay_numbered(w, id, msg, now, id);
    lemma_heard(w, id, msg, now);
    law_keys_are_kept(w.store, w.heard(id, msg, now).store);
    law_journal_is_complete(w.heard(id, msg, now).store.tables, id, answer(msg).unwrap());
}

/// The output that the journal has of a step is left alone by every message but an
/// answered one of that step.
pub proof fn law_outputs_are_kept(
    w: WorkerV,
    id: Seq<char>,
    msg: FlowMsgV,
    now: Seq<char>,
    place: u32,
)
    requires
        answer(msg) != Some(place),
        w.store.tables.step(id, place as i64) is Some,
    ensures
        w.heard(id, msg, now).store.tables.step(id, place as i64) matches Some(r) && r.output
            == w.store.tables.step(id, place as i64).unwrap().output,
{
    let at = place as i64;
    match msg {
        FlowMsgV::StepResult { seq, name, duration_ms, output, writes } => {
            if writes.len() == 0 {
                lemma_other_step(w, id, seq, name, output, duration_ms, now, place);
            } else {
                law_commit_lands_whole(
                    w.store,
                    id,
                    seq as i64,
                    name,
                    output,
                    duration_ms as i64,
                    writes,
                    now,
                    id,
                    name,
                    at,
                );
            }
        },
        FlowMsgV::SignalConsume { seq, name, payload } => {
            lemma_other_step(
                w.with_store(w.store.consumed(id, name)),
                id,
                seq,
                "signal:"@ + name,
                payload,
                0,
                now,
                place,
            );
        },
        FlowMsgV::StepStart { seq, name, .. } => {
            lemma_step_output(w, id, seq as i64, name, "started"@, None, None, now, at);
        },
        FlowMsgV::StepSkipped { seq, name, .. } => {
            let status = w.skip_status(id, seq);
            lemma_step_output(w, id, seq as i64, name, status, None, Some(0), now, at);
        },
        FlowMsgV::StepFailure { seq, name, duration_ms, error } => {
            lemma_step_output(
                w,
                id,
                seq as i64,
                name,
                "failed"@,
                Some(error),
                Some(duration_ms as i64),
                now,
                at,
            );
        },
        _ => {},
    }
}

/// A completed step stays completed under every message that does not start or fail
/// it anew, and keeps its output unless another result of it is answered: also where
/// its process says that it was skipped.
#[verifier::spinoff_prover]
pub proof fn law_completed_stays_completed(
    w: WorkerV,
    id: Seq<char>,
    msg: FlowMsgV,
    now: Seq<char>,
    place: u32,
)
    requires
        w.store.tables.is_done(id, place as i64),
        !(msg matches FlowMsgV::StepStart { seq, .. } && seq == place),
        !(msg matches FlowMsgV::StepFailure { seq, .. } && seq == place),
    ensures
        w.heard(id, msg, now).store.tables.is_done(id, place as i64),
        answer(msg) != Some(place) ==> record_of(
            w.heard(id, msg, now).store.tables.step(id, place as i64).unwrap(),
        ) == record_of(w.store.tables.step(id, place as i64).unwrap()),
{
    let at = place as i64;
    if answer(msg) == Some(place) {
        law_acked_is_journaled(w, id, msg, now);
    } else {
        law_outputs_are_kept(w, id, msg, now, place);
        let written = match msg {
            FlowMsgV::StepStart { seq, .. } => Some(seq),
            FlowMsgV::StepSkipped { seq, .. } => Some(seq),
            FlowMsgV::StepFailure { seq, .. } => Some(seq),
            _ => None,
        };
        if let Some(seq) = written {
            lemma_step_place(w.store.tables, id, seq as i64);
            let v = w.stepped(id, msg, now);
            law_step_is_read_back(w.store, v.store.changes.last()->Step_0, id, at);
        } else if let FlowMsgV::StepResult { seq, name, duration_ms, output, writes } = msg {
            if writes.len() == 0 {
                lemma_other_step(w, id, seq, name, output, duration_ms, now, place);
            } else {
                law_commit_lands_whole(
                    w.store,
                    id,
                    seq as i64,
                    name,
                    output,
                    duration_ms as i64,
                    writes,
                    now,
                    id,
                    name,
                    at,
                );
            }
        } else if let FlowMsgV::SignalConsume { seq, name, payload } = msg {
            let v = w.with_store(w.store.consumed(id, name));
            lemma_other_step(v, id, seq, "signal:"@ + name, payload, 0, now, place);
        }
    }
}

proof fn lemma_other_step(
    w: WorkerV,
    id: Seq<char>,
    seq: u32,
    name: Seq<char>,
    output: JsonV,
    duration_ms: u64,
    now: Seq<char>,
    place: u32,
)
    requires
        seq != place,
    ensures
        w.journaled(id, seq, name, output, duration_ms, now).store.tables.step(id, place as i64)
            == w.store.tables.step(id, place as i64),
{
    lemma_step_place(w.store.tables, id, seq as i64);
    let put = w.store.step_put(
        id,
        seq as i64,
        name,
        "success"@,
        Some(output),
        None,
        Some(duration_ms as i64),
        now,
    );
    law_step_is_read_back(w.store, put.changes.last()->Step_0, id, place as i64);
}

/// A line of a workflow's process, with the message that it is, if it is one, and the
/// time at which it came.
pub type Line = (Seq<char>, Option<FlowMsgV>, Seq<char>);

/// The worker after a workflow's process has said several lines, and how the execution
/// ends as far as they say so.
pub open spec fn conversation(w: WorkerV, id: Seq<char>, lines: Seq<Line>) -> (
    WorkerV,
    Option<TerminalV>,
)
    decreases lines.len(),
{
    if lines.len() == 0 {
        (w, None)
    } else {
        let (v, end) = conversation(w, id, lines.drop_last());
        let (line, msg, now) = lines.last();
        (
            v.line_heard(id, line, msg, now),
            if says(lines.last()) is Some {
                says(lines.last())
            } else {
                end
            },
        )
    }
}

/// What a line says of how the execution ends.
pub open spec fn says(l: Line) -> Option<TerminalV> {
    match l.1 {
        Some(m) => if is_blank(l.0) {
            None
        } else {
            ending(m)
        },
        None => None,
    }
}

/// The answer that a line asks for.
pub open spec fn asks(l: Line) -> Option<u32> {
    match l.1 {
        Some(m) => if is_blank(l.0) {
            None
        } else {
            answer(m)
        },
        None => None,
    }
}

/// The last word counts: an execution ends as the last line says that speaks of it.
pub proof fn law_last_word_counts(w: WorkerV, id: Seq<char>, lines: Seq<Line>, k: int)
    requires
        0 <= k < lines.len(),
        says(lines[k]) is Some,
        forall|i: int| k < i < lines.len() ==> says(#[trigger] lines[i]) is None,
    ensures
        conversation(w, id, lines).1 == says(lines[k]),
    decreases lines.len(),
{
    if k < lines.len() - 1 {
        let rest = lines.drop_last();
        assert(rest[k] == lines[k]);
        assert forall|i: int| k < i < rest.len() implies says(#[trigger] rest[i]) is None by {
            assert(rest[i] == lines[i]);
        }
        law_last_word_counts(w, id, rest, k);
        assert(says(lines[lines.len() - 1]) is None);
    }
}

/// Nothing that was answered is lost: when a line asked for an answer to a step, and
/// no later line of the conversation asks for one to that step, the journal has the
/// output of that step at the end.
pub proof fn law_answered_outputs_last(w: WorkerV, id: Seq<char>, lines: Seq<Line>, k: int)
    requires
        0 <= k < lines.len(),
        asks(lines[k]) is Some,
        forall|i: int| k < i < lines.len() ==> asks(#[trigger] lines[i]) != asks(lines[k]),
    ensures
        conversation(w, id, lines).0.store.tables.step(
            id,
            asks(lines[k]).unwrap() as i64,
        ) matches Some(r) && r.output == Some(Some(acked_output(lines[k].1.unwrap()))),
    decreases lines.len(),
{
    let seq = asks(lines[k]).unwrap();
    let rest = lines.drop_last();
    let v = conversation(w, id, rest).0;
    let (line, msg, now) = lines.last();
    if k == lines.len() - 1 {
        law_acked_is_journaled(v, id, msg.unwrap(), now);
    } else {
        assert(rest[k] == lines[k]);
        assert forall|i: int| k < i < rest.len() implies asks(#[trigger] rest[i]) != asks(
            rest[k],
        ) by {
            assert(rest[i] == lines[i]);
        }
        law_answered_outputs_last(w, id, rest, k);
        assert(asks(lines[lines.len() - 1]) != Some(seq));
        if msg is Some && !is_blank(line) {
            law_outputs_are_kept(v, id, msg.unwrap(), now, seq);
        }
    }
}

/// Whether a line starts or fails a step.
pub open spec fn redoes(l: Line, place: u32) -> bool {
    match l.1 {
        Some(FlowMsgV::StepStart { seq, .. }) => seq == place,
        Some(FlowMsgV::StepFailure { seq, .. }) => seq == place,
        _ => false,
    }
}

/// A step that was answered is done for good: when no later line of the conversation
/// starts, fails or completes it anew, the journal has it as done with its output at
/// the end, so that it is never run again.
#[verifier::spinoff_prover]
pub proof fn law_answered_steps_last(w: WorkerV, id: Seq<char>, lines: Seq<Line>, k: int)
    requires
        0 <= k < lines.len(),
        asks(lines[k]) is Some,
        forall|i: int|
            k < i < lines.len() ==> asks(#[trigger] lines[i]) != asks(lines[k]) && !redoes(
                lines[i],
                asks(lines[k]).unwrap(),
            ),
    ensures
        conversation(w, id, lines).0.store.tables.step(
            id,
            asks(lines[k]).unwrap() as i64,
        ) matches Some(r) && record_of(r) == (StepRecordV {
            status: "success"@,
            output: acked_output(lines[k].1.unwrap()),
        }),
    decreases lines.len(),
{
    let seq = asks(lines[k]).unwrap();
    let rest = lines.drop_last();
    let v = conversation(w, id, rest).0;
    let (line, msg, now) = lines.last();
    if k == lines.len() - 1 {
        law_acked_is_journaled(v, id, msg.unwrap(), now);
    } else {
        assert(rest[k] == lines[k]);
        assert forall|i: int| k < i < rest.len() implies asks(#[trigger] rest[i]) != asks(rest[k])
            && !redoes(rest[i], seq) by {
            assert(rest[i] == lines[i]);
        }
        law_answered_steps_last(w, id, rest, k);
        assert(asks(lines[lines.len() - 1]) != Some(seq));
        assert(!redoes(lines[lines.len() - 1], seq));
        if msg is Some && !is_blank(line) {
            law_completed_stays_completed(v, id, msg.unwrap(), now, seq);
        }
    }
}

/// A whole conversation is told as changes.
pub proof fn law_conversation_is_told(w: WorkerV, id: Seq<char>, lines: Seq<Line>)
    ensures
        comes_from(w.store, conversation(w, id, lines).0.store),
    decreases lines.len(),
{
    if lines.len() == 0 {
        lemma_comes_from_self(w.store);
    } else {
        law_conversation_is_told(w, id, lines.drop_last());
        let v = conversation(w, id, lines.drop_last()).0;
        let (line, msg, now) = lines.last();
        law_line_is_told(v, id, line, msg, now);
        lemma_comes_from_trans(w.store, v.store, v.line_heard(id, line, msg, now).store);
    }
}

proof fn lemma_step_output(
    w: WorkerV,
    id: Seq<char>,
    seq: i64,
    name: Seq<char>,
    status: Seq<char>,
    error: Option<Seq<char>>,
    duration_ms: Option<i64>,
    now: Seq<char>,
    place: i64,
)
    requires
        w.store.tables.step(id, place) is Some,
    ensures
        w.store.step_put(id, seq, name, status, None, error, duration_ms, now).tables.step(
            id,
            place,
        ) matches Some(r) && r.output == w.store.tables.step(id, place).unwrap().output,
{
    lemma_step_place(w.store.tables, id, seq);
    let put = w.store.step_put(id, seq, name, status, None, error, duration_ms, now);
    law_step_is_read_back(w.store, put.changes.last()->Step_0, id, place);
}

/// Whether a workflow can be dispatched again: its deployment can be read and has
/// the command that the workflow was submitted with.
pub open spec fn is_resumable(w: WorkerV, wf: WorkflowV) -> bool {
    w.deployment(wf.deployment) matches Some(dep) && (wf.version.len() == 0 || version(dep.cmd)
        == wf.version)
}

/// A workflow is dispatched again with the input that it was submitted with, or, if
/// its code has changed or is gone, has failed.
pub proof fn law_resume_or_fail(w: WorkerV, wf: WorkflowV, event: Seq<char>, now: Seq<char>)
    requires
        w.store.tables.workflow(wf.id) is Some,
    ensures
        ({
            let v = w.resumed(wf, event, now);
            if is_resumable(w, wf) {
                &&& v.launches == w.launches.push(
                    LaunchV {
                        dep: w.deployment(wf.deployment).unwrap(),
                        workflow_id: wf.id,
                        input: wf.input,
                    },
                )
                &&& v.store.tables.workflow(wf.id) matches Some(r) && r.status == "running"@
                    && r.wake_at is None
            } else {
                &&& v.launches == w.launches
                &&& v.sent == w.sent
                &&& v.active == w.active
                &&& v.store.tables.workflow(wf.id) matches Some(r) && r.status == "failed"@
                    && r.error is Some && r.finished_at == Some(now)
            }
        }),
{
    lemma_workflow_id(w.store.tables, wf.id);
    let v = w.resumed(wf, event, now);
    if is_resumable(w, wf) {
        let run = w.store.set_running(wf.id, now);
        law_workflow_is_read_back(w.store, run.changes.last()->Workflow_0, wf.id);
    } else {
        law_workflow_is_read_back(w.store, v.store.changes.last()->Workflow_0, wf.id);
    }
}

/// A workflow refuses to resume where its command changed since it was submitted.
pub proof fn law_version_is_guarded(w: WorkerV, wf: WorkflowV, event: Seq<char>, now: Seq<char>)
    requires
        w.store.tables.workflow(wf.id) is Some,
        wf.version.len() > 0,
        w.deployment(wf.deployment) matches Some(dep) && version(dep.cmd) != wf.version,
    ensures
        w.resumed(wf, event, now).launches == w.launches,
        w.resumed(wf, event, now).store.tables.workflow(wf.id) matches Some(r) && r.status
            == "failed"@ && r.error == Some(
            "version mismatch: deployment command changed since submission"@,
        ),
{
    lemma_workflow_id(w.store.tables, wf.id);
    let v = w.resumed(wf, event, now);
    law_workflow_is_read_back(w.store, v.store.changes.last()->Workflow_0, wf.id);
}

/// The launches that the resumption of workflows asks for, in order.
pub open spec fn relaunches(w: WorkerV, ws: Seq<WorkflowV>) -> Seq<LaunchV>
    decreases ws.len(),
{
    if ws.len() == 0 {
        Seq::empty()
    } else {
        let before = relaunches(w, ws.drop_last());
        let wf = ws.last();
        if is_resumable(w, wf) {
            before.push(
                LaunchV {
                    dep: w.deployment(wf.deployment).unwrap(),
                    workflow_id: wf.id,
                    input: wf.input,
                },
            )
        } else {
            before
        }
    }
}

/// Recovery leaves no workflow out: every one of those that were running is started
/// again, in order, if its code is as it was when it was submitted.
pub proof fn law_recovery_is_complete(
    w: WorkerV,
    ws: Seq<WorkflowV>,
    event: Seq<char>,
    now: Seq<char>,
)
    ensures
        w.resumed_all(ws, event, now).launches == w.launches + relaunches(w, ws),
        w.resumed_all(ws, event, now).store.tables.deployments == w.store.tables.deployments,
    decreases ws.len(),
{
    if ws.len() == 0 {
        assert(w.launches + relaunches(w, ws) =~= w.launches);
    } else {
        law_recovery_is_complete(w, ws.drop_last(), event, now);
        let v = w.resumed_all(ws.drop_last(), event, now);
        assert(v.deployment(ws.last().deployment) == w.deployment(ws.last().deployment));
        assert(is_resumable(v, ws.last()) == is_resumable(w, ws.last()));
        assert(w.resumed_all(ws, event, now).launches =~= w.launches + relaunches(w, ws));
    }
}

/// Every workflow that was running is among those that are recovered.
pub proof fn law_running_is_found(t: Tables, i: int, ws: Seq<WorkflowV>)
    requires
        0 <= i < t.workflows.len(),
        t.workflows[i].status == "running"@,
        is_running_list(t.workflows, ws),
    ensures
        ws.contains(workflow_of(t.workflows[i])),
{
    let p = is_running();
    lemma_filter_has(t.workflows, p, i, t.workflows.len() as int);
    assert(t.workflows.take(t.workflows.len() as int) =~= t.workflows);
    let rows = t.workflows.filter(p);
    let all = workflows_of(rows);
    let keys = created_keys(all);
    let j = choose|j: int| 0 <= j < rows.len() && rows[j] == t.workflows[i];
    let o = choose|o: Seq<int>| is_order(keys, o) && ws == #[trigger] pick(all, o);
    assert(o.contains(j));
    let a = choose|a: int| 0 <= a < o.len() && o[a] == j;
    assert(ws[a] == workflow_of(t.workflows[i]));
}

/// Recovery leaves every other workflow as it was: those that are parked stay parked,
/// and those that have ended stay ended.
pub proof fn law_recovery_leaves_others(
    w: WorkerV,
    ws: Seq<WorkflowV>,
    event: Seq<char>,
    now: Seq<char>,
    other: Seq<char>,
)
    requires
        forall|i: int| 0 <= i < ws.len() ==> (#[trigger] ws[i]).id != other,
    ensures
        w.resumed_all(ws, event, now).store.tables.workflow(other) == w.store.tables.workflow(other),
    decreases ws.len(),
{
    if ws.len() > 0 {
        assert forall|i: int| 0 <= i < ws.drop_last().len() implies (#[trigger] ws.drop_last()[i]).id
            != other by {
            assert(ws.drop_last()[i] == ws[i]);
        }
        law_recovery_leaves_others(w, ws.drop_last(), event, now, other);
        assert(ws[ws.len() - 1].id != other);
        lemma_resume_leaves_others(
            w.resumed_all(ws.drop_last(), event, now),
            ws.last(),
            event,
            now,
            other,
        );
    }
}

proof fn lemma_resume_leaves_others(
    w: WorkerV,
    wf: WorkflowV,
    event: Seq<char>,
    now: Seq<char>,
    other: Seq<char>,
)
    requires
        wf.id != other,
    ensures
        w.resumed(wf, event, now).store.tables.workflow(other) == w.store.tables.workflow(other),
{
    lemma_workflow_id(w.store.tables, wf.id);
    if w.store.tables.workflow(wf.id) is Some {
        let run = w.store.set_running(wf.id, now);
        law_workflow_is_read_back(w.store, run.changes.last()->Workflow_0, other);
        let gone = w.failed(wf.id, "deployment removed"@, now).store;
        law_workflow_is_read_back(w.store, gone.changes.last()->Workflow_0, other);
        let changed = w.failed(
            wf.id,
            "version mismatch: deployment command changed since submission"@,
            now,
        ).store;
        law_workflow_is_read_back(w.store, changed.changes.last()->Workflow_0, other);
    }
}

// ---------------------------------------------------------------------------
// Parking, waking and crashing
// ---------------------------------------------------------------------------

/// A workflow that parks itself is put aside as it asked, its journal and state are
/// left alone, and its deployment is free again in the same change.
pub proof fn law_park_is_honoured(
    w: WorkerV,
    dep: DeploymentV,
    id: Seq<char>,
    wake_at: Option<i64>,
    exit_ok: bool,
    now: Seq<char>,
)
    requires
        w.store.tables.workflow(id) is Some,
    ensures
        ({
            let res = ExecResultV { terminal: Some(TerminalV::Parked(wake_at)), exit_ok };
            let (v, r) = w.concluded(dep, id, res, now);
            &&& r == Ok::<bool, StoreError>(false)
            &&& v.store.tables.workflow(id) matches Some(row) && row.wake_at == wake_at && row.status
                == if wake_at is Some {
                "sleeping"@
            } else {
                "waiting"@
            }
            &&& v.store.tables.steps == w.store.tables.steps
            &&& v.store.tables.kv == w.store.tables.kv
            &&& v.active == w.active.remove(dep.name)
        }),
{
    lemma_workflow_id(w.store.tables, id);
    let parked = w.store.parked(id, wake_at, now);
    law_workflow_is_read_back(w.store, parked.changes.last()->Workflow_0, id);
}

/// A deployment is released just when its workflow is not dispatched again: until then it
/// is as active as it was.
pub proof fn law_release_follows_the_end(
    w: WorkerV,
    dep: DeploymentV,
    id: Seq<char>,
    res: ExecResultV,
    now: Seq<char>,
)
    ensures
        ({
            let (v, again) = w.concluded(dep, id, res, now);
            v.active == if again == Ok::<bool, StoreError>(true) {
                w.active
            } else {
                w.active.remove(dep.name)
            }
        }),
{
}

/// What could not be written has not happened: when the store is again what the database
/// has, the worker is as it was before the change, whatever the change was; nobody is
/// told of it, and nothing is started.
pub proof fn law_unwritten_is_undone(w: WorkerV, changed: WorkerV)
    requires
        w.sent.len() == 0,
        w.launches.len() == 0,
        changed.root == w.root,
    ensures
        ({
            let (v, told, started) = changed.settled(w.active, WrittenV::Reloaded(w.store));
            v == w && told.len() == 0 && started.len() == 0
        }),
{
    let v = changed.settled(w.active, WrittenV::Reloaded(w.store)).0;
    assert(v =~= w);
}

/// What is written is told, and what it starts is started, once.
pub proof fn law_written_is_told_once(w: WorkerV, active: Set<Seq<char>>)
    ensures
        ({
            let (v, told, started) = w.settled(active, WrittenV::Durable);
            let (_, again, restarted) = v.settled(active, WrittenV::Durable);
            &&& told == w.sent && started == w.launches
            &&& v.store == w.store && v.active == w.active
            &&& again.len() == 0 && restarted.len() == 0
        }),
{
}

/// Where not even the database can be read again, nobody is told of what could not be
/// written, nothing is started, and the same deployments are active as before.
pub proof fn law_lost_is_not_told(w: WorkerV, active: Set<Seq<char>>)
    ensures
        ({
            let (v, told, started) = w.settled(active, WrittenV::Lost);
            &&& told.len() == 0 && started.len() == 0
            &&& v.active == active && v.store == w.store
            &&& v.sent.len() == 0 && v.launches.len() == 0
        }),
{
}

/// A sleeping workflow whose instant has come is among those that are woken.
pub proof fn law_due_is_found(t: Tables, i: int, instant: i64)
    requires
        0 <= i < t.workflows.len(),
        t.workflows[i].status == "sleeping"@,
        t.workflows[i].wake_at matches Some(k) && k <= instant,
    ensures
        workflows_of(t.workflows.filter(is_due(instant))).contains(workflow_of(t.workflows[i])),
{
    let p = is_due(instant);
    lemma_filter_has(t.workflows, p, i, t.workflows.len() as int);
    assert(t.workflows.take(t.workflows.len() as int) =~= t.workflows);
    let due = t.workflows.filter(p);
    let j = choose|j: int| 0 <= j < due.len() && due[j] == t.workflows[i];
    assert(workflows_of(due)[j] == workflow_of(t.workflows[i]));
}

proof fn lemma_filter_has<T>(s: Seq<T>, p: spec_fn(T) -> bool, i: int, n: int)
    requires
        0 <= i < n <= s.len(),
        p(s[i]),
    ensures
        exists|j: int| 0 <= j < s.take(n).filter(p).len() && s.take(n).filter(p)[j] == s[i],
    decreases n,
{
    lemma_filter_take(s, p, n - 1);
    let f = s.take(n).filter(p);
    if i == n - 1 {
        assert(f[f.len() - 1] == s[i]);
    } else {
        lemma_filter_has(s, p, i, n - 1);
        let g = s.take(n - 1).filter(p);
        let j = choose|j: int| 0 <= j < g.len() && g[j] == s[i];
        assert(f[j] == s[i]);
    }
}

/// A signal wakes the workflow that waits or sleeps, if its code is as it was when it
/// was submitted.
pub proof fn law_signal_wakes(w: WorkerV, id: Seq<char>, now: Seq<char>)
    requires
        w.store.tables.get_workflow(id) matches Some(wf) && (wf.status == "waiting"@ || wf.status
            == "sleeping"@) && is_resumable(w, wf),
    ensures
        ({
            let v = w.signalled(id, now);
            let wf = w.store.tables.get_workflow(id).unwrap();
            &&& v.launches.len() == w.launches.len() + 1
            &&& v.launches.last().workflow_id == id
            &&& v.launches.last().input == wf.input
            &&& v.store.tables.workflow(id) matches Some(r) && r.status == "running"@
        }),
{
    lemma_workflow_id(w.store.tables, id);
    let wf = w.store.tables.get_workflow(id).unwrap();
    law_resume_or_fail(w, wf, "workflow_signalled"@, now);
}

/// A workflow that crashes is dispatched again as often as its deployment says, each
/// time counted, and has then failed.
pub proof fn law_crash_is_retried(
    w: WorkerV,
    dep: DeploymentV,
    id: Seq<char>,
    now: Seq<char>,
)
    requires
        w.store.tables.workflow(id) matches Some(r) && 0 <= r.attempts <= u32::MAX,
        w.store.tables.next_event() is Some,
    ensures
        ({
            let res = ExecResultV { terminal: None, exit_ok: false };
            let (v, r) = w.supervised(dep, id, res, now);
            let n = w.attempts(id);
            if n < dep.retries {
                &&& r == Ok::<bool, StoreError>(true)
                &&& v.attempts(id) == n + 1
                &&& v.store.tables.workflow(id) matches Some(row) && row.status == "running"@
            } else {
                &&& r == Ok::<bool, StoreError>(false)
                &&& v.store.tables.workflow(id) matches Some(row) && row.status == "failed"@
                    && row.error == Some("crashed"@)
            }
        }),
{
    lemma_workflow_id(w.store.tables, id);
    let marked = w.store.attempted(id, now);
    law_workflow_is_read_back(w.store, marked.changes.last()->Workflow_0, id);
    let failed = w.store.finished(id, "failed"@, None, Some("crashed"@), now);
    law_workflow_is_read_back(w.store, failed.changes.last()->Workflow_0, id);
}

/// An execution that crashed: what its process said before, and when it was noticed.
pub type Crash = (Seq<Line>, Seq<char>);

/// The worker when an execution has crashed that followed several others.
pub open spec fn before_crash(
    w: WorkerV,
    dep: DeploymentV,
    id: Seq<char>,
    crashes: Seq<Crash>,
) -> WorkerV {
    conversation(crashed(w, dep, id, crashes.drop_last()).0, id, crashes.last().0).0
}

/// The worker after several executions of a workflow have crashed one after the other,
/// and whether it is dispatched again.
pub open spec fn crashed(w: WorkerV, dep: DeploymentV, id: Seq<char>, crashes: Seq<Crash>) -> (
    WorkerV,
    Result<bool, StoreError>,
)
    decreases crashes.len(),
{
    if crashes.len() == 0 {
        (w, Ok(true))
    } else {
        let (v, end) = conversation(
            crashed(w, dep, id, crashes.drop_last()).0,
            id,
            crashes.last().0,
        );
        v.supervised(
            dep,
            id,
            ExecResultV { terminal: end, exit_ok: false },
            crashes.last().1,
        )
    }
}

/// A workflow is executed at most once more than its deployment has retries: each of
/// its first crashes has it dispatched again, and the one after them ends it.
#[verifier::spinoff_prover]
pub proof fn law_retries_are_counted(
    w: WorkerV,
    dep: DeploymentV,
    id: Seq<char>,
    crashes: Seq<Crash>,
)
    requires
        w.store.tables.workflow(id) matches Some(r) && r.attempts == 0,
        0 < crashes.len() <= dep.retries + 1,
        forall|i: int, j: int|
            0 <= i < crashes.len() && 0 <= j < crashes[i].0.len() ==> says(
                #[trigger] crashes[i].0[j],
            ) is None,
        forall|n: int|
            0 < n <= crashes.len() ==> before_crash(
                w,
                dep,
                id,
                #[trigger] crashes.take(n),
            ).store.tables.next_event() is Some,
    ensures
        ({
            let (v, again) = crashed(w, dep, id, crashes);
            if crashes.len() <= dep.retries {
                &&& again == Ok::<bool, StoreError>(true)
                &&& v.store.tables.workflow(id) matches Some(row) && row.attempts == crashes.len()
                    && row.status == "running"@
            } else {
                &&& again == Ok::<bool, StoreError>(false)
                &&& v.store.tables.workflow(id) matches Some(row) && row.status == "failed"@
                    && row.error == Some("crashed"@)
            }
        }),
    decreases crashes.len(),
{
    let rest = crashes.drop_last();
    let last = crashes.last();
    let v = crashed(w, dep, id, rest).0;
    if rest.len() > 0 {
        assert forall|i: int, j: int|
            0 <= i < rest.len() && 0 <= j < rest[i].0.len() implies says(
            #[trigger] rest[i].0[j],
        ) is None by {
            assert(rest[i] == crashes[i]);
            assert(says(crashes[i].0[j]) is None);
        }
        assert forall|n: int| 0 < n <= rest.len() implies before_crash(
            w,
            dep,
            id,
            #[trigger] rest.take(n),
        ).store.tables.next_event() is Some by {
            assert(rest.take(n) =~= crashes.take(n));
        }
        law_retries_are_counted(w, dep, id, rest);
    }
    assert(crashes.take(crashes.len() as int) =~= crashes);
    assert(crashes[crashes.len() - 1] == last);
    assert forall|j: int| 0 <= j < last.0.len() implies says(#[trigger] last.0[j]) is None by {
        assert(says(crashes[crashes.len() - 1].0[j]) is None);
    }
    lemma_silent(v, id, last.0);
    law_talk_leaves_workflows(v, id, last.0);
    law_crash_is_retried(conversation(v, id, last.0).0, dep, id, last.1);
}

proof fn lemma_silent(w: WorkerV, id: Seq<char>, lines: Seq<Line>)
    requires
        forall|j: int| 0 <= j < lines.len() ==> says(#[trigger] lines[j]) is None,
    ensures
        conversation(w, id, lines).1 is None,
    decreases lines.len(),
{
    if lines.len() > 0 {
        let rest = lines.drop_last();
        assert forall|j: int| 0 <= j < rest.len() implies says(#[trigger] rest[j]) is None by {
            assert(rest[j] == lines[j]);
        }
        lemma_silent(w, id, rest);
        assert(says(lines[lines.len() - 1]) is None);
    }
}

/// What a process says leaves the table of workflows alone: only the end of its
/// execution changes it.
#[verifier::spinoff_prover]
pub proof fn law_talk_leaves_workflows(w: WorkerV, id: Seq<char>, lines: Seq<Line>)
    ensures
        conversation(w, id, lines).0.store.tables.workflows == w.store.tables.workflows,
    decreases lines.len(),
{
    if lines.len() > 0 {
        law_talk_leaves_workflows(w, id, lines.drop_last());
        let v = conversation(w, id, lines.drop_last()).0;
        let (line, msg, now) = lines.last();
        if let Some(m) = msg {
            lemma_heard_keeps_workflows(v, id, m, now);
        }
    }
}

#[verifier::spinoff_prover]
proof fn lemma_heard_keeps_workflows(w: WorkerV, id: Seq<char>, msg: FlowMsgV, now: Seq<char>)
    ensures
        w.heard(id, msg, now).store.tables.workflows == w.store.tables.workflows,
{
    match msg {
        FlowMsgV::StepResult { seq, name, duration_ms, output, writes } => {
            if writes.len() == 0 {
                lemma_journaled_keeps_workflows(w, id, seq, name, output, duration_ms, now);
            } else {
                let row = w.store.committed_row(
                    id,
                    seq as i64,
                    name,
                    output,
                    duration_ms as i64,
                    now,
                );
                lemma_kv_keeps_workflows(w.store.put(ChangeV::Step(row)), id, writes);
            }
        },
        FlowMsgV::SignalConsume { seq, name, payload } => {
            let v = w.with_store(w.store.consumed(id, name));
            assert(v.store.tables.workflows == w.store.tables.workflows);
            lemma_journaled_keeps_workflows(v, id, seq, "signal:"@ + name, payload, 0, now);
        },
        FlowMsgV::WorkflowPark { .. } => {},
        _ => {
            let v = w.stepped(id, msg, now);
            assert(v.store.tables.workflows == w.store.tables.workflows);
            assert(w.heard(id, msg, now) == v.noted(id, msg.kind(), msg.json(), now));
        },
    }
}

proof fn lemma_journaled_keeps_workflows(
    w: WorkerV,
    id: Seq<char>,
    seq: u32,
    name: Seq<char>,
    output: JsonV,
    duration_ms: u64,
    now: Seq<char>,
)
    ensures
        w.journaled(id, seq, name, output, duration_ms, now).store.tables.workflows
            == w.store.tables.workflows,
{
}

proof fn lemma_kv_keeps_workflows(s: StoreV, id: Seq<char>, writes: Seq<KvWriteV>)
    ensures
        s.kv_put(id, writes).tables.workflows == s.tables.workflows,
    decreases writes.len(),
{
    if writes.len() > 0 {
        lemma_kv_keeps_workflows(s, id, writes.drop_last());
    }
}

/// What a workflow returns is kept: when the last word of its process is that it
/// succeeded with a value, the workflow is a success with that value as its output.
#[verifier::spinoff_prover]
pub proof fn law_return_value_is_kept(
    w: WorkerV,
    dep: DeploymentV,
    id: Seq<char>,
    lines: Seq<Line>,
    k: int,
    output: JsonV,
    exit_ok: bool,
    now: Seq<char>,
)
    requires
        w.store.tables.workflow(id) is Some,
        0 <= k < lines.len(),
        !is_blank(lines[k].0),
        lines[k].1 == Some(FlowMsgV::WorkflowSuccess { output }),
        forall|i: int| k < i < lines.len() ==> says(#[trigger] lines[i]) is None,
    ensures
        ({
            let (v, end) = conversation(w, id, lines);
            let (x, again) = v.supervised(
                dep,
                id,
                ExecResultV { terminal: end, exit_ok },
                now,
            );
            &&& again == Ok::<bool, StoreError>(false)
            &&& x.store.tables.get_workflow(id) matches Some(wf) && wf.status == "success"@
                && wf.output == Some(output) && wf.error is None
        }),
{
    law_last_word_counts(w, id, lines, k);
    law_talk_leaves_workflows(w, id, lines);
    let v = conversation(w, id, lines).0;
    lemma_workflow_id(v.store.tables, id);
    let done = v.store.finished(id, "success"@, Some(output), None, now);
    law_workflow_is_read_back(v.store, done.changes.last()->Workflow_0, id);
}

/// A workflow that no SDK speaks for is judged by its exit code.
pub proof fn law_bare_is_judged_by_exit(
    w: WorkerV,
    dep: DeploymentV,
    id: Seq<char>,
    now: Seq<char>,
)
    requires
        w.store.tables.workflow(id) is Some,
    ensures
        ({
            let res = ExecResultV { terminal: None, exit_ok: true };
            let (v, r) = w.supervised(dep, id, res, now);
            &&& r == Ok::<bool, StoreError>(false)
            &&& v.store.tables.workflow(id) matches Some(row) && row.status == "success"@
                && row.error is None && row.finished_at == Some(now)
        }),
{
    lemma_workflow_id(w.store.tables, id);
    let done = w.store.finished(id, "success"@, None, None, now);
    law_workflow_is_read_back(w.store, done.changes.last()->Workflow_0, id);
}

} // verus!
