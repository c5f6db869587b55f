//! Which workflows are dispatched again when their time has come, when a signal arrives,
//! and when the daemon starts.

use vstd::prelude::*;
use crate::api::signal_sent;
use crate::config::DeploymentV;
use crate::journal_laws::{delivered, law_sent_is_delivered, lemma_prefix};
use crate::json::JsonV;
use crate::laws::is_keyed;
use crate::order::{is_order, pick};
use crate::rows::WorkflowRowV;
use crate::store::WorkflowV;
use crate::tables::{
    created_keys, deployment_named, is_due, is_running, is_running_list, workflow_of,
    workflow_with, workflows_of, Tables,
};
use crate::text::{lemma_first_where, lemma_first_where_is};
use crate::worker::{version, WorkerV};
use crate::worker_laws::{
    is_free, is_same_code, launched_at, launches_none, launches_once, law_unknown_is_not_found,
};
use crate::workflow_laws::law_recovery_leaves_others;

verus! {

// ---------------------------------------------------------------------------
// What a filter leaves
// ---------------------------------------------------------------------------

proof fn lemma_kept_from(s: Seq<WorkflowRowV>, p: spec_fn(WorkflowRowV) -> bool, q: int) -> (j: int)
    requires
        0 <= q < s.filter(p).len(),
    ensures
        0 <= j < s.len(),
        s[j] == s.filter(p)[q],
        p(s[j]),
    decreases s.len(),
{
    reveal(Seq::filter);
    let r = s.drop_last();
    if s.len() == 0 {
        0
    } else if q < r.filter(p).len() {
        let j = lemma_kept_from(r, p, q);
        assert(r[j] == s[j]);
        j
    } else {
        s.len() - 1
    }
}

proof fn lemma_kept_at(s: Seq<WorkflowRowV>, p: spec_fn(WorkflowRowV) -> bool, i: int) -> (q: int)
    requires
        0 <= i < s.len(),
        p(s[i]),
    ensures
        0 <= q < s.filter(p).len(),
        s.filter(p)[q] == s[i],
        q == s.take(i).filter(p).len(),
    decreases s.len(),
{
    reveal(Seq::filter);
    let r = s.drop_last();
    if i == s.len() - 1 {
        assert(s.take(i) =~= r);
        s.filter(p).len() - 1
    } else {
        assert(r[i] == s[i]);
        assert(s.take(i) =~= r.take(i));
        lemma_kept_at(r, p, i)
    }
}

proof fn lemma_kept_before(
    s: Seq<WorkflowRowV>,
    p: spec_fn(WorkflowRowV) -> bool,
    i: int,
    q: int,
) -> (j: int)
    requires
        0 <= i <= s.len(),
        0 <= q < s.take(i).filter(p).len(),
    ensures
        0 <= j < i,
        s[j] == s.filter(p)[q],
        p(s[j]),
{
    lemma_prefix(s, p, i);
    let j = lemma_kept_from(s.take(i), p, q);
    assert(s.take(i)[j] == s[j]);
    j
}

/// Whether no two workflows of a list have one id.
pub open spec fn ids_differ(ws: Seq<WorkflowV>) -> bool {
    forall|a: int, b: int| 0 <= a < b < ws.len() ==> (#[trigger] ws[a]).id != (#[trigger] ws[b]).id
}

proof fn lemma_kept_differ(s: Seq<WorkflowRowV>, p: spec_fn(WorkflowRowV) -> bool)
    requires
        forall|a: int, b: int| 0 <= a < b < s.len() ==> (#[trigger] s[a]).id != (#[trigger] s[b]).id,
    ensures
        forall|a: int, b: int|
            0 <= a < b < s.filter(p).len() ==> (#[trigger] s.filter(p)[a]).id != (
            #[trigger] s.filter(p)[b]).id,
    decreases s.len(),
{
    reveal(Seq::filter);
    if s.len() > 0 {
        let r = s.drop_last();
        assert forall|a: int, b: int| 0 <= a < b < r.len() implies (#[trigger] r[a]).id != (
        #[trigger] r[b]).id by {
            assert(r[a] == s[a] && r[b] == s[b]);
        }
        lemma_kept_differ(r, p);
        let f = s.filter(p);
        let g = r.filter(p);
        assert forall|a: int, b: int| 0 <= a < b < f.len() implies (#[trigger] f[a]).id != (
        #[trigger] f[b]).id by {
            if b < g.len() {
                assert(f[a] == g[a] && f[b] == g[b]);
            } else {
                assert(f[a] == g[a]);
                let j = lemma_kept_from(r, p, a);
                assert(r[j] == s[j]);
                assert(s[j].id != s[s.len() - 1].id);
            }
        }
    }
}

// ---------------------------------------------------------------------------
// One step
// ---------------------------------------------------------------------------

proof fn lemma_name_of_deployment(w: WorkerV, name: Seq<char>)
    ensures
        w.deployment(name) matches Some(d) ==> d.name == name,
{
    lemma_first_where(w.store.tables.deployments, deployment_named(name));
}

/// What the dispatch of one workflow does to another: its row is as it was, no launch of it
/// is asked for, and its deployment is active if it was or if it is the same one.
proof fn lemma_other_dispatch(
    w: WorkerV,
    wf: WorkflowV,
    event: Seq<char>,
    now: Seq<char>,
    id: Seq<char>,
    name: Seq<char>,
)
    requires
        wf.id != id,
    ensures
        ({
            let v = w.resumed(wf, event, now);
            &&& v.store.tables.workflow(id) == w.store.tables.workflow(id)
            &&& v.store.tables.deployments == w.store.tables.deployments
            &&& launches_none(w, v, id)
            &&& w.active.contains(name) ==> v.active.contains(name)
            &&& wf.deployment != name ==> (v.active.contains(name) <==> w.active.contains(name))
        }),
{
    let v = w.resumed(wf, event, now);
    lemma_name_of_deployment(w, wf.deployment);
    assert(seq![wf].len() == 1);
    let one = seq![wf];
    assert(one.drop_last() =~= Seq::<WorkflowV>::empty());
    assert(w.resumed_all(one.drop_last(), event, now) == w);
    law_recovery_leaves_others(w, one, event, now, id);
    assert(v.launches.take(w.launches.len() as int) =~= w.launches);
}

/// What the dispatch of a workflow does to itself.
proof fn lemma_own_dispatch(
    w: WorkerV,
    r: WorkflowRowV,
    dep: DeploymentV,
    event: Seq<char>,
    now: Seq<char>,
)
    requires
        w.store.tables.workflow(r.id) == Some(r),
        is_same_code(w, r, dep),
    ensures
        ({
            let v = w.resumed(workflow_of(r), event, now);
            &&& v.store.tables.workflow(r.id) == Some(
                WorkflowRowV { status: "running"@, wake_at: None, updated_at: now, ..r },
            )
            &&& v.store.tables.deployments == w.store.tables.deployments
            &&& launched_at(w, v, r, dep, w.launches.len() as int)
            &&& v.active.contains(r.deployment)
        }),
{
    let v = w.resumed(workflow_of(r), event, now);
    lemma_name_of_deployment(w, r.deployment);
    let row = WorkflowRowV { status: "running"@, wake_at: None, updated_at: now, ..r };
    crate::laws::law_workflow_is_read_back(w.store, row, r.id);
    assert(v.launches.take(w.launches.len() as int) =~= w.launches);
}

/// Whether a workflow cannot be dispatched again: its deployment is gone or cannot be read,
/// or has another command than when the workflow was submitted.
pub open spec fn is_other_code(w: WorkerV, r: WorkflowRowV) -> bool {
    match w.deployment(r.deployment) {
        Some(dep) => r.version.len() > 0 && version(dep.cmd) != r.version,
        None => true,
    }
}

/// Whether a row is that of a workflow that has failed and was otherwise as another row.
pub open spec fn has_failed(row: WorkflowRowV, r: WorkflowRowV, now: Seq<char>) -> bool {
    &&& row.status == "failed"@ && row.error is Some && row.finished_at == Some(now)
    &&& row.id == r.id && row.deployment == r.deployment && row.input == r.input && row.attempts
        == r.attempts
}

proof fn lemma_own_refusal(w: WorkerV, r: WorkflowRowV, event: Seq<char>, now: Seq<char>)
    requires
        w.store.tables.workflow(r.id) == Some(r),
        is_other_code(w, r),
    ensures
        ({
            let v = w.resumed(workflow_of(r), event, now);
            &&& v.store.tables.workflow(r.id) matches Some(row) && has_failed(row, r, now)
            &&& v.store.tables.deployments == w.store.tables.deployments
            &&& launches_none(w, v, r.id)
            &&& v.active == w.active
        }),
{
    let v = w.resumed(workflow_of(r), event, now);
    lemma_none_at_all(w, r.id);
    crate::laws::law_workflow_is_read_back(w.store, v.store.changes.last()->Workflow_0, r.id);
}

proof fn lemma_none_then_none(w: WorkerV, u: WorkerV, v: WorkerV, id: Seq<char>)
    requires
        launches_none(w, u, id),
        launches_none(u, v, id),
    ensures
        launches_none(w, v, id),
{
    assert(v.launches.take(w.launches.len() as int) =~= w.launches) by {
        assert forall|j: int| 0 <= j < w.launches.len() implies v.launches[j] == w.launches[j] by {
            assert(v.launches[j] == v.launches.take(u.launches.len() as int)[j]);
            assert(u.launches[j] == u.launches.take(w.launches.len() as int)[j]);
        }
    }
    assert forall|j: int| w.launches.len() <= j < v.launches.len() implies (
    #[trigger] v.launches[j]).workflow_id != id by {
        if j < u.launches.len() {
            assert(v.launches[j] == v.launches.take(u.launches.len() as int)[j]);
            assert(u.launches[j].workflow_id != id);
        }
    }
}

proof fn lemma_none_then_once(
    w: WorkerV,
    u: WorkerV,
    v: WorkerV,
    r: WorkflowRowV,
    dep: DeploymentV,
    k: int,
)
    requires
        launches_none(w, u, r.id),
        launched_at(u, v, r, dep, k),
    ensures
        launched_at(w, v, r, dep, k),
{
    assert(v.launches.take(w.launches.len() as int) =~= w.launches) by {
        assert forall|j: int| 0 <= j < w.launches.len() implies v.launches[j] == w.launches[j] by {
            assert(v.launches[j] == v.launches.take(u.launches.len() as int)[j]);
            assert(u.launches[j] == u.launches.take(w.launches.len() as int)[j]);
        }
    }
    assert forall|j: int| w.launches.len() <= j < v.launches.len() && j != k implies (
    #[trigger] v.launches[j]).workflow_id != r.id by {
        if j < u.launches.len() {
            assert(v.launches[j] == v.launches.take(u.launches.len() as int)[j]);
            assert(u.launches[j].workflow_id != r.id);
        }
    }
}

proof fn lemma_once_then_none(
    w: WorkerV,
    u: WorkerV,
    v: WorkerV,
    r: WorkflowRowV,
    dep: DeploymentV,
    k: int,
)
    requires
        launched_at(w, u, r, dep, k),
        launches_none(u, v, r.id),
    ensures
        launched_at(w, v, r, dep, k),
{
    assert(v.launches.take(w.launches.len() as int) =~= w.launches) by {
        assert forall|j: int| 0 <= j < w.launches.len() implies v.launches[j] == w.launches[j] by {
            assert(v.launches[j] == v.launches.take(u.launches.len() as int)[j]);
            assert(u.launches[j] == u.launches.take(w.launches.len() as int)[j]);
        }
    }
    assert(v.launches[k] == v.launches.take(u.launches.len() as int)[k]);
    assert forall|j: int| w.launches.len() <= j < v.launches.len() && j != k implies (
    #[trigger] v.launches[j]).workflow_id != r.id by {
        if j < u.launches.len() {
            assert(v.launches[j] == v.launches.take(u.launches.len() as int)[j]);
            assert(u.launches[j].workflow_id != r.id);
        }
    }
}

proof fn lemma_none_at_all(w: WorkerV, id: Seq<char>)
    ensures
        launches_none(w, w, id),
{
    assert(w.launches.take(w.launches.len() as int) =~= w.launches);
}

// ---------------------------------------------------------------------------
// Sleepers
// ---------------------------------------------------------------------------

/// What the waking of several workflows does to one that is not among them.
proof fn lemma_woken_others(
    w: WorkerV,
    ws: Seq<WorkflowV>,
    now: Seq<char>,
    id: Seq<char>,
    name: Seq<char>,
)
    requires
        forall|q: int| 0 <= q < ws.len() ==> (#[trigger] ws[q]).id != id,
    ensures
        ({
            let v = w.woken(ws, now);
            &&& v.store.tables.workflow(id) == w.store.tables.workflow(id)
            &&& v.store.tables.deployments == w.store.tables.deployments
            &&& launches_none(w, v, id)
            &&& w.active.contains(name) ==> v.active.contains(name)
            &&& (forall|q: int| 0 <= q < ws.len() ==> (#[trigger] ws[q]).deployment != name) ==> (
            v.active.contains(name) <==> w.active.contains(name))
        }),
    decreases ws.len(),
{
    lemma_none_at_all(w, id);
    if ws.len() > 0 {
        let rest = ws.drop_last();
        assert forall|q: int| 0 <= q < rest.len() implies (#[trigger] rest[q]).id != id by {
            assert(rest[q] == ws[q]);
        }
        lemma_woken_others(w, rest, now, id, name);
        let u = w.woken(rest, now);
        let v = w.woken(ws, now);
        assert(ws[ws.len() - 1].id != id);
        lemma_none_at_all(u, id);
        if !u.active.contains(ws.last().deployment) {
            lemma_other_dispatch(u, ws.last(), "workflow_wake"@, now, id, name);
        }
        lemma_none_then_none(w, u, v, id);
        if forall|q: int| 0 <= q < ws.len() ==> (#[trigger] ws[q]).deployment != name {
            assert forall|q: int| 0 <= q < rest.len() implies (#[trigger] rest[q]).deployment
                != name by {
                assert(rest[q] == ws[q]);
            }
            assert(ws[ws.len() - 1].deployment != name);
        }
    }
}

/// What the waking of several workflows does to one of them whose deployment is free and
/// that of none before it.
proof fn lemma_woken_one(
    w: WorkerV,
    ws: Seq<WorkflowV>,
    now: Seq<char>,
    p: int,
    r: WorkflowRowV,
    dep: DeploymentV,
)
    requires
        0 <= p < ws.len(),
        ws[p] == workflow_of(r),
        forall|q: int| 0 <= q < ws.len() && q != p ==> (#[trigger] ws[q]).id != r.id,
        forall|q: int| 0 <= q < p ==> (#[trigger] ws[q]).deployment != r.deployment,
        w.store.tables.workflow(r.id) == Some(r),
        is_same_code(w, r, dep),
        !w.active.contains(r.deployment),
    ensures
        ({
            let v = w.woken(ws, now);
            &&& v.store.tables.workflow(r.id) == Some(
                WorkflowRowV { status: "running"@, wake_at: None, updated_at: now, ..r },
            )
            &&& launches_once(w, v, r, dep)
            &&& v.active.contains(r.deployment)
        }),
    decreases ws.len(),
{
    let rest = ws.drop_last();
    let u = w.woken(rest, now);
    let v = w.woken(ws, now);
    if p == ws.len() - 1 {
        assert forall|q: int| 0 <= q < rest.len() implies (#[trigger] rest[q]).id != r.id
            && rest[q].deployment != r.deployment by {
            assert(rest[q] == ws[q]);
        }
        lemma_woken_others(w, rest, now, r.id, r.deployment);
        lemma_own_dispatch(u, r, dep, "workflow_wake"@, now);
        lemma_none_then_once(w, u, v, r, dep, u.launches.len() as int);
    } else {
        assert(rest[p] == ws[p]);
        assert forall|q: int| 0 <= q < rest.len() && q != p implies (#[trigger] rest[q]).id
            != r.id by {
            assert(rest[q] == ws[q]);
        }
        assert forall|q: int| 0 <= q < p implies (#[trigger] rest[q]).deployment
            != r.deployment by {
            assert(rest[q] == ws[q]);
        }
        lemma_woken_one(w, rest, now, p, r, dep);
        let k = choose|k: int| #[trigger] launched_at(w, u, r, dep, k);
        assert(ws[ws.len() - 1].id != r.id);
        lemma_none_at_all(u, r.id);
        if !u.active.contains(ws.last().deployment) {
            lemma_other_dispatch(u, ws.last(), "workflow_wake"@, now, r.id, r.deployment);
        }
        lemma_once_then_none(w, u, v, r, dep, k);
    }
}

/// Whether a row is that of a sleeping workflow whose instant has come.
pub open spec fn has_slept(r: WorkflowRowV, instant: i64) -> bool {
    r.status == "sleeping"@ && (r.wake_at matches Some(k) && k <= instant)
}

/// The worker after it has woken the workflows that are due at an instant.
pub open spec fn after_waking(w: WorkerV, instant: i64, now: Seq<char>) -> WorkerV {
    w.woken(workflows_of(w.store.tables.workflows.filter(is_due(instant))), now)
}

/// A sleeping workflow whose instant has come is woken, whatever started it, if its code is
/// as it was and its deployment is free and has no older workflow to wake: its row says
/// that it runs, and one launch of it, with its input, is asked for.
pub proof fn law_sleeper_is_woken(
    w: WorkerV,
    instant: i64,
    now: Seq<char>,
    i: int,
    dep: DeploymentV,
)
    requires
        is_keyed(w.store.tables),
        0 <= i < w.store.tables.workflows.len(),
        has_slept(w.store.tables.workflows[i], instant),
        is_same_code(w, w.store.tables.workflows[i], dep),
        !w.active.contains(w.store.tables.workflows[i].deployment),
        forall|j: int|
            0 <= j < i && has_slept(#[trigger] w.store.tables.workflows[j], instant)
                ==> w.store.tables.workflows[j].deployment
                != w.store.tables.workflows[i].deployment,
    ensures
        ({
            let r = w.store.tables.workflows[i];
            let v = after_waking(w, instant, now);
            &&& v.store.tables.workflow(r.id) matches Some(row) && row.status == "running"@
                && row.wake_at is None && row.input == r.input && row.attempts == r.attempts
                && row.version == r.version && row.trigger == r.trigger
            &&& launches_once(w, v, r, dep)
            &&& v.active.contains(r.deployment)
        }),
{
    let t = w.store.tables;
    let rows = t.workflows;
    let r = rows[i];
    let ws = workflows_of(rows.filter(is_due(instant)));
    let p = lemma_kept_at(rows, is_due(instant), i);
    lemma_due_ids(t, instant, p);
    assert forall|q: int| 0 <= q < p implies (#[trigger] ws[q]).deployment != r.deployment by {
        let j = lemma_kept_before(rows, is_due(instant), i, q);
        assert(has_slept(rows[j], instant));
    }
    lemma_first(t, i);
    lemma_woken_one(w, ws, now, p, r, dep);
}

proof fn lemma_due_ids(t: Tables, instant: i64, p: int)
    requires
        is_keyed(t),
        0 <= p < t.workflows.filter(is_due(instant)).len(),
    ensures
        ({
            let ws = workflows_of(t.workflows.filter(is_due(instant)));
            &&& ids_differ(ws)
            &&& forall|q: int| 0 <= q < ws.len() && q != p ==> (#[trigger] ws[q]).id != ws[p].id
        }),
{
    let f = t.workflows.filter(is_due(instant));
    let ws = workflows_of(f);
    lemma_kept_differ(t.workflows, is_due(instant));
    assert forall|a: int, b: int| 0 <= a < b < ws.len() implies (#[trigger] ws[a]).id != (
    #[trigger] ws[b]).id by {
        assert(f[a].id != f[b].id);
    }
    assert forall|q: int| 0 <= q < ws.len() && q != p implies (#[trigger] ws[q]).id != ws[p].id by {
        if q < p {
            assert(ws[q].id != ws[p].id);
        } else {
            assert(ws[p].id != ws[q].id);
        }
    }
}

proof fn lemma_woken_in_two(w: WorkerV, a: Seq<WorkflowV>, b: Seq<WorkflowV>, now: Seq<char>)
    ensures
        w.woken(a + b, now) == w.woken(a, now).woken(b, now),
    decreases b.len(),
{
    if b.len() == 0 {
        assert(a + b =~= a);
    } else {
        lemma_woken_in_two(w, a, b.drop_last(), now);
        assert((a + b).drop_last() =~= a + b.drop_last());
        assert((a + b).last() == b.last());
    }
}

/// Of several sleeping workflows of one deployment whose instants have come the oldest is
/// woken, and the others sleep on until the deployment is free again.
pub proof fn law_one_of_a_deployment_is_woken(
    w: WorkerV,
    instant: i64,
    now: Seq<char>,
    i: int,
    k: int,
    dep: DeploymentV,
)
    requires
        is_keyed(w.store.tables),
        0 <= i < k < w.store.tables.workflows.len(),
        has_slept(w.store.tables.workflows[i], instant),
        is_same_code(w, w.store.tables.workflows[i], dep),
        !w.active.contains(w.store.tables.workflows[i].deployment),
        forall|j: int|
            0 <= j < i && has_slept(#[trigger] w.store.tables.workflows[j], instant)
                ==> w.store.tables.workflows[j].deployment
                != w.store.tables.workflows[i].deployment,
        has_slept(w.store.tables.workflows[k], instant),
        w.store.tables.workflows[k].deployment == w.store.tables.workflows[i].deployment,
    ensures
        ({
            let r = w.store.tables.workflows[k];
            let v = after_waking(w, instant, now);
            v.store.tables.workflow(r.id) == Some(r) && launches_none(w, v, r.id)
        }),
{
    let t = w.store.tables;
    let rows = t.workflows;
    let f = rows.filter(is_due(instant));
    let ws = workflows_of(f);
    let p = lemma_kept_at(rows, is_due(instant), i);
    let x = lemma_kept_at(rows, is_due(instant), k);
    assert(p < x) by {
        assert(rows.take(k).take(i) =~= rows.take(i));
        let y = lemma_kept_at(rows.take(k), is_due(instant), i);
    }
    lemma_due_ids(t, instant, p);
    lemma_due_ids(t, instant, x);
    let a = ws.take(p + 1);
    let b = ws.skip(p + 1);
    assert(a + b =~= ws);
    assert forall|q: int| 0 <= q < a.len() && q != p implies (#[trigger] a[q]).id != rows[i].id by {
        assert(a[q] == ws[q]);
    }
    assert forall|q: int| 0 <= q < p implies (#[trigger] a[q]).deployment
        != rows[i].deployment by {
        assert(a[q] == ws[q]);
        let j = lemma_kept_before(rows, is_due(instant), i, q);
        assert(has_slept(rows[j], instant));
    }
    lemma_first(t, i);
    lemma_first(t, k);
    assert(a[p] == ws[p]);
    lemma_woken_one(w, a, now, p, rows[i], dep);
    let u = w.woken(a, now);
    assert forall|q: int| 0 <= q < a.len() implies (#[trigger] a[q]).id != rows[k].id by {
        assert(a[q] == ws[q]);
    }
    lemma_woken_others(w, a, now, rows[k].id, rows[k].deployment);
    assert forall|m: int, n: int| 0 <= m < n < b.len() implies (#[trigger] b[m]).id != (
    #[trigger] b[n]).id by {
        assert(b[m] == ws[p + 1 + m] && b[n] == ws[p + 1 + n]);
    }
    assert(b[x - p - 1] == ws[x]);
    lemma_woken_busy(u, b, now, x - p - 1);
    lemma_woken_in_two(w, a, b, now);
    lemma_none_then_none(w, u, u.woken(b, now), rows[k].id);
}

proof fn lemma_woken_changed(
    w: WorkerV,
    ws: Seq<WorkflowV>,
    now: Seq<char>,
    p: int,
    r: WorkflowRowV,
)
    requires
        0 <= p < ws.len(),
        ws[p] == workflow_of(r),
        forall|q: int| 0 <= q < ws.len() && q != p ==> (#[trigger] ws[q]).id != r.id,
        forall|q: int| 0 <= q < p ==> (#[trigger] ws[q]).deployment != r.deployment,
        w.store.tables.workflow(r.id) == Some(r),
        is_other_code(w, r),
        !w.active.contains(r.deployment),
    ensures
        ({
            let v = w.woken(ws, now);
            &&& v.store.tables.workflow(r.id) matches Some(row) && has_failed(row, r, now)
            &&& launches_none(w, v, r.id)
        }),
    decreases ws.len(),
{
    let rest = ws.drop_last();
    let u = w.woken(rest, now);
    let v = w.woken(ws, now);
    if p == ws.len() - 1 {
        assert forall|q: int| 0 <= q < rest.len() implies (#[trigger] rest[q]).id != r.id
            && rest[q].deployment != r.deployment by {
            assert(rest[q] == ws[q]);
        }
        lemma_woken_others(w, rest, now, r.id, r.deployment);
        lemma_own_refusal(u, r, "workflow_wake"@, now);
        lemma_none_then_none(w, u, v, r.id);
    } else {
        assert(rest[p] == ws[p]);
        assert forall|q: int| 0 <= q < rest.len() && q != p implies (#[trigger] rest[q]).id
            != r.id by {
            assert(rest[q] == ws[q]);
        }
        assert forall|q: int| 0 <= q < p implies (#[trigger] rest[q]).deployment
            != r.deployment by {
            assert(rest[q] == ws[q]);
        }
        lemma_woken_changed(w, rest, now, p, r);
        assert(ws[ws.len() - 1].id != r.id);
        lemma_none_at_all(u, r.id);
        if !u.active.contains(ws.last().deployment) {
            lemma_other_dispatch(u, ws.last(), "workflow_wake"@, now, r.id, r.deployment);
        }
        lemma_none_then_none(w, u, v, r.id);
    }
}

/// A sleeping workflow whose instant has come, but whose deployment is gone or has another
/// command than when it was submitted, is not started: it has failed.
pub proof fn law_changed_sleeper_fails(w: WorkerV, instant: i64, now: Seq<char>, i: int)
    requires
        is_keyed(w.store.tables),
        0 <= i < w.store.tables.workflows.len(),
        has_slept(w.store.tables.workflows[i], instant),
        is_other_code(w, w.store.tables.workflows[i]),
        !w.active.contains(w.store.tables.workflows[i].deployment),
        forall|j: int|
            0 <= j < i && has_slept(#[trigger] w.store.tables.workflows[j], instant)
                ==> w.store.tables.workflows[j].deployment
                != w.store.tables.workflows[i].deployment,
    ensures
        ({
            let r = w.store.tables.workflows[i];
            let v = after_waking(w, instant, now);
            &&& v.store.tables.workflow(r.id) matches Some(row) && has_failed(row, r, now)
            &&& launches_none(w, v, r.id)
        }),
{
    let t = w.store.tables;
    let rows = t.workflows;
    let r = rows[i];
    let ws = workflows_of(rows.filter(is_due(instant)));
    let p = lemma_kept_at(rows, is_due(instant), i);
    lemma_due_ids(t, instant, p);
    assert forall|q: int| 0 <= q < p implies (#[trigger] ws[q]).deployment != r.deployment by {
        let j = lemma_kept_before(rows, is_due(instant), i, q);
        assert(has_slept(rows[j], instant));
    }
    lemma_first(t, i);
    lemma_woken_changed(w, ws, now, p, r);
}

proof fn lemma_first(t: Tables, i: int)
    requires
        is_keyed(t),
        0 <= i < t.workflows.len(),
    ensures
        t.workflow(t.workflows[i].id) == Some(t.workflows[i]),
{
    let p = workflow_with(t.workflows[i].id);
    assert forall|j: int| 0 <= j < i implies !p(#[trigger] t.workflows[j]) by {
        assert(t.workflows[j].id != t.workflows[i].id);
    }
    lemma_first_where_is(t.workflows, p, i);
}

/// Every other workflow sleeps on, waits on, runs on or has ended as it had: one that is
/// not due is left as it was.
pub proof fn law_others_sleep_on(w: WorkerV, instant: i64, now: Seq<char>, i: int)
    requires
        is_keyed(w.store.tables),
        0 <= i < w.store.tables.workflows.len(),
        !has_slept(w.store.tables.workflows[i], instant),
    ensures
        ({
            let r = w.store.tables.workflows[i];
            let v = after_waking(w, instant, now);
            v.store.tables.workflow(r.id) == Some(r) && launches_none(w, v, r.id)
        }),
{
    let rows = w.store.tables.workflows;
    let ws = workflows_of(rows.filter(is_due(instant)));
    assert forall|q: int| 0 <= q < ws.len() implies (#[trigger] ws[q]).id != rows[i].id by {
        let j = lemma_kept_from(rows, is_due(instant), q);
        assert(j != i);
        if j < i {
            assert(rows[j].id != rows[i].id);
        } else {
            assert(rows[i].id != rows[j].id);
        }
    }
    lemma_first(w.store.tables, i);
    lemma_woken_others(w, ws, now, rows[i].id, rows[i].deployment);
}

proof fn lemma_woken_busy(w: WorkerV, ws: Seq<WorkflowV>, now: Seq<char>, p: int)
    requires
        0 <= p < ws.len(),
        ids_differ(ws),
        w.active.contains(ws[p].deployment),
    ensures
        ({
            let v = w.woken(ws, now);
            &&& v.store.tables.workflow(ws[p].id) == w.store.tables.workflow(ws[p].id)
            &&& launches_none(w, v, ws[p].id)
            &&& v.active.contains(ws[p].deployment)
        }),
    decreases ws.len(),
{
    let rest = ws.drop_last();
    let u = w.woken(rest, now);
    let v = w.woken(ws, now);
    let id = ws[p].id;
    if p == ws.len() - 1 {
        assert forall|q: int| 0 <= q < rest.len() implies (#[trigger] rest[q]).id != id by {
            assert(rest[q] == ws[q]);
            assert(ws[q].id != ws[p].id);
        }
        lemma_woken_others(w, rest, now, id, ws[p].deployment);
    } else {
        assert forall|a: int, b: int| 0 <= a < b < rest.len() implies (#[trigger] rest[a]).id != (
        #[trigger] rest[b]).id by {
            assert(rest[a] == ws[a] && rest[b] == ws[b]);
        }
        assert(rest[p] == ws[p]);
        lemma_woken_busy(w, rest, now, p);
        assert(ws[p].id != ws[ws.len() - 1].id);
        lemma_none_at_all(u, id);
        if !u.active.contains(ws.last().deployment) {
            lemma_other_dispatch(u, ws.last(), "workflow_wake"@, now, id, ws[p].deployment);
        }
        lemma_none_then_none(w, u, v, id);
    }
}

/// A sleeping workflow whose deployment is active sleeps on until that is free.
pub proof fn law_busy_deployment_sleeps_on(w: WorkerV, instant: i64, now: Seq<char>, i: int)
    requires
        is_keyed(w.store.tables),
        0 <= i < w.store.tables.workflows.len(),
        w.active.contains(w.store.tables.workflows[i].deployment),
    ensures
        ({
            let r = w.store.tables.workflows[i];
            let v = after_waking(w, instant, now);
            v.store.tables.workflow(r.id) == Some(r) && launches_none(w, v, r.id)
        }),
{
    let rows = w.store.tables.workflows;
    let r = rows[i];
    let ws = workflows_of(rows.filter(is_due(instant)));
    if has_slept(r, instant) {
        let p = lemma_kept_at(rows, is_due(instant), i);
        lemma_due_ids(w.store.tables, instant, p);
        lemma_first(w.store.tables, i);
        lemma_woken_busy(w, ws, now, p);
    } else {
        law_others_sleep_on(w, instant, now, i);
    }
}

// ---------------------------------------------------------------------------
// Recovery
// ---------------------------------------------------------------------------

proof fn lemma_resumed_others(
    w: WorkerV,
    ws: Seq<WorkflowV>,
    event: Seq<char>,
    now: Seq<char>,
    id: Seq<char>,
)
    requires
        forall|q: int| 0 <= q < ws.len() ==> (#[trigger] ws[q]).id != id,
    ensures
        ({
            let v = w.resumed_all(ws, event, now);
            &&& v.store.tables.workflow(id) == w.store.tables.workflow(id)
            &&& v.store.tables.deployments == w.store.tables.deployments
            &&& launches_none(w, v, id)
        }),
    decreases ws.len(),
{
    lemma_none_at_all(w, id);
    if ws.len() > 0 {
        let rest = ws.drop_last();
        assert forall|q: int| 0 <= q < rest.len() implies (#[trigger] rest[q]).id != id by {
            assert(rest[q] == ws[q]);
        }
        lemma_resumed_others(w, rest, event, now, id);
        assert(ws[ws.len() - 1].id != id);
        let u = w.resumed_all(rest, event, now);
        lemma_other_dispatch(u, ws.last(), event, now, id, Seq::empty());
        lemma_none_then_none(w, u, w.resumed_all(ws, event, now), id);
    }
}

proof fn lemma_resumed_one(
    w: WorkerV,
    ws: Seq<WorkflowV>,
    event: Seq<char>,
    now: Seq<char>,
    p: int,
    r: WorkflowRowV,
    dep: DeploymentV,
)
    requires
        0 <= p < ws.len(),
        ws[p] == workflow_of(r),
        ids_differ(ws),
        w.store.tables.workflow(r.id) == Some(r),
        is_same_code(w, r, dep),
    ensures
        ({
            let v = w.resumed_all(ws, event, now);
            &&& v.store.tables.workflow(r.id) == Some(
                WorkflowRowV { status: "running"@, wake_at: None, updated_at: now, ..r },
            )
            &&& launches_once(w, v, r, dep)
        }),
    decreases ws.len(),
{
    let rest = ws.drop_last();
    let u = w.resumed_all(rest, event, now);
    let v = w.resumed_all(ws, event, now);
    if p == ws.len() - 1 {
        assert forall|q: int| 0 <= q < rest.len() implies (#[trigger] rest[q]).id != r.id by {
            assert(rest[q] == ws[q]);
            assert(ws[q].id != ws[p].id);
        }
        lemma_resumed_others(w, rest, event, now, r.id);
        lemma_own_dispatch(u, r, dep, event, now);
        lemma_none_then_once(w, u, v, r, dep, u.launches.len() as int);
    } else {
        assert forall|a: int, b: int| 0 <= a < b < rest.len() implies (#[trigger] rest[a]).id != (
        #[trigger] rest[b]).id by {
            assert(rest[a] == ws[a] && rest[b] == ws[b]);
        }
        assert(rest[p] == ws[p]);
        lemma_resumed_one(w, rest, event, now, p, r, dep);
        let k = choose|k: int| #[trigger] launched_at(w, u, r, dep, k);
        assert(ws[p].id != ws[ws.len() - 1].id);
        lemma_other_dispatch(u, ws.last(), event, now, r.id, Seq::empty());
        lemma_once_then_none(w, u, v, r, dep, k);
    }
}

/// Whether a workflow is that of a row that says that it runs.
pub open spec fn is_running_row(t: Tables, wf: WorkflowV) -> bool {
    exists|j: int|
        0 <= j < t.workflows.len() && t.workflows[j].status == "running"@ && workflow_of(
            #[trigger] t.workflows[j],
        ) == wf
}

proof fn lemma_listed(t: Tables, ws: Seq<WorkflowV>)
    requires
        is_keyed(t),
        is_running_list(t.workflows, ws),
    ensures
        ids_differ(ws),
        forall|q: int| 0 <= q < ws.len() ==> is_running_row(t, #[trigger] ws[q]),
{
    let rows = t.workflows;
    let f = rows.filter(is_running());
    let all = workflows_of(f);
    let keys = created_keys(all);
    let o = choose|o: Seq<int>| is_order(keys, o) && ws == #[trigger] pick(all, o);
    lemma_kept_differ(rows, is_running());
    assert forall|a: int, b: int| 0 <= a < b < ws.len() implies (#[trigger] ws[a]).id != (
    #[trigger] ws[b]).id by {
        assert(0 <= o[a] < keys.len() && 0 <= o[b] < keys.len());
        crate::order::lemma_before_differs(keys, o[a], o[b]);
        if o[a] < o[b] {
            assert(f[o[a]].id != f[o[b]].id);
        } else {
            assert(f[o[b]].id != f[o[a]].id);
        }
    }
    assert forall|q: int| 0 <= q < ws.len() implies is_running_row(t, #[trigger] ws[q]) by {
        assert(0 <= o[q] < keys.len());
        let j = lemma_kept_from(rows, is_running(), o[q]);
        assert(workflow_of(t.workflows[j]) == ws[q]);
    }
}

/// When the daemon starts, every workflow that was left running is started again, once,
/// with its input, if its code is as it was, whatever started it and however often it was
/// dispatched before.
pub proof fn law_running_is_recovered(
    w: WorkerV,
    ws: Seq<WorkflowV>,
    event: Seq<char>,
    now: Seq<char>,
    i: int,
    dep: DeploymentV,
)
    requires
        is_keyed(w.store.tables),
        is_running_list(w.store.tables.workflows, ws),
        0 <= i < w.store.tables.workflows.len(),
        w.store.tables.workflows[i].status == "running"@,
        is_same_code(w, w.store.tables.workflows[i], dep),
    ensures
        ({
            let r = w.store.tables.workflows[i];
            let v = w.resumed_all(ws, event, now);
            &&& v.store.tables.workflow(r.id) matches Some(row) && row.status == "running"@
                && row.input == r.input && row.attempts == r.attempts && row.output == r.output
            &&& launches_once(w, v, r, dep)
        }),
{
    let t = w.store.tables;
    lemma_listed(t, ws);
    lemma_first(t, i);
    crate::workflow_laws::law_running_is_found(t, i, ws);
    let p = choose|p: int| 0 <= p < ws.len() && ws[p] == workflow_of(t.workflows[i]);
    lemma_resumed_one(w, ws, event, now, p, t.workflows[i], dep);
}

proof fn lemma_resumed_changed(
    w: WorkerV,
    ws: Seq<WorkflowV>,
    event: Seq<char>,
    now: Seq<char>,
    p: int,
    r: WorkflowRowV,
)
    requires
        0 <= p < ws.len(),
        ws[p] == workflow_of(r),
        ids_differ(ws),
        w.store.tables.workflow(r.id) == Some(r),
        is_other_code(w, r),
    ensures
        ({
            let v = w.resumed_all(ws, event, now);
            &&& v.store.tables.workflow(r.id) matches Some(row) && has_failed(row, r, now)
            &&& launches_none(w, v, r.id)
        }),
    decreases ws.len(),
{
    let rest = ws.drop_last();
    let u = w.resumed_all(rest, event, now);
    let v = w.resumed_all(ws, event, now);
    if p == ws.len() - 1 {
        assert forall|q: int| 0 <= q < rest.len() implies (#[trigger] rest[q]).id != r.id by {
            assert(rest[q] == ws[q]);
            assert(ws[q].id != ws[p].id);
        }
        lemma_resumed_others(w, rest, event, now, r.id);
        lemma_own_refusal(u, r, event, now);
        lemma_none_then_none(w, u, v, r.id);
    } else {
        assert forall|a: int, b: int| 0 <= a < b < rest.len() implies (#[trigger] rest[a]).id != (
        #[trigger] rest[b]).id by {
            assert(rest[a] == ws[a] && rest[b] == ws[b]);
        }
        assert(rest[p] == ws[p]);
        lemma_resumed_changed(w, rest, event, now, p, r);
        assert(ws[p].id != ws[ws.len() - 1].id);
        lemma_other_dispatch(u, ws.last(), event, now, r.id, Seq::empty());
        lemma_none_then_none(w, u, v, r.id);
    }
}

/// When the daemon starts, a workflow that was left running, but whose deployment is gone or
/// has another command than when it was submitted, is not started: it has failed.
pub proof fn law_changed_is_not_recovered(
    w: WorkerV,
    ws: Seq<WorkflowV>,
    event: Seq<char>,
    now: Seq<char>,
    i: int,
)
    requires
        is_keyed(w.store.tables),
        is_running_list(w.store.tables.workflows, ws),
        0 <= i < w.store.tables.workflows.len(),
        w.store.tables.workflows[i].status == "running"@,
        is_other_code(w, w.store.tables.workflows[i]),
    ensures
        ({
            let r = w.store.tables.workflows[i];
            let v = w.resumed_all(ws, event, now);
            &&& v.store.tables.workflow(r.id) matches Some(row) && has_failed(row, r, now)
            &&& launches_none(w, v, r.id)
        }),
{
    let t = w.store.tables;
    lemma_listed(t, ws);
    lemma_first(t, i);
    crate::workflow_laws::law_running_is_found(t, i, ws);
    let p = choose|p: int| 0 <= p < ws.len() && ws[p] == workflow_of(t.workflows[i]);
    lemma_resumed_changed(w, ws, event, now, p, t.workflows[i]);
}

/// When the daemon starts, every workflow that was not running is left as it was.
pub proof fn law_others_are_not_recovered(
    w: WorkerV,
    ws: Seq<WorkflowV>,
    event: Seq<char>,
    now: Seq<char>,
    i: int,
)
    requires
        is_keyed(w.store.tables),
        is_running_list(w.store.tables.workflows, ws),
        0 <= i < w.store.tables.workflows.len(),
        w.store.tables.workflows[i].status != "running"@,
    ensures
        ({
            let r = w.store.tables.workflows[i];
            let v = w.resumed_all(ws, event, now);
            v.store.tables.workflow(r.id) == Some(r) && launches_none(w, v, r.id)
        }),
{
    let t = w.store.tables;
    lemma_listed(t, ws);
    lemma_first(t, i);
    assert forall|q: int| 0 <= q < ws.len() implies (#[trigger] ws[q]).id != t.workflows[i].id by {
        assert(is_running_row(t, ws[q]));
        let j = choose|j: int|
            0 <= j < t.workflows.len() && t.workflows[j].status == "running"@ && workflow_of(
                #[trigger] t.workflows[j],
            ) == ws[q];
        assert(j != i);
        if j < i {
            assert(t.workflows[j].id != t.workflows[i].id);
        } else {
            assert(t.workflows[i].id != t.workflows[j].id);
        }
    }
    lemma_resumed_others(w, ws, event, now, t.workflows[i].id);
}

/// The workflows that are recovered are recovered in the order in which they were submitted.
pub proof fn law_oldest_is_recovered_first(t: Tables, ws: Seq<WorkflowV>, a: int, b: int)
    requires
        is_running_list(t.workflows, ws),
        0 <= a < b < ws.len(),
    ensures
        !crate::text::lex_less(ws[b].created_at, ws[a].created_at),
        ws[a].status == "running"@,
{
    let f = t.workflows.filter(is_running());
    let all = workflows_of(f);
    let keys = created_keys(all);
    let o = choose|o: Seq<int>| is_order(keys, o) && ws == #[trigger] pick(all, o);
    assert(0 <= o[a] < keys.len() && 0 <= o[b] < keys.len());
    crate::order::lemma_before_differs(keys, o[a], o[b]);
    let j = lemma_kept_from(t.workflows, is_running(), o[a]);
}

// ---------------------------------------------------------------------------
// Signals
// ---------------------------------------------------------------------------

/// A signal dispatches a workflow that waits or sleeps again, once, with its input, if its
/// code is as it was: its row says that it runs. That its deployment is active does not
/// matter.
pub proof fn law_signal_dispatches(
    w: WorkerV,
    i: int,
    dep: DeploymentV,
    name: Seq<char>,
    payload: JsonV,
    now: Seq<char>,
)
    requires
        is_keyed(w.store.tables),
        0 <= i < w.store.tables.workflows.len(),
        w.store.tables.workflows[i].status == "waiting"@
            || w.store.tables.workflows[i].status == "sleeping"@,
        is_same_code(w, w.store.tables.workflows[i], dep),
        w.store.tables.signals.len() == 0 || w.store.tables.signals.last().id < i64::MAX,
    ensures
        ({
            let r = w.store.tables.workflows[i];
            let (v, reply) = signal_sent(w, r.id, name, payload, now);
            &&& reply is Ok
            &&& v.store.tables.workflow(r.id) matches Some(row) && row.status == "running"@
                && row.wake_at is None && row.input == r.input
            &&& launches_once(w, v, r, dep)
            &&& delivered(v.store.tables, r.id) == delivered(w.store.tables, r.id).push(
                (name, payload),
            )
        }),
{
    let r = w.store.tables.workflows[i];
    lemma_first(w.store.tables, i);
    let k = w.store.tables.next_signal().unwrap();
    let u = w.with_store(w.store.signalled(k, r.id, name, payload, now));
    assert(u.store.tables.workflow(r.id) == Some(r));
    assert(u.deployment(r.deployment) == w.deployment(r.deployment));
    lemma_own_dispatch(u, r, dep, "workflow_signalled"@, now);
    let v = signal_sent(w, r.id, name, payload, now).0;
    assert(launched_at(w, v, r, dep, w.launches.len() as int));
    law_sent_is_delivered(w.store, k, r.id, name, payload, now, r.id);
    assert(v.store.tables.signals == u.store.tables.signals);
}

/// A signal to a workflow that waits or sleeps, but whose deployment is gone or has another
/// command than when it was submitted, starts nothing: the workflow has failed.
pub proof fn law_signal_to_changed_code_fails(
    w: WorkerV,
    i: int,
    name: Seq<char>,
    payload: JsonV,
    now: Seq<char>,
)
    requires
        is_keyed(w.store.tables),
        0 <= i < w.store.tables.workflows.len(),
        w.store.tables.workflows[i].status == "waiting"@
            || w.store.tables.workflows[i].status == "sleeping"@,
        is_other_code(w, w.store.tables.workflows[i]),
        w.store.tables.signals.len() == 0 || w.store.tables.signals.last().id < i64::MAX,
    ensures
        ({
            let r = w.store.tables.workflows[i];
            let v = signal_sent(w, r.id, name, payload, now).0;
            &&& v.store.tables.workflow(r.id) matches Some(row) && has_failed(row, r, now)
            &&& v.launches == w.launches
        }),
{
    let r = w.store.tables.workflows[i];
    lemma_first(w.store.tables, i);
    let k = w.store.tables.next_signal().unwrap();
    let u = w.with_store(w.store.signalled(k, r.id, name, payload, now));
    assert(u.store.tables.workflow(r.id) == Some(r));
    assert(u.deployment(r.deployment) == w.deployment(r.deployment));
    lemma_own_refusal(u, r, "workflow_signalled"@, now);
}

/// A signal to a workflow that neither waits nor sleeps starts nothing and leaves its row as
/// it was.
pub proof fn law_signal_to_others_starts_nothing(
    w: WorkerV,
    i: int,
    name: Seq<char>,
    payload: JsonV,
    now: Seq<char>,
)
    requires
        is_keyed(w.store.tables),
        0 <= i < w.store.tables.workflows.len(),
        w.store.tables.workflows[i].status != "waiting"@,
        w.store.tables.workflows[i].status != "sleeping"@,
        w.store.tables.signals.len() == 0 || w.store.tables.signals.last().id < i64::MAX,
    ensures
        ({
            let r = w.store.tables.workflows[i];
            let (v, reply) = signal_sent(w, r.id, name, payload, now);
            &&& reply is Ok
            &&& v.launches == w.launches
            &&& v.store.tables.workflows == w.store.tables.workflows
            &&& v.active == w.active
            &&& delivered(v.store.tables, r.id) == delivered(w.store.tables, r.id).push(
                (name, payload),
            )
        }),
{
    lemma_first(w.store.tables, i);
    let r = w.store.tables.workflows[i];
    let k = w.store.tables.next_signal().unwrap();
    law_sent_is_delivered(w.store, k, r.id, name, payload, now, r.id);
}

/// A signal to a workflow that is not there is answered as not found, and changes nothing.
pub proof fn law_signal_to_nobody_is_refused(
    w: WorkerV,
    id: Seq<char>,
    name: Seq<char>,
    payload: JsonV,
    now: Seq<char>,
)
    requires
        is_free(w.store.tables, id),
    ensures
        signal_sent(w, id, name, payload, now).0 == w,
        signal_sent(w, id, name, payload, now).1 matches Err(e) && e.code == 404,
{
    law_unknown_is_not_found(w.store.tables, id);
}

} // verus!
