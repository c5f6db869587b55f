//! What the worker does to the rows of its tables, row by row.

use vstd::prelude::*;
use crate::config::DeploymentV;
use crate::json::{last_value, law_merged_lookup, lookup, JsonV};
use crate::laws::is_keyed;
use crate::protocol::FlowMsgV;
use crate::rows::WorkflowRowV;
use crate::store::{argv_of_text, StoreError};
use crate::tables::{deployment_named, running_of, workflow_of, workflow_with, Tables};
use crate::text::{first_where, is_blank, lemma_first_where, lemma_first_where_is};
use crate::worker::{version, ExecResultV, LaunchV, TerminalV, TriggerError, WorkerV};
use crate::workflow_laws::{
    conversation, law_last_word_counts, law_talk_leaves_workflows, says, Line,
};

verus! {

// ---------------------------------------------------------------------------
// Rows are found by their keys
// ---------------------------------------------------------------------------

proof fn lemma_workflow_at(t: Tables, i: int)
    requires
        is_keyed(t),
        0 <= i < t.workflows.len(),
    ensures
        first_where(t.workflows, workflow_with(t.workflows[i].id)) == i,
        t.workflow(t.workflows[i].id) == Some(t.workflows[i]),
{
    let id = t.workflows[i].id;
    let p = workflow_with(id);
    assert forall|j: int| 0 <= j < i implies !p(#[trigger] t.workflows[j]) by {
        assert(t.workflows[j].id != t.workflows[i].id);
    }
    lemma_first_where_is(t.workflows, p, i);
}

/// Whether no workflow has an id.
pub open spec fn is_free(t: Tables, id: Seq<char>) -> bool {
    forall|j: int| 0 <= j < t.workflows.len() ==> (#[trigger] t.workflows[j]).id != id
}

proof fn lemma_free(t: Tables, id: Seq<char>)
    ensures
        t.workflow(id) is None <==> is_free(t, id),
        is_free(t, id) ==> first_where(t.workflows, workflow_with(id)) == t.workflows.len(),
{
    let p = workflow_with(id);
    lemma_first_where(t.workflows, p);
    if is_free(t, id) {
        assert forall|j: int| 0 <= j < t.workflows.len() implies !p(#[trigger] t.workflows[j]) by {}
        lemma_first_where_is(t.workflows, p, t.workflows.len() as int);
    } else {
        let j = choose|j: int| 0 <= j < t.workflows.len() && (#[trigger] t.workflows[j]).id == id;
        assert(p(t.workflows[j]));
    }
}

/// A workflow is found by its id, with what its row holds. An input that cannot be read is
/// null, and an output that is not there or cannot be read is none.
pub proof fn law_workflow_is_found(t: Tables, i: int)
    requires
        is_keyed(t),
        0 <= i < t.workflows.len(),
    ensures
        ({
            let r = t.workflows[i];
            t.get_workflow(r.id) matches Some(w) && w.id == r.id && w.deployment == r.deployment
                && w.trigger == r.trigger && w.status == r.status && w.error == r.error && w.attempts
                == r.attempts && w.wake_at == r.wake_at && w.version == r.version && w.created_at
                == r.created_at && w.finished_at == r.finished_at && w.input == (match r.input {
                Some(j) => j,
                None => JsonV::Null,
            }) && w.output == (match r.output {
                Some(Some(j)) => Some(j),
                _ => None,
            })
        }),
{
    lemma_workflow_at(t, i);
}

/// An id that no workflow has finds none.
pub proof fn law_unknown_is_not_found(t: Tables, id: Seq<char>)
    requires
        is_free(t, id),
    ensures
        t.get_workflow(id) is None,
{
    lemma_free(t, id);
}

proof fn lemma_deployment_at(t: Tables, j: int)
    requires
        is_keyed(t),
        0 <= j < t.deployments.len(),
    ensures
        t.deployment(t.deployments[j].name) == Some(t.deployments[j]),
{
    let p = deployment_named(t.deployments[j].name);
    assert forall|k: int| 0 <= k < j implies !p(#[trigger] t.deployments[k]) by {
        assert(t.deployments[k].name != t.deployments[j].name);
    }
    lemma_first_where_is(t.deployments, p, j);
}

/// A deployment is found by its name, with what its row holds, if its command denotes a
/// list of strings and its parameters are an object; else it cannot be read.
pub proof fn law_deployment_is_found(w: WorkerV, j: int)
    requires
        is_keyed(w.store.tables),
        0 <= j < w.store.tables.deployments.len(),
        0 <= w.store.tables.deployments[j].retries <= u32::MAX,
        0 <= w.store.tables.deployments[j].concurrency <= u32::MAX,
    ensures
        ({
            let r = w.store.tables.deployments[j];
            let found = w.deployment(r.name);
            if argv_of_text(r.cmd) is Some && (r.params matches Some(JsonV::Obj(_))) {
                found matches Some(d) && d.name == r.name && Some(d.cmd) == argv_of_text(r.cmd)
                    && d.cron == r.cron && d.timezone == r.timezone && r.params == Some(
                    JsonV::Obj(d.params),
                ) && d.catchup == r.catchup && d.overlap == r.overlap && d.enabled == (r.enabled
                    != 0) && d.retries == r.retries && d.concurrency == r.concurrency
            } else {
                found is None
            }
        }),
{
    lemma_deployment_at(w.store.tables, j);
}

/// The name of a deployment that is found is the one that was asked for.
proof fn lemma_deployment_name(w: WorkerV, name: Seq<char>)
    ensures
        w.deployment(name) matches Some(d) ==> d.name == name,
{
    lemma_first_where(w.store.tables.deployments, deployment_named(name));
}

// ---------------------------------------------------------------------------
// Submission
// ---------------------------------------------------------------------------

/// How many workflows of a deployment run.
pub open spec fn running_count(rows: Seq<WorkflowRowV>, name: Seq<char>) -> nat
    decreases rows.len(),
{
    if rows.len() == 0 {
        0
    } else {
        running_count(rows.drop_last(), name) + if rows.last().deployment == name
            && rows.last().status == "running"@ {
            1nat
        } else {
            0
        }
    }
}

proof fn lemma_running_count(rows: Seq<WorkflowRowV>, name: Seq<char>)
    ensures
        rows.filter(running_of(name)).len() == running_count(rows, name),
    decreases rows.len(),
{
    reveal(Seq::filter);
    if rows.len() > 0 {
        lemma_running_count(rows.drop_last(), name);
    }
}

/// Whether a deployment admits one more workflow: it has no limit, or fewer of its
/// workflows run than that; and it does not skip overlaps, or none of its workflows is
/// active.
pub open spec fn has_room(w: WorkerV, dep: DeploymentV) -> bool {
    &&& dep.concurrency == 0 || running_count(w.store.tables.workflows, dep.name) < dep.concurrency
    &&& dep.overlap != "skip"@ || !w.active.contains(dep.name)
}

/// A submission under an id that a workflow has gives that id back and changes nothing,
/// whatever the deployment and its limits.
pub proof fn law_known_id_is_given_back(
    w: WorkerV,
    dep: DeploymentV,
    trigger: Seq<char>,
    extra: JsonV,
    i: int,
    token: Seq<char>,
    now: Seq<char>,
)
    requires
        0 <= i < w.store.tables.workflows.len(),
    ensures
        ({
            let id = w.store.tables.workflows[i].id;
            w.triggered(dep, trigger, extra, Some(id), token, now) == (
                w,
                Ok::<Seq<char>, TriggerError>(id),
            )
        }),
{
    lemma_free(w.store.tables, w.store.tables.workflows[i].id);
}

/// A submission of a deployment of which as many workflows run as may is refused, with an
/// id or without one, and changes nothing.
pub proof fn law_limit_is_kept(
    w: WorkerV,
    dep: DeploymentV,
    trigger: Seq<char>,
    extra: JsonV,
    id: Option<Seq<char>>,
    token: Seq<char>,
    now: Seq<char>,
)
    requires
        id matches Some(wid) ==> is_free(w.store.tables, wid),
        dep.concurrency > 0,
        running_count(w.store.tables.workflows, dep.name) >= dep.concurrency,
    ensures
        w.triggered(dep, trigger, extra, id, token, now) == (
            w,
            Err::<Seq<char>, TriggerError>(TriggerError::Limit),
        ),
{
    if let Some(wid) = id {
        lemma_free(w.store.tables, wid);
    }
    lemma_running_count(w.store.tables.workflows, dep.name);
}

/// A submission of a deployment that skips overlaps and has an active workflow is refused,
/// with an id or without one, and changes nothing.
pub proof fn law_overlap_is_refused(
    w: WorkerV,
    dep: DeploymentV,
    trigger: Seq<char>,
    extra: JsonV,
    id: Option<Seq<char>>,
    token: Seq<char>,
    now: Seq<char>,
)
    requires
        id matches Some(wid) ==> is_free(w.store.tables, wid),
        dep.overlap == "skip"@,
        w.active.contains(dep.name),
    ensures
        w.triggered(dep, trigger, extra, id, token, now).0 == w,
        w.triggered(dep, trigger, extra, id, token, now).1 is Err,
        dep.concurrency == 0 || running_count(w.store.tables.workflows, dep.name) < dep.concurrency
            ==> w.triggered(dep, trigger, extra, id, token, now).1 == Err::<Seq<char>, TriggerError>(
            TriggerError::Overlap,
        ),
{
    if let Some(wid) = id {
        lemma_free(w.store.tables, wid);
    }
    lemma_running_count(w.store.tables.workflows, dep.name);
}

/// Every other submission starts one workflow: under the id that was given, or one that is
/// made of the first characters of the token. Its input has the parameters that were given
/// over those of its deployment. A row is added that says so, its deployment is active, and
/// nothing else changes.
pub proof fn law_submission_starts_one(
    w: WorkerV,
    dep: DeploymentV,
    trigger: Seq<char>,
    extra: JsonV,
    id: Option<Seq<char>>,
    token: Seq<char>,
    now: Seq<char>,
    key: Seq<char>,
)
    requires
        has_room(w, dep),
        is_free(
            w.store.tables,
            match id {
                Some(wid) => wid,
                None => seq!['w', '-'] + token.take(8),
            },
        ),
    ensures
        ({
            let (v, r) = w.triggered(dep, trigger, extra, id, token, now);
            let wid = match id {
                Some(wid) => wid,
                None => seq!['w', '-'] + token.take(8),
            };
            let launch = v.launches.last();
            let row = v.store.tables.workflows.last();
            &&& r == Ok::<Seq<char>, TriggerError>(wid)
            &&& v.launches.len() == w.launches.len() + 1
            &&& v.launches.drop_last() == w.launches
            &&& launch.dep == dep && launch.workflow_id == wid
            &&& launch.input matches JsonV::Obj(m) && lookup(m, key) == match extra {
                JsonV::Obj(given) => match last_value(given, key) {
                    Some(j) => Some(j),
                    None => lookup(dep.params, key),
                },
                _ => lookup(dep.params, key),
            }
            &&& !(extra is Obj) ==> launch.input == JsonV::Obj(dep.params)
            &&& v.store.tables.workflows.len() == w.store.tables.workflows.len() + 1
            &&& v.store.tables.workflows.drop_last() == w.store.tables.workflows
            &&& v.store.tables == Tables { workflows: v.store.tables.workflows, ..w.store.tables }
            &&& row.id == wid && row.deployment == dep.name && row.trigger == trigger && row.status
                == "running"@ && row.input == Some(launch.input) && row.output is None
                && row.error is None && row.attempts == 0 && row.wake_at is None && row.version
                == version(dep.cmd) && row.created_at == now && row.updated_at == now
                && row.finished_at is None
            &&& v.active == w.active.insert(dep.name)
            &&& v.sent == w.sent
            &&& v.root == w.root
        }),
{
    let wid = match id {
        Some(wid) => wid,
        None => seq!['w', '-'] + token.take(8),
    };
    reveal_strlit("w-");
    assert("w-"@ =~= seq!['w', '-']);
    lemma_free(w.store.tables, wid);
    lemma_running_count(w.store.tables.workflows, dep.name);
    if let JsonV::Obj(given) = extra {
        law_merged_lookup(dep.params, given, key);
    }
    let v = w.triggered(dep, trigger, extra, id, token, now).0;
    assert(v.launches.drop_last() =~= w.launches);
    assert(v.store.tables.workflows.drop_last() =~= w.store.tables.workflows);
}

/// A token whose characters make an id that a workflow has starts nothing.
pub proof fn law_taken_token_starts_nothing(
    w: WorkerV,
    dep: DeploymentV,
    trigger: Seq<char>,
    extra: JsonV,
    token: Seq<char>,
    now: Seq<char>,
    i: int,
)
    requires
        0 <= i < w.store.tables.workflows.len(),
        w.store.tables.workflows[i].id == seq!['w', '-'] + token.take(8),
    ensures
        w.triggered(dep, trigger, extra, None, token, now).1 is Err,
        w.triggered(dep, trigger, extra, None, token, now).0.store == w.store,
        w.triggered(dep, trigger, extra, None, token, now).0.launches == w.launches,
{
    reveal_strlit("w-");
    assert("w-"@ =~= seq!['w', '-']);
    lemma_free(w.store.tables, w.store.tables.workflows[i].id);
}

// ---------------------------------------------------------------------------
// The end of an execution
// ---------------------------------------------------------------------------

/// Whether a worker is another one but for the row of one workflow.
pub open spec fn differs_by_row(w: WorkerV, v: WorkerV, i: int, row: WorkflowRowV) -> bool {
    &&& v.store.tables == Tables {
        workflows: w.store.tables.workflows.update(i, row),
        ..w.store.tables
    }
    &&& v.active == w.active
    &&& v.sent == w.sent
    &&& v.launches == w.launches
    &&& v.root == w.root
}

/// A workflow that reports its failure has failed, whatever its exit code: its row says so,
/// with no output and an end, and it is not dispatched again.
pub proof fn law_reported_failure_fails(
    w: WorkerV,
    dep: DeploymentV,
    i: int,
    exit_ok: bool,
    now: Seq<char>,
)
    requires
        is_keyed(w.store.tables),
        0 <= i < w.store.tables.workflows.len(),
    ensures
        ({
            let r = w.store.tables.workflows[i];
            let res = ExecResultV { terminal: Some(TerminalV::Failure), exit_ok };
            let (v, again) = w.supervised(dep, r.id, res, now);
            &&& again == Ok::<bool, StoreError>(false)
            &&& differs_by_row(
                w,
                v,
                i,
                WorkflowRowV {
                    status: "failed"@,
                    error: Some("workflow reported failure"@),
                    output: None,
                    finished_at: Some(now),
                    updated_at: now,
                    ..r
                },
            )
        }),
{
    lemma_workflow_at(w.store.tables, i);
}

/// A workflow that reports its success has succeeded, whatever its exit code, with the
/// value that it returns as its output, and is not dispatched again.
pub proof fn law_reported_success_succeeds(
    w: WorkerV,
    dep: DeploymentV,
    i: int,
    output: JsonV,
    exit_ok: bool,
    now: Seq<char>,
)
    requires
        is_keyed(w.store.tables),
        0 <= i < w.store.tables.workflows.len(),
    ensures
        ({
            let r = w.store.tables.workflows[i];
            let res = ExecResultV { terminal: Some(TerminalV::Success(output)), exit_ok };
            let (v, again) = w.supervised(dep, r.id, res, now);
            &&& again == Ok::<bool, StoreError>(false)
            &&& differs_by_row(
                w,
                v,
                i,
                WorkflowRowV {
                    status: "success"@,
                    error: None,
                    output: Some(Some(output)),
                    finished_at: Some(now),
                    updated_at: now,
                    ..r
                },
            )
        }),
{
    lemma_workflow_at(w.store.tables, i);
}

/// A workflow that parks itself, whatever its exit code, sleeps until the instant that it
/// names, or waits for a signal, with everything else of its row as it was, and is not
/// dispatched again.
pub proof fn law_reported_park_parks(
    w: WorkerV,
    dep: DeploymentV,
    i: int,
    wake_at: Option<i64>,
    exit_ok: bool,
    now: Seq<char>,
)
    requires
        is_keyed(w.store.tables),
        0 <= i < w.store.tables.workflows.len(),
    ensures
        ({
            let r = w.store.tables.workflows[i];
            let res = ExecResultV { terminal: Some(TerminalV::Parked(wake_at)), exit_ok };
            let (v, again) = w.supervised(dep, r.id, res, now);
            &&& again == Ok::<bool, StoreError>(false)
            &&& differs_by_row(
                w,
                v,
                i,
                WorkflowRowV {
                    status: match wake_at {
                        Some(_) => "sleeping"@,
                        None => "waiting"@,
                    },
                    wake_at,
                    updated_at: now,
                    ..r
                },
            )
        }),
{
    lemma_workflow_at(w.store.tables, i);
}

/// A process that reports nothing and ends well has succeeded, without an output.
pub proof fn law_silent_success_succeeds(w: WorkerV, dep: DeploymentV, i: int, now: Seq<char>)
    requires
        is_keyed(w.store.tables),
        0 <= i < w.store.tables.workflows.len(),
    ensures
        ({
            let r = w.store.tables.workflows[i];
            let res = ExecResultV { terminal: None, exit_ok: true };
            let (v, again) = w.supervised(dep, r.id, res, now);
            &&& again == Ok::<bool, StoreError>(false)
            &&& differs_by_row(
                w,
                v,
                i,
                WorkflowRowV {
                    status: "success"@,
                    error: None,
                    output: None,
                    finished_at: Some(now),
                    updated_at: now,
                    ..r
                },
            )
        }),
{
    lemma_workflow_at(w.store.tables, i);
}

/// A process that reports nothing and ends badly has crashed. While its workflow has been
/// dispatched again less often than its deployment has retries, it is dispatched once more
/// and counted, and an event tells so; else the workflow has failed.
pub proof fn law_silent_failure_is_a_crash(w: WorkerV, dep: DeploymentV, i: int, now: Seq<char>)
    requires
        is_keyed(w.store.tables),
        0 <= i < w.store.tables.workflows.len(),
        0 <= w.store.tables.workflows[i].attempts <= u32::MAX,
        w.store.tables.events.len() == 0 || w.store.tables.events.last().id < i64::MAX,
    ensures
        ({
            let r = w.store.tables.workflows[i];
            let res = ExecResultV { terminal: None, exit_ok: false };
            let (v, again) = w.supervised(dep, r.id, res, now);
            let t = v.store.tables;
            if r.attempts < dep.retries {
                &&& again == Ok::<bool, StoreError>(true)
                &&& t.workflows == w.store.tables.workflows.update(
                    i,
                    WorkflowRowV {
                        status: "running"@,
                        attempts: (r.attempts + 1) as i64,
                        updated_at: now,
                        finished_at: None,
                        ..r
                    },
                )
                &&& t == Tables { workflows: t.workflows, events: t.events, ..w.store.tables }
                &&& t.events.drop_last() == w.store.tables.events
                &&& t.events.last().workflow_id == r.id && t.events.last().kind
                    == "workflow_resume"@
                &&& t.events.last().payload matches Some(JsonV::Obj(m)) && m[1].1 == JsonV::Int(
                    r.attempts + 1,
                )
                &&& v.sent.drop_last() == w.sent && v.sent.len() == w.sent.len() + 1
                &&& v.active == w.active && v.launches == w.launches
            } else {
                &&& again == Ok::<bool, StoreError>(false)
                &&& differs_by_row(
                    w,
                    v,
                    i,
                    WorkflowRowV {
                        status: "failed"@,
                        error: Some("crashed"@),
                        output: None,
                        finished_at: Some(now),
                        updated_at: now,
                        ..r
                    },
                )
            }
        }),
{
    lemma_workflow_at(w.store.tables, i);
    let r = w.store.tables.workflows[i];
    let res = ExecResultV { terminal: None, exit_ok: false };
    let v = w.supervised(dep, r.id, res, now).0;
    if r.attempts < dep.retries {
        assert(v.store.tables.events.drop_last() =~= w.store.tables.events);
        assert(v.sent.drop_last() =~= w.sent);
    }
}

/// Whether a line is one with which a workflow says how it ends.
pub open spec fn is_last_word(l: Line) -> bool {
    !is_blank(l.0) && (match l.1 {
        Some(FlowMsgV::WorkflowSuccess { .. }) => true,
        Some(FlowMsgV::WorkflowFailure { .. }) => true,
        Some(FlowMsgV::WorkflowPark { .. }) => true,
        _ => false,
    })
}

/// The last word of a process decides what becomes of its workflow, whatever it said before
/// and whatever its exit code: its row has the status that the last word asks for, with the
/// value that it returns, the failure that it reports or the instant that it sleeps until,
/// and it is not dispatched again.
pub proof fn law_last_word_decides(
    w: WorkerV,
    dep: DeploymentV,
    i: int,
    lines: Seq<Line>,
    k: int,
    exit_ok: bool,
    now: Seq<char>,
)
    requires
        is_keyed(w.store.tables),
        0 <= i < w.store.tables.workflows.len(),
        0 <= k < lines.len(),
        is_last_word(lines[k]),
        forall|j: int| k < j < lines.len() ==> !is_last_word(#[trigger] lines[j]),
    ensures
        ({
            let r = w.store.tables.workflows[i];
            let (u, end) = conversation(w, r.id, lines);
            let res = ExecResultV { terminal: end, exit_ok };
            let (v, again) = u.supervised(dep, r.id, res, now);
            let row = v.store.tables.workflows[i];
            &&& again == Ok::<bool, StoreError>(false)
            &&& row.id == r.id && row.input == r.input && row.attempts == r.attempts && row.updated_at
                == now
            &&& match lines[k].1.unwrap() {
                FlowMsgV::WorkflowSuccess { output } => row.status == "success"@ && row.output
                    == Some(Some(output)) && row.error is None && row.finished_at == Some(now),
                FlowMsgV::WorkflowFailure { .. } => row.status == "failed"@ && row.output is None
                    && row.error == Some("workflow reported failure"@) && row.finished_at == Some(
                    now,
                ),
                FlowMsgV::WorkflowPark { wake_at } => row.wake_at == wake_at && row.status
                    == match wake_at {
                    Some(_) => "sleeping"@,
                    None => "waiting"@,
                },
                _ => false,
            }
        }),
{
    let r = w.store.tables.workflows[i];
    let u = conversation(w, r.id, lines).0;
    assert forall|j: int| k < j < lines.len() implies says(#[trigger] lines[j]) is None by {
        assert(!is_last_word(lines[j]));
    }
    law_last_word_counts(w, r.id, lines, k);
    law_talk_leaves_workflows(w, r.id, lines);
    assert(first_where(u.store.tables.workflows, workflow_with(r.id)) == i) by {
        lemma_workflow_at(w.store.tables, i);
    }
}

/// The end of a supervision frees the deployment and no other; where it broke off, the
/// workflow has failed for that reason.
pub proof fn law_release_frees_the_deployment(
    w: WorkerV,
    name: Seq<char>,
    i: int,
    error: Option<Seq<char>>,
    now: Seq<char>,
    other: Seq<char>,
)
    requires
        is_keyed(w.store.tables),
        0 <= i < w.store.tables.workflows.len(),
    ensures
        ({
            let r = w.store.tables.workflows[i];
            let v = w.released(name, r.id, error, now);
            &&& v.active.contains(other) <==> w.active.contains(other) && other != name
            &&& v.sent == w.sent && v.launches == w.launches
            &&& v.store.tables == if error is Some {
                Tables {
                    workflows: w.store.tables.workflows.update(
                        i,
                        WorkflowRowV {
                            status: "failed"@,
                            error,
                            output: None,
                            finished_at: Some(now),
                            updated_at: now,
                            ..r
                        },
                    ),
                    ..w.store.tables
                }
            } else {
                w.store.tables
            }
        }),
{
    lemma_workflow_at(w.store.tables, i);
}

// ---------------------------------------------------------------------------
// Dispatching again
// ---------------------------------------------------------------------------

/// Whether a workflow can be dispatched again as a deployment: that has the name under which
/// the workflow was submitted, and the command that it had then.
pub open spec fn is_same_code(w: WorkerV, r: WorkflowRowV, dep: DeploymentV) -> bool {
    w.deployment(r.deployment) == Some(dep) && (r.version.len() == 0 || version(dep.cmd)
        == r.version)
}

/// What is asked for of a workflow that is dispatched again.
pub open spec fn is_launch(l: LaunchV, r: WorkflowRowV, dep: DeploymentV) -> bool {
    l.workflow_id == r.id && l.dep == dep && l.input == match r.input {
        Some(j) => j,
        None => JsonV::Null,
    }
}

/// Whether the launches of a worker are those of another and one more of a workflow.
pub open spec fn launches_once(w: WorkerV, v: WorkerV, r: WorkflowRowV, dep: DeploymentV) -> bool {
    exists|k: int| #[trigger] launched_at(w, v, r, dep, k)
}

/// Whether of the launches that a worker has over another the one at `k` is the only one of
/// a workflow.
pub open spec fn launched_at(
    w: WorkerV,
    v: WorkerV,
    r: WorkflowRowV,
    dep: DeploymentV,
    k: int,
) -> bool {
    &&& w.launches.len() <= k < v.launches.len()
    &&& v.launches.take(w.launches.len() as int) == w.launches
    &&& is_launch(v.launches[k], r, dep)
    &&& forall|j: int|
        w.launches.len() <= j < v.launches.len() && j != k ==> (#[trigger] v.launches[j]).workflow_id
            != r.id
}

/// Whether a worker has launches of another, and none more of a workflow.
pub open spec fn launches_none(w: WorkerV, v: WorkerV, id: Seq<char>) -> bool {
    &&& w.launches.len() <= v.launches.len()
    &&& v.launches.take(w.launches.len() as int) == w.launches
    &&& forall|j: int|
        w.launches.len() <= j < v.launches.len() ==> (#[trigger] v.launches[j]).workflow_id != id
}

/// A workflow whose code is as it was is set running, told under the name of the reason,
/// and started with its input; its deployment is active, and no other row changes.
pub proof fn law_dispatch_again_starts(
    w: WorkerV,
    i: int,
    dep: DeploymentV,
    event: Seq<char>,
    now: Seq<char>,
)
    requires
        is_keyed(w.store.tables),
        0 <= i < w.store.tables.workflows.len(),
        is_same_code(w, w.store.tables.workflows[i], dep),
        w.store.tables.events.len() == 0 || w.store.tables.events.last().id < i64::MAX,
    ensures
        ({
            let r = w.store.tables.workflows[i];
            let v = w.resumed(workflow_of(r), event, now);
            let t = v.store.tables;
            &&& t.workflows == w.store.tables.workflows.update(
                i,
                WorkflowRowV { status: "running"@, wake_at: None, updated_at: now, ..r },
            )
            &&& t == Tables { workflows: t.workflows, events: t.events, ..w.store.tables }
            &&& t.events.drop_last() == w.store.tables.events
            &&& t.events.last().workflow_id == r.id && t.events.last().kind == event
                && t.events.last().ts == now && t.events.last().payload == Some(
                JsonV::Obj(seq![("type"@, JsonV::Str(event))]),
            )
            &&& v.sent.len() == w.sent.len() + 1 && v.sent.drop_last() == w.sent
            &&& v.sent.last().workflow_id == r.id && v.sent.last().payload == JsonV::Obj(
                seq![("type"@, JsonV::Str(event))],
            )
            &&& v.launches.len() == w.launches.len() + 1 && v.launches.drop_last() == w.launches
            &&& is_launch(v.launches.last(), r, dep)
            &&& v.active == w.active.insert(r.deployment)
        }),
{
    let r = w.store.tables.workflows[i];
    lemma_workflow_at(w.store.tables, i);
    lemma_deployment_name(w, r.deployment);
    let v = w.resumed(workflow_of(r), event, now);
    assert(v.store.tables.events.drop_last() =~= w.store.tables.events);
    assert(v.sent.drop_last() =~= w.sent);
    assert(v.launches.drop_last() =~= w.launches);
}

/// A workflow whose deployment is gone, or has another command than when it was submitted,
/// is not started: it has failed for that reason, and nothing else changes.
pub proof fn law_changed_code_is_refused(w: WorkerV, i: int, event: Seq<char>, now: Seq<char>)
    requires
        is_keyed(w.store.tables),
        0 <= i < w.store.tables.workflows.len(),
        w.deployment(w.store.tables.workflows[i].deployment) matches Some(dep) ==> w.store.tables.workflows[i].version.len()
            > 0 && version(dep.cmd) != w.store.tables.workflows[i].version,
    ensures
        ({
            let r = w.store.tables.workflows[i];
            differs_by_row(
                w,
                w.resumed(workflow_of(r), event, now),
                i,
                WorkflowRowV {
                    status: "failed"@,
                    error: Some(
                        match w.deployment(r.deployment) {
                            Some(_) => "version mismatch: deployment command changed since submission"@,
                            None => "deployment removed"@,
                        },
                    ),
                    output: None,
                    finished_at: Some(now),
                    updated_at: now,
                    ..r
                },
            )
        }),
{
    lemma_workflow_at(w.store.tables, i);
}

} // verus!
