//! When the scheduler submits a workflow of a deployment, and when it does not.

use vstd::prelude::*;
use crate::clock::Stamp;
use crate::config::{cron_of, CronV, DeploymentV};
use crate::json::JsonV;
use crate::order::{is_order, is_sorted_by, pick};
use crate::rows::DeploymentRowV;
use crate::scheduler::{firing_of, is_tick, last_minute, pause_of, Fired, TickV};
use crate::tables::{deployment_of, is_decoded, name_keys};
use crate::text::{first_where, lemma_first_where, lemma_first_where_is, lex_less};
use crate::worker::WorkerV;
use crate::worker_laws::{has_room, is_free, law_submission_starts_one};

verus! {

/// Whether the scheduler remembers that a deployment fired in a minute.
pub open spec fn fired_in(fired: Seq<Fired>, name: Seq<char>, minute: int) -> bool {
    exists|i: int|
        0 <= i < fired.len() && (#[trigger] fired[i]).0 == name && fired[i].1 == minute
}

/// Whether the scheduler remembers one firing of each deployment, its last.
pub open spec fn remembers_one(fired: Seq<Fired>) -> bool {
    forall|i: int, j: int|
        0 <= i < j < fired.len() ==> (#[trigger] fired[i]).0 != (#[trigger] fired[j]).0
}

proof fn lemma_last(fired: Seq<Fired>, name: Seq<char>, i: int)
    requires
        remembers_one(fired),
        0 <= i < fired.len(),
        fired[i].0 == name,
    ensures
        last_minute(fired, name) == Some(fired[i].1),
{
    let p = firing_of(name);
    assert forall|j: int| 0 <= j < i implies !p(#[trigger] fired[j]) by {
        assert(fired[j].0 != fired[i].0);
    }
    lemma_first_where_is(fired, p, i);
}

proof fn lemma_not_fired(fired: Seq<Fired>, name: Seq<char>, minute: i64)
    requires
        !fired_in(fired, name, minute as int),
    ensures
        last_minute(fired, name) != Some(minute),
{
    lemma_first_where(fired, firing_of(name));
    let i = first_where(fired, firing_of(name));
    if i < fired.len() {
        assert(firing_of(name)(fired[i]));
        assert(fired[i].0 == name);
    }
}

/// An enabled deployment whose expression fires at the minute that the local clock shows,
/// and that has not fired in that minute, has a workflow submitted, if it has room for one:
/// one launch of it is asked for, with its parameters, and the firing is remembered.
pub proof fn law_due_deployment_is_submitted(
    t: TickV,
    dep: DeploymentV,
    expr: Seq<char>,
    c: CronV,
    at: Stamp,
    token: Seq<char>,
    now: Seq<char>,
)
    requires
        dep.enabled,
        dep.cron == Some(expr),
        cron_of(expr) matches Ok(x) && x == c,
        c.fires_at(at),
        -8_100_000_000_000 <= at.secs + at.offset <= 8_100_000_000_000,
        !fired_in(t.fired, dep.name, (at.secs + at.offset) / 60),
        has_room(t.worker, dep),
        is_free(t.worker.store.tables, seq!['w', '-'] + token.take(8)),
    ensures
        ({
            let u = t.considered(dep, at, token, now);
            let launch = u.worker.launches.last();
            let row = u.worker.store.tables.workflows.last();
            &&& u.worker.launches.len() == t.worker.launches.len() + 1
            &&& u.worker.launches.drop_last() == t.worker.launches
            &&& launch.dep == dep && launch.workflow_id == seq!['w', '-'] + token.take(8)
                && launch.input == JsonV::Obj(dep.params)
            &&& u.worker.store.tables.workflows.len() == t.worker.store.tables.workflows.len() + 1
            &&& row.id == launch.workflow_id && row.deployment == dep.name && row.trigger == "cron"@
                && row.status == "running"@
            &&& fired_in(u.fired, dep.name, (at.secs + at.offset) / 60)
            &&& u.said.len() == t.said.len() + 1
        }),
{
    let m = ((at.secs + at.offset) / 60) as i64;
    lemma_not_fired(t.fired, dep.name, m);
    let u = t.considered(dep, at, token, now);
    law_submission_starts_one(
        t.worker,
        dep,
        "cron"@,
        JsonV::Null,
        None,
        token,
        now,
        Seq::empty(),
    );
    lemma_remembered(t.fired, dep.name, m);
}

proof fn lemma_remembered(fired: Seq<Fired>, name: Seq<char>, m: i64)
    ensures
        fired_in(crate::tables::put_row(fired, firing_of(name), (name, m)), name, m as int),
{
    let p = firing_of(name);
    lemma_first_where(fired, p);
    let i = first_where(fired, p);
    let after = crate::tables::put_row(fired, p, (name, m));
    assert(after[i] == (name, m));
}

/// A due deployment that skips overlaps and has an active workflow submits nothing; that it
/// was due is remembered and told.
pub proof fn law_active_deployment_is_passed_over(
    t: TickV,
    dep: DeploymentV,
    at: Stamp,
    token: Seq<char>,
    now: Seq<char>,
)
    requires
        dep.overlap == "skip"@,
        t.worker.active.contains(dep.name),
    ensures
        t.considered(dep, at, token, now).worker == t.worker,
{
}

/// A deployment that is disabled, has no expression, has one that cannot be read or does not
/// fire now, or that has fired in the minute that the local clock shows, is left alone.
pub proof fn law_deployment_that_is_not_due_is_left_alone(
    t: TickV,
    dep: DeploymentV,
    at: Stamp,
    token: Seq<char>,
    now: Seq<char>,
)
    requires
        remembers_one(t.fired),
        -8_100_000_000_000 <= at.secs + at.offset <= 8_100_000_000_000,
        !dep.enabled || dep.cron is None || cron_of(dep.cron.unwrap()) is Err || !cron_of(
            dep.cron.unwrap(),
        )->Ok_0.fires_at(at) || fired_in(t.fired, dep.name, (at.secs + at.offset) / 60),
    ensures
        t.considered(dep, at, token, now).worker == t.worker,
        t.considered(dep, at, token, now).fired == t.fired,
{
    if fired_in(t.fired, dep.name, (at.secs + at.offset) / 60) {
        let i = choose|i: int|
            0 <= i < t.fired.len() && (#[trigger] t.fired[i]).0 == dep.name && t.fired[i].1 == (
            at.secs + at.offset) / 60;
        lemma_last(t.fired, dep.name, i);
    }
}

/// An expression that cannot be read is told, with the name of its deployment.
pub proof fn law_bad_expression_is_told(
    t: TickV,
    dep: DeploymentV,
    at: Stamp,
    token: Seq<char>,
    now: Seq<char>,
)
    requires
        dep.enabled,
        dep.cron matches Some(expr) && cron_of(expr) is Err,
    ensures
        t.considered(dep, at, token, now).said.len() == t.said.len() + 1,
        t.considered(dep, at, token, now).said.drop_last() == t.said,
{
    assert(t.considered(dep, at, token, now).said.drop_last() =~= t.said);
}

/// The scheduler goes on to remember one firing of each deployment.
pub proof fn law_one_firing_is_remembered(
    t: TickV,
    dep: DeploymentV,
    at: Stamp,
    token: Seq<char>,
    now: Seq<char>,
)
    requires
        remembers_one(t.fired),
    ensures
        remembers_one(t.considered(dep, at, token, now).fired),
{
    let u = t.considered(dep, at, token, now).fired;
    let p = firing_of(dep.name);
    lemma_first_where(t.fired, p);
    let k = first_where(t.fired, p);
    assert forall|i: int, j: int| 0 <= i < j < u.len() implies (#[trigger] u[i]).0 != (
    #[trigger] u[j]).0 by {
        if u != t.fired {
            if k < t.fired.len() {
                assert(p(t.fired[k]));
                assert(u[i].0 == t.fired[i].0);
                assert(u[j].0 == t.fired[j].0);
                assert(t.fired[i].0 != t.fired[j].0);
            } else {
                assert(!p(t.fired[i]));
                if j < t.fired.len() {
                    assert(t.fired[i].0 != t.fired[j].0);
                }
            }
        } else {
            assert(t.fired[i].0 != t.fired[j].0);
        }
    }
}

/// A tick takes every deployment that is stored, in the order of their names.
pub proof fn law_tick_takes_every_deployment(
    w: WorkerV,
    deps: Seq<DeploymentV>,
    tokens: Seq<Seq<char>>,
    j: int,
    a: int,
    b: int,
)
    requires
        is_tick(w, deps, tokens),
    ensures
        deps.len() == w.store.tables.deployments.len(),
        tokens.len() == deps.len(),
        0 <= j < w.store.tables.deployments.len() ==> exists|k: int|
            0 <= k < deps.len() && deployment_of(w.store.tables.deployments[j]) == Some(
                #[trigger] deps[k],
            ),
        0 <= a < b < deps.len() ==> !lex_less(deps[b].name, deps[a].name),
{
    let all = w.store.tables.deployments;
    let keys = name_keys(all);
    let rows = choose|rows: Seq<DeploymentRowV>| #[trigger]
        is_sorted_by(all, keys, rows) && is_decoded(rows, deps);
    let o = choose|o: Seq<int>| is_order(keys, o) && rows == #[trigger] pick(all, o);
    if 0 <= j < all.len() {
        assert(o.contains(j));
        let k = choose|k: int| 0 <= k < o.len() && o[k] == j;
        assert(deployment_of(rows[k]) == Some(deps[k]));
    }
    if 0 <= a < b < deps.len() {
        assert(0 <= o[a] < keys.len() && 0 <= o[b] < keys.len());
        crate::order::lemma_before_differs(keys, o[a], o[b]);
        assert(deployment_of(rows[a]) == Some(deps[a]));
        assert(deployment_of(rows[b]) == Some(deps[b]));
    }
}

/// The scheduler sleeps to the next whole second, unless that is nearer than a twentieth of
/// a second.
pub proof fn law_pause_ends_on_the_second(nanos: int)
    requires
        0 <= nanos,
    ensures
        50_000_000 <= pause_of(nanos) <= 1_000_000_000,
        (nanos + pause_of(nanos)) % 1_000_000_000 == 0 || (pause_of(nanos) == 50_000_000 && nanos
            % 1_000_000_000 > 950_000_000),
{
}

} // verus!
