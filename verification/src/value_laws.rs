//! What holds of the values that everything else is made of: JSON, texts and their order,
//! commands, manifests, and clock and calendar.

use std::collections::hash_map::DefaultHasher;
use vstd::prelude::*;
use vstd::bytes::spec_u64_to_le_bytes;
use vstd::std_specs::hash::DefaultHasherAdditionalSpecFns;
use vstd::utf8::encode_utf8;
use crate::cli::{flow_of, is_oneshot};
use crate::clock::{civil_of, Stamp};
use crate::config::{called, minute_behind, DeploymentV};
use crate::json::{merge_of, JsonV};
use crate::laws::{law_deployment_is_read_back, lemma_put_keeps};
use crate::server::installed;
use crate::store::{argv_of_text, argv_text_of};
use crate::tables::{deployment_named, deployment_of, deployment_row, StoreV, Tables};
use crate::text::{digits_of, hex_of, lemma_first_where_is, lex_less};
use crate::worker::{hashed, version, TriggerError, WorkerV};

verus! {

// ---------------------------------------------------------------------------
// JSON
// ---------------------------------------------------------------------------

/// What is read of a member depends on its kind: a text, a number and a truth value are read
/// as such, and anything else counts as if it were not there.
pub proof fn law_members_are_read_by_kind(
    j: JsonV,
    k: Seq<char>,
    s: Seq<char>,
    n: int,
    b: bool,
    default: Seq<char>,
    other: bool,
)
    ensures
        j.field(k) == Some(JsonV::Str(s)) ==> j.field_text(k, default) == s,
        j.field(k) is None ==> j.field_text(k, default) == default && j.field_int(k) == 0
            && j.field_bool(k, other) == other && j.at(k) == JsonV::Null,
        (j.field(k) matches Some(v) && !(v is Str)) ==> j.field_text(k, default) == default,
        j.field(k) == Some(JsonV::Int(n)) && i64::MIN <= n <= i64::MAX ==> j.field_int(k) == n,
        (j.field(k) matches Some(v) && !(v is Int)) ==> j.field_int(k) == 0,
        j.field(k) == Some(JsonV::Bool(b)) ==> j.field_bool(k, other) == b,
        (j.field(k) matches Some(v) && !(v is Bool)) ==> j.field_bool(k, other) == other,
        j.field(k) matches Some(v) ==> j.at(k) == v,
        !(j is Obj) ==> j.field(k) is None,
{
}

/// The items of an array are read as they are; anything else has none. A number is an
/// integer or a real one.
pub proof fn law_items_are_those_of_an_array(v: Seq<JsonV>, j: JsonV)
    ensures
        JsonV::Arr(v).items() == v,
        !(j is Arr) ==> j.items().len() == 0,
        j.is_number() <==> j is Int || j is Real,
        j.string() is Some <==> j is Str,
        j matches JsonV::Str(s) ==> j.string() == Some(s),
{
}

/// What is given over parameters counts only if it is an object, as they are.
pub proof fn law_only_objects_are_merged(a: JsonV, b: JsonV)
    requires
        !(a is Obj && b is Obj),
    ensures
        merge_of(a, b) == a,
{
}

// ---------------------------------------------------------------------------
// Texts
// ---------------------------------------------------------------------------

/// Texts are ordered by the first character in which they differ, and a text that begins
/// another comes before it.
pub proof fn law_first_difference_decides(
    p: Seq<char>,
    x: char,
    a: Seq<char>,
    y: char,
    b: Seq<char>,
)
    requires
        x != y,
    ensures
        lex_less(p + seq![x] + a, p + seq![y] + b) <==> x < y,
        lex_less(p, p + seq![x] + a),
        !lex_less(p, p),
    decreases p.len(),
{
    let s = p + seq![x] + a;
    let t = p + seq![y] + b;
    if p.len() == 0 {
        assert(s[0] == x && t[0] == y);
    } else {
        let q = p.skip(1);
        law_first_difference_decides(q, x, a, y, b);
        assert(s.skip(1) =~= q + seq![x] + a);
        assert(t.skip(1) =~= q + seq![y] + b);
        assert(s[0] == p[0] && t[0] == p[0]);
    }
}

/// The value of a hexadecimal digit.
pub open spec fn hex_digit(c: char) -> nat {
    if '0' <= c <= '9' {
        (c as u32 - '0' as u32) as nat
    } else {
        (c as u32 - 'a' as u32 + 10) as nat
    }
}

/// The number that hexadecimal digits denote.
pub open spec fn hex_value(s: Seq<char>) -> nat
    decreases s.len(),
{
    if s.len() == 0 {
        0
    } else {
        hex_value(s.drop_last()) * 16 + hex_digit(s.last())
    }
}

/// A number that is written in hexadecimal is read back.
pub proof fn law_hex_is_read_back(n: nat)
    ensures
        hex_value(hex_of(n)) == n,
        hex_of(n).len() > 0,
    decreases n,
{
    let d = hex_of(n);
    if n < 16 {
        assert(d =~= seq![crate::text::digit_char(n)]);
        assert(d.drop_last() =~= Seq::<char>::empty());
        assert(hex_value(d.drop_last()) == 0);
    } else {
        law_hex_is_read_back(n / 16);
        let h = hex_of(n / 16);
        assert(d == h.push(crate::text::digit_char(n % 16)));
        assert(d.drop_last() =~= h);
    }
}

proof fn lemma_digits_nonempty(n: nat, base: nat)
    ensures
        digits_of(n, base).len() > 0,
    decreases n,
{
}

/// The fingerprint of a command is never empty, and is made of the number of its words and
/// of every one of them, each set off from the next.
pub proof fn law_fingerprint_covers_every_word(cmd: Seq<Seq<char>>, i: int)
    ensures
        version(cmd).len() > 0,
        exists|x: Seq<Seq<u8>>|
            version(cmd) == hex_of(#[trigger] DefaultHasher::spec_finish(x) as nat) && x.len() == 1
                + 2 * cmd.len() && x[0] == spec_u64_to_le_bytes(cmd.len() as u64) && (0 <= i
                < cmd.len() ==> x[1 + 2 * i] == encode_utf8(cmd[i]) && x[2 + 2 * i] == seq![0xffu8]),
{
    let x = seq![spec_u64_to_le_bytes(cmd.len() as u64)] + hashed(cmd);
    lemma_digits_nonempty(DefaultHasher::spec_finish(x) as nat, 16);
    lemma_hashed(cmd, i);
    if 0 <= i < cmd.len() {
        assert(x[1 + 2 * i] == hashed(cmd)[2 * i]);
        assert(x[2 + 2 * i] == hashed(cmd)[2 * i + 1]);
    }
}

proof fn lemma_hashed(cmd: Seq<Seq<char>>, i: int)
    ensures
        hashed(cmd).len() == 2 * cmd.len(),
        0 <= i < cmd.len() ==> hashed(cmd)[2 * i] == encode_utf8(cmd[i]) && hashed(cmd)[2 * i + 1]
            == seq![0xffu8],
    decreases cmd.len(),
{
    if cmd.len() > 0 {
        let rest = cmd.drop_last();
        lemma_hashed(rest, i);
        if 0 <= i < rest.len() {
            assert(rest[i] == cmd[i]);
        }
    }
}

// ---------------------------------------------------------------------------
// Manifests
// ---------------------------------------------------------------------------

/// A flow of a manifest is found by its name: the first of that name.
pub proof fn law_first_flow_is_found(flows: Seq<DeploymentV>, k: int)
    requires
        0 <= k < flows.len(),
        forall|j: int| 0 <= j < k ==> (#[trigger] flows[j]).name != flows[k].name,
    ensures
        flow_of(flows, flows[k].name) == Some(flows[k]),
{
    let p = called(flows[k].name);
    assert forall|j: int| 0 <= j < k implies !p(#[trigger] flows[j]) by {
        assert(flows[j].name != flows[k].name);
    }
    lemma_first_where_is(flows, p, k);
}

/// A name that a manifest does not have is told, and starts nothing.
pub proof fn law_unknown_flow_is_not_run(
    flows: Seq<DeploymentV>,
    path: Seq<char>,
    name: Seq<char>,
    params: JsonV,
    root: Seq<char>,
    token: Seq<char>,
    now: Seq<char>,
    r: Result<(WorkerV, Seq<char>), Seq<char>>,
)
    requires
        forall|j: int| 0 <= j < flows.len() ==> (#[trigger] flows[j]).name != name,
        is_oneshot(flows, path, name, params, root, token, now, r),
    ensures
        r == Err::<(WorkerV, Seq<char>), Seq<char>>("no workflow named '"@ + name + "' in "@ + path),
{
    let p = called(name);
    assert forall|j: int| 0 <= j < flows.len() implies !p(#[trigger] flows[j]) by {
        assert(flows[j].name != name);
    }
    lemma_first_where_is(flows, p, flows.len() as int);
}

/// A flow of a manifest that is run alone is started at once, with the parameters that were
/// given over its own, and is the only workflow of its worker.
pub proof fn law_flow_is_run_alone(
    flows: Seq<DeploymentV>,
    k: int,
    path: Seq<char>,
    params: JsonV,
    root: Seq<char>,
    token: Seq<char>,
    now: Seq<char>,
    r: Result<(WorkerV, Seq<char>), Seq<char>>,
)
    requires
        0 <= k < flows.len(),
        forall|j: int| 0 <= j < k ==> (#[trigger] flows[j]).name != flows[k].name,
        is_oneshot(flows, path, flows[k].name, params, root, token, now, r),
    ensures
        r matches Ok((w, id)) && w.launches.len() == 1 && w.launches[0].dep == flows[k]
            && w.launches[0].workflow_id == id && w.launches[0].input == merge_of(
            JsonV::Obj(flows[k].params),
            params,
        ) && w.store.tables.workflows.len() == 1 && w.store.tables.workflows[0].id == id
            && w.store.tables.workflows[0].trigger == "manual"@ && w.store.tables.workflows[0].status
            == "running"@ && w.root == root,
{
    law_first_flow_is_found(flows, k);
    let dep = flows[k];
    let w0 = crate::cli::oneshot_worker(root, dep, argv_text_of(dep.cmd));
    assert(w0.store.tables.workflows =~= Seq::empty());
    crate::worker_laws::law_submission_starts_one(
        w0,
        dep,
        "manual"@,
        params,
        None,
        token,
        now,
        Seq::empty(),
    );
    assert(w0.launches =~= Seq::empty());
}

/// After a manifest was installed, each of its flows is stored as it is declared; of two of
/// one name the later one.
pub proof fn law_manifest_is_installed(s: StoreV, ds: Seq<DeploymentV>, k: int)
    requires
        0 <= k < ds.len(),
        forall|j: int| k < j < ds.len() ==> (#[trigger] ds[j]).name != ds[k].name,
        argv_of_text(argv_text_of(ds[k].cmd)) == Some(ds[k].cmd),
    ensures
        installed(s, ds).tables.deployment(ds[k].name) matches Some(r) && deployment_of(r) == Some(
            ds[k],
        ),
        installed(s, ds).tables.workflows == s.tables.workflows,
    decreases ds.len(),
{
    let rest = ds.drop_last();
    lemma_install_leaves_workflows(s, ds);
    if k == ds.len() - 1 {
        law_deployment_is_read_back(installed(s, rest), ds[k], argv_text_of(ds[k].cmd));
    } else {
        assert(rest[k] == ds[k]);
        assert forall|j: int| k < j < rest.len() implies (#[trigger] rest[j]).name != rest[k].name by {
            assert(rest[j] == ds[j]);
        }
        law_manifest_is_installed(s, rest, k);
        let last = ds.last();
        assert(ds[ds.len() - 1].name != ds[k].name);
        let row = deployment_row(last, argv_text_of(last.cmd));
        lemma_put_keeps(
            installed(s, rest).tables.deployments,
            deployment_named(last.name),
            deployment_named(ds[k].name),
            row,
        );
    }
}

/// A deployment that is written leaves the others, and every other table, as they were.
pub proof fn law_other_deployments_are_left_alone(
    s: StoreV,
    d: DeploymentV,
    cmd: Seq<char>,
    other: Seq<char>,
)
    requires
        other != d.name,
    ensures
        s.deployed(d, cmd).tables.deployment(other) == s.tables.deployment(other),
        s.deployed(d, cmd).tables == (Tables {
            deployments: s.deployed(d, cmd).tables.deployments,
            ..s.tables
        }),
{
    lemma_put_keeps(
        s.tables.deployments,
        deployment_named(d.name),
        deployment_named(other),
        deployment_row(d, cmd),
    );
}

proof fn lemma_install_leaves_workflows(s: StoreV, ds: Seq<DeploymentV>)
    ensures
        installed(s, ds).tables.workflows == s.tables.workflows,
    decreases ds.len(),
{
    if ds.len() > 0 {
        lemma_install_leaves_workflows(s, ds.drop_last());
    }
}

// ---------------------------------------------------------------------------
// Clock and calendar
// ---------------------------------------------------------------------------

proof fn lemma_rounds(secs: int)
    ensures
        (secs + 60) / 60 % 60 == (if secs / 60 % 60 == 59 {
            0
        } else {
            secs / 60 % 60 + 1
        }),
        (secs + 3600) / 3600 % 24 == (if secs / 3600 % 24 == 23 {
            0
        } else {
            secs / 3600 % 24 + 1
        }),
        (secs + 3600) / 60 % 60 == secs / 60 % 60,
        ((secs + 86400) / 86400 + 4) % 7 == (if (secs / 86400 + 4) % 7 == 6 {
            0
        } else {
            (secs / 86400 + 4) % 7 + 1
        }),
        (secs + 86400) / 3600 % 24 == secs / 3600 % 24,
        (secs + 86400) / 60 % 60 == secs / 60 % 60,
{
    lemma_quotients(secs);
    lemma_next(secs / 60, 60);
    lemma_next(secs / 3600, 24);
    lemma_next(secs / 86400 + 4, 7);
    vstd::arithmetic::div_mod::lemma_mod_add_multiples_vanish(secs / 60, 60);
    vstd::arithmetic::div_mod::lemma_mod_add_multiples_vanish(secs / 3600, 24);
    vstd::arithmetic::div_mod::lemma_mod_multiples_vanish(24, secs / 60, 60);
}

proof fn lemma_quotients(secs: int)
    ensures
        (secs + 60) / 60 == secs / 60 + 1,
        (secs + 3600) / 3600 == secs / 3600 + 1,
        (secs + 3600) / 60 == secs / 60 + 60,
        (secs + 86400) / 86400 == secs / 86400 + 1,
        (secs + 86400) / 3600 == secs / 3600 + 24,
        (secs + 86400) / 60 == secs / 60 + 1440,
{
}

proof fn lemma_next(x: int, n: int)
    requires
        n == 60 || n == 24 || n == 7,
    ensures
        (x + 1) % n == if x % n == n - 1 {
            0
        } else {
            x % n + 1
        },
{
    if n == 60 {
        assert((x + 1) % 60 == if x % 60 == 59 { 0 } else { x % 60 + 1 });
    } else if n == 24 {
        assert((x + 1) % 24 == if x % 24 == 23 { 0 } else { x % 24 + 1 });
    } else {
        assert((x + 1) % 7 == if x % 7 == 6 { 0 } else { x % 7 + 1 });
    }
}

proof fn lemma_shown(secs: int)
    ensures
        civil_of(secs).minute == secs / 60 % 60,
        civil_of(secs).hour == secs / 3600 % 24,
        civil_of(secs).weekday == (secs / 86400 + 4) % 7,
{
}

/// The minutes go round in sixty, from midnight of the epoch on.
#[verifier::spinoff_prover]
#[verifier::rlimit(40)]
pub proof fn law_minutes_go_round(secs: int)
    ensures
        civil_of(secs).minute <= 59,
        0 <= secs < 60 ==> civil_of(secs).minute == 0,
        civil_of(secs + 60).minute == (if civil_of(secs).minute == 59 {
            0
        } else {
            civil_of(secs).minute + 1
        }),
{
    lemma_rounds(secs);
    lemma_shown(secs);
    lemma_shown(secs + 60);
}

/// The hours go round in twenty-four, from midnight of the epoch on.
#[verifier::spinoff_prover]
#[verifier::rlimit(40)]
pub proof fn law_hours_go_round(secs: int)
    ensures
        civil_of(secs).hour <= 23,
        0 <= secs < 3600 ==> civil_of(secs).hour == 0,
        civil_of(secs + 3600).hour == (if civil_of(secs).hour == 23 {
            0
        } else {
            civil_of(secs).hour + 1
        }),
        civil_of(secs + 3600).minute == civil_of(secs).minute,
{
    lemma_rounds(secs);
    lemma_shown(secs);
    lemma_shown(secs + 3600);
}

/// The days of the week go round in seven, from the Thursday of the epoch on.
#[verifier::spinoff_prover]
#[verifier::rlimit(40)]
pub proof fn law_week_goes_round(secs: int)
    ensures
        civil_of(secs).weekday <= 6,
        0 <= secs < 86400 ==> civil_of(secs).weekday == 4,
        civil_of(secs + 86400).weekday == (if civil_of(secs).weekday == 6 {
            0
        } else {
            civil_of(secs).weekday + 1
        }),
        civil_of(secs + 86400).hour == civil_of(secs).hour,
{
    lemma_rounds(secs);
    lemma_shown(secs);
    lemma_shown(secs + 86400);
}

/// The minute behind an instant is the next whole minute that the local clock will show, when
/// it is so far ahead; where the clock shows it twice or never, there is none.
#[verifier::spinoff_prover]
pub proof fn law_minute_behind_is_the_next(from: Stamp, ahead: i32, p: i32)
    requires
        -8_100_000_000_000 <= from.secs <= 8_100_000_000_000,
    ensures
        minute_behind(from, ahead, None) is None,
        minute_behind(from, ahead, Some(p)) matches Some(t) && t.nanos == 0 && t.offset == p && (
        t.secs + p) % 60 == 0 && from.secs + ahead < t.secs + p <= from.secs + ahead + 60,
{
    let x = from.secs + 60 + ahead;
    lemma_floor(x);
    let t = minute_behind(from, ahead, Some(p)).unwrap();
    assert(t.secs + p == x - x % 60);
}

proof fn lemma_floor(x: int)
    ensures
        (x - x % 60) % 60 == 0,
        x - 60 < x - x % 60 <= x,
{
}

/// Why a submission is refused is told with the name of its deployment, and the limit with
/// its number.
pub proof fn law_refusals_name_the_deployment(dep: DeploymentV)
    ensures
        TriggerError::Limit.message_of(dep) == "concurrency limit "@ + crate::text::decimal_of(
            dep.concurrency as int,
        ) + " reached for '"@ + dep.name + "'"@,
        TriggerError::Overlap.message_of(dep) == "overlap=skip: '"@ + dep.name
            + "' already has an active workflow"@,
{
}

} // verus!
