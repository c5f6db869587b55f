//! Deployments, and the five-field cron expressions that schedule them.

use vstd::prelude::*;
use crate::clock::{
    civil_of, in_calendar, in_reach, local_offset, offset_ok, stamp_ok, unique_offset, wall,
    whole_minute, Stamp, Wall,
};
use crate::json::{copy_members, members, Json, Members};
use crate::text::{
    copy_opt, copy_strings, decimal_of, decimal_u64, first_where, lemma_first_where_is, opt,
    parse_u32, split, split_at_char, split_first, split_once, split_words, str_eq, u32_of, views,
    words,
};

verus! {

/// The missed-run policy of a deployment that names none.
pub fn default_catchup() -> (r: String)
    ensures
        r@ == "none"@,
{
    "none".to_string()
}

/// The overlap policy of a deployment that names none.
pub fn default_overlap() -> (r: String)
    ensures
        r@ == "skip"@,
{
    "skip".to_string()
}

/// Whether a deployment that does not say so is enabled.
pub fn default_true() -> (r: bool)
    ensures
        r,
{
    true
}

/// One schedulable unit: a command with its schedule, parameters and policies.
#[derive(Debug, PartialEq)]
pub struct Deployment {
    pub name: String,
    /// The command and its arguments.
    pub cmd: Vec<String>,
    pub cron: Option<String>,
    pub timezone: Option<String>,
    /// The parameters handed to every run.
    pub params: Vec<(String, Json)>,
    /// The missed-run policy: `none` or `once`.
    pub catchup: String,
    /// The overlap policy: `skip`, `queue` or `concurrent`.
    pub overlap: String,
    pub enabled: bool,
    /// How often a workflow is dispatched again after a crash.
    pub retries: u32,
    /// How many workflows may run at once; zero for no limit.
    pub concurrency: u32,
}

/// The mathematical value of a [`Deployment`].
#[verifier::ext_equal]
pub struct DeploymentV {
    pub name: Seq<char>,
    pub cmd: Seq<Seq<char>>,
    pub cron: Option<Seq<char>>,
    pub timezone: Option<Seq<char>>,
    pub params: Members,
    pub catchup: Seq<char>,
    pub overlap: Seq<char>,
    pub enabled: bool,
    pub retries: u32,
    pub concurrency: u32,
}

impl View for Deployment {
    type V = DeploymentV;

    open spec fn view(&self) -> DeploymentV {
        DeploymentV {
            name: self.name@,
            cmd: views(self.cmd@),
            cron: opt(self.cron),
            timezone: opt(self.timezone),
            params: members(self.params@),
            catchup: self.catchup@,
            overlap: self.overlap@,
            enabled: self.enabled,
            retries: self.retries,
            concurrency: self.concurrency,
        }
    }
}

impl Deployment {
    /// A value equal to this one.
    pub fn copy(&self) -> (r: Deployment)
        ensures
            r@ == self@,
    {
        Deployment {
            name: self.name.clone(),
            cmd: copy_strings(&self.cmd),
            cron: copy_opt(&self.cron),
            timezone: copy_opt(&self.timezone),
            params: copy_members(&self.params),
            catchup: self.catchup.clone(),
            overlap: self.overlap.clone(),
            enabled: self.enabled,
            retries: self.retries,
            concurrency: self.concurrency,
        }
    }
}

/// The deployments of a manifest.
#[derive(Debug, PartialEq)]
pub struct Manifest {
    pub flows: Vec<Deployment>,
}

/// Recognises the deployment of a given name.
pub open spec fn called(name: Seq<char>) -> spec_fn(DeploymentV) -> bool {
    |d: DeploymentV| d.name == name
}

impl Manifest {
    /// The first deployment of the given name.
    pub fn find(&self, name: &str) -> (r: Option<&Deployment>)
        ensures
            match r {
                Some(d) => ({
                    let i = first_where(views(self.flows@), called(name@));
                    i < self.flows@.len() && d@ == self.flows@[i]@
                }),
                None => forall|i: int|
                    0 <= i < self.flows@.len() ==> (#[trigger] self.flows@[i])@.name != name@,
            },
    {
        let mut i: usize = 0;
        while i < self.flows.len()
            invariant
                i <= self.flows@.len(),
                forall|j: int| 0 <= j < i ==> (#[trigger] self.flows@[j])@.name != name@,
            decreases self.flows@.len() - i,
        {
            if str_eq(self.flows[i].name.as_str(), name) {
                proof {
                    lemma_first_where_is(views(self.flows@), called(name@), i as int);
                }
                return Some(&self.flows[i]);
            }
            i = i + 1;
        }
        None
    }
}

// ---------------------------------------------------------------------------
// Cron: `minute hour day-of-month month day-of-week`, each `*`, `*/n`, `a`,
// `a-b`, `a-b/n`, or a comma list of those.
// ---------------------------------------------------------------------------

/// Why a cron expression is refused.
#[derive(Debug, PartialEq)]
pub enum CronError {
    /// The expression does not have five fields.
    FieldCount { expr: String, got: usize },
    BadStep(String),
    BadRange(String),
    BadValue(String),
    ZeroStep,
}

/// The mathematical value of a [`CronError`].
#[verifier::ext_equal]
pub enum CronErrorV {
    FieldCount { expr: Seq<char>, got: int },
    BadStep(Seq<char>),
    BadRange(Seq<char>),
    BadValue(Seq<char>),
    ZeroStep,
}

impl View for CronError {
    type V = CronErrorV;

    open spec fn view(&self) -> CronErrorV {
        match self {
            CronError::FieldCount { expr, got } => CronErrorV::FieldCount {
                expr: expr@,
                got: *got as int,
            },
            CronError::BadStep(s) => CronErrorV::BadStep(s@),
            CronError::BadRange(s) => CronErrorV::BadRange(s@),
            CronError::BadValue(s) => CronErrorV::BadValue(s@),
            CronError::ZeroStep => CronErrorV::ZeroStep,
        }
    }
}

impl CronErrorV {
    /// The error in words.
    pub open spec fn message(self) -> Seq<char> {
        match self {
            CronErrorV::FieldCount { expr, got } => "cron '"@ + expr
                + "' must have 5 fields (min hour dom month dow), got "@ + decimal_of(got),
            CronErrorV::BadStep(s) => "bad step '"@ + s + "'"@,
            CronErrorV::BadRange(s) => "bad range '"@ + s + "'"@,
            CronErrorV::BadValue(s) => "bad value '"@ + s + "'"@,
            CronErrorV::ZeroStep => "step must be > 0"@,
        }
    }
}

fn quoted(before: &str, s: &String) -> (r: String)
    ensures
        r@ == before@ + s@ + "'"@,
{
    let mut m = before.to_string();
    m.append(s.as_str());
    m.append("'");
    m
}

impl CronError {
    /// The error in words.
    pub fn message(&self) -> (r: String)
        ensures
            r@ == self@.message(),
    {
        match self {
            CronError::FieldCount { expr, got } => {
                let mut m = "cron '".to_string();
                m.append(expr.as_str());
                m.append("' must have 5 fields (min hour dom month dow), got ");
                m.append(decimal_u64(*got as u64).as_str());
                m
            },
            CronError::BadStep(s) => quoted("bad step '", s),
            CronError::BadRange(s) => quoted("bad range '", s),
            CronError::BadValue(s) => quoted("bad value '", s),
            CronError::ZeroStep => "step must be > 0".to_string(),
        }
    }
}

/// A range with a step: its first value, its last value and the step.
pub type Stepped = (u32, u32, u32);

/// What one item of a comma list denotes, in a field of values from `min` to `max`.
pub open spec fn part_of(part: Seq<char>, min: u32, max: u32) -> Result<Stepped, CronErrorV> {
    match step_of(part) {
        Err(e) => Err(e),
        Ok((range, step)) => match range_of(range, min, max) {
            Err(e) => Err(e),
            Ok((lo, hi)) => if step == 0 {
                Err(CronErrorV::ZeroStep)
            } else {
                Ok((lo, hi, step))
            },
        },
    }
}

/// The range of an item and its step, which is one unless a slash names it.
pub open spec fn step_of(part: Seq<char>) -> Result<(Seq<char>, u32), CronErrorV> {
    match split_first(part, '/') {
        Some((r, s)) => match u32_of(s) {
            Some(n) => Ok((r, n)),
            None => Err(CronErrorV::BadStep(s)),
        },
        None => Ok((part, 1u32)),
    }
}

/// The first and the last value of a range.
pub open spec fn range_of(range: Seq<char>, min: u32, max: u32) -> Result<
    (u32, u32),
    CronErrorV,
> {
    if range == "*"@ {
        Ok((min, max))
    } else {
        match split_first(range, '-') {
            Some((a, b)) => match (u32_of(a), u32_of(b)) {
                (Some(x), Some(y)) => Ok((x, y)),
                _ => Err(CronErrorV::BadRange(range)),
            },
            None => match u32_of(range) {
                Some(x) => Ok((x, x)),
                None => Err(CronErrorV::BadValue(range)),
            },
        }
    }
}

/// Whether a stepped range of a field from `min` to `max` holds `v`.
pub open spec fn in_part(p: Stepped, min: u32, max: u32, v: u32) -> bool {
    min <= v <= max && p.0 <= v <= p.1 && (v - p.0) % (p.2 as int) == 0
}

/// The values of a field from `min` to `max` that a stepped range holds.
pub open spec fn part_values(p: Stepped, min: u32, max: u32) -> Set<u32> {
    Set::new(|v: u32| in_part(p, min, max, v))
}

/// The values that the items of a comma list hold together, or the error of the
/// first item that has one.
pub open spec fn parts_of(parts: Seq<Seq<char>>, min: u32, max: u32) -> Result<
    Set<u32>,
    CronErrorV,
>
    decreases parts.len(),
{
    if parts.len() == 0 {
        Ok(Set::empty())
    } else {
        match parts_of(parts.drop_last(), min, max) {
            Err(e) => Err(e),
            Ok(s) => match part_of(parts.last(), min, max) {
                Err(e) => Err(e),
                Ok(p) => Ok(s.union(part_values(p, min, max))),
            },
        }
    }
}

/// One field of a cron expression: the values at which it fires.
#[derive(Debug)]
pub struct Field {
    allowed: Vec<u32>,
    any: bool,
}

/// The mathematical value of a [`Field`].
#[verifier::ext_equal]
pub struct FieldV {
    pub any: bool,
    pub allowed: Set<u32>,
}

impl FieldV {
    /// Whether the field fires at `v`.
    pub open spec fn admits(self, v: u32) -> bool {
        self.any || self.allowed.contains(v)
    }
}

/// What a field of values from `min` to `max` denotes.
pub open spec fn field_of(spec: Seq<char>, min: u32, max: u32) -> Result<FieldV, CronErrorV> {
    if spec == "*"@ {
        Ok(FieldV { any: true, allowed: Set::empty() })
    } else {
        match parts_of(split(spec, ','), min, max) {
            Err(e) => Err(e),
            Ok(s) => Ok(FieldV { any: false, allowed: s }),
        }
    }
}

pub open spec fn ascending(v: Seq<u32>) -> bool {
    forall|i: int, j: int| 0 <= i < j < v.len() ==> v[i] < v[j]
}

impl View for Field {
    type V = FieldV;

    closed spec fn view(&self) -> FieldV {
        FieldV { any: self.any, allowed: self.allowed@.to_set() }
    }
}

/// Adds a value to an ascending list that may hold it already.
fn insert_ascending(v: &mut Vec<u32>, x: u32)
    requires
        ascending(old(v)@),
    ensures
        ascending(final(v)@),
        final(v)@.to_set() == old(v)@.to_set().insert(x),
{
    let ghost before = v@;
    let mut i: usize = 0;
    while i < v.len() && v[i] < x
        invariant
            i <= v@.len(),
            v@ == before,
            ascending(v@),
            forall|j: int| 0 <= j < i ==> v@[j] < x,
        decreases v@.len() - i,
    {
        i = i + 1;
    }
    if i < v.len() && v[i] == x {
        assert(before.to_set().insert(x) =~= before.to_set());
    } else {
        v.insert(i, x);
        assert(v@ == before.insert(i as int, x));
        assert forall|a: int, b: int| 0 <= a < b < v@.len() implies v@[a] < v@[b] by {
            if b > i {
                assert(v@[b] == before[b - 1]);
                assert(before[i as int] > x);
                if a > i {
                    assert(v@[a] == before[a - 1]);
                }
            }
        }
        assert(v@.to_set() =~= before.to_set().insert(x)) by {
            assert(v@[i as int] == x);
            assert forall|u: u32| before.contains(u) implies v@.contains(u) by {
                let k = before.index_of(u);
                if k < i {
                    assert(v@[k] == u);
                } else {
                    assert(v@[k + 1] == u);
                }
            }
            assert forall|u: u32| v@.contains(u) implies u == x || before.contains(u) by {
                let k = v@.index_of(u);
                if k < i {
                    assert(before[k] == u);
                } else if k > i {
                    assert(before[k - 1] == u);
                }
            }
        }
    }
}

proof fn lemma_next_multiple(lo: int, step: int, v: int, u: int)
    requires
        step > 0,
        lo <= v <= u < v + step,
        (v - lo) % step == 0,
        (u - lo) % step == 0,
    ensures
        u == v,
{
    vstd::arithmetic::div_mod::lemma_sub_mod_noop(u - lo, v - lo, step);
    vstd::arithmetic::div_mod::lemma_small_mod(0, step as nat);
    assert((u - lo) - (v - lo) == u - v);
    vstd::arithmetic::div_mod::lemma_small_mod((u - v) as nat, step as nat);
}

/// Adds the values of a stepped range to an ascending list.
fn add_part(allowed: &mut Vec<u32>, p: Stepped, min: u32, max: u32)
    requires
        ascending(old(allowed)@),
        p.2 > 0,
    ensures
        ascending(final(allowed)@),
        final(allowed)@.to_set() == old(allowed)@.to_set().union(part_values(p, min, max)),
{
    let ghost base = allowed@.to_set();
    let mut v: u64 = p.0 as u64;
    proof {
        vstd::arithmetic::div_mod::lemma_small_mod(0, p.2 as nat);
        assert(allowed@.to_set() =~= base.union(
            Set::new(|u: u32| in_part(p, min, max, u) && u < v),
        ));
    }
    while v <= p.1 as u64 && v <= max as u64
        invariant
            ascending(allowed@),
            p.2 > 0,
            p.0 <= v <= u32::MAX as u64 + u32::MAX as u64,
            (v - p.0) % (p.2 as int) == 0,
            allowed@.to_set() == base.union(
                Set::new(|u: u32| in_part(p, min, max, u) && u < v),
            ),
        decreases 0x2_0000_0000 - v,
    {
        let ghost before = allowed@.to_set();
        if v >= min as u64 {
            insert_ascending(allowed, v as u32);
        }
        proof {
            let w = v + p.2;
            vstd::arithmetic::div_mod::lemma_mod_add_multiples_vanish(v - p.0, p.2 as int);
            assert(w - p.0 == p.2 + (v - p.0));
            let a = Set::new(|u: u32| in_part(p, min, max, u) && u < v);
            let b = Set::new(|u: u32| in_part(p, min, max, u) && u < w);
            assert forall|u: u32| b.contains(u) == (a.contains(u) || (u == v && v >= min)) by {
                if in_part(p, min, max, u) && v <= u < w {
                    lemma_next_multiple(p.0 as int, p.2 as int, v as int, u as int);
                }
            }
            assert(allowed@.to_set() =~= base.union(b));
        }
        v = v + p.2 as u64;
    }
    proof {
        assert(Set::new(|u: u32| in_part(p, min, max, u) && u < v) =~= part_values(p, min, max));
    }
}

/// Reads one item of a comma list.
fn parse_part(part: &String, min: u32, max: u32) -> (r: Result<Stepped, CronError>)
    ensures
        match r {
            Ok(p) => part_of(part@, min, max) == Ok::<Stepped, CronErrorV>(p) && p.2 > 0,
            Err(e) => part_of(part@, min, max) == Err::<Stepped, CronErrorV>(e@),
        },
{
    let (range, step): (String, u32) = match split_once(part.as_str(), '/') {
        Some((r, s)) => match parse_u32(s.as_str()) {
            Some(n) => (r, n),
            None => {
                return Err(CronError::BadStep(s));
            },
        },
        None => (part.clone(), 1u32),
    };
    let (lo, hi): (u32, u32) = if str_eq(range.as_str(), "*") {
        (min, max)
    } else {
        match split_once(range.as_str(), '-') {
            Some((a, b)) => match (parse_u32(a.as_str()), parse_u32(b.as_str())) {
                (Some(x), Some(y)) => (x, y),
                _ => {
                    return Err(CronError::BadRange(range));
                },
            },
            None => match parse_u32(range.as_str()) {
                Some(x) => (x, x),
                None => {
                    return Err(CronError::BadValue(range));
                },
            },
        }
    };
    if step == 0 {
        return Err(CronError::ZeroStep);
    }
    Ok((lo, hi, step))
}

/// If the items up to some point have an error, it is the error of all of them.
proof fn lemma_parts_error(parts: Seq<Seq<char>>, min: u32, max: u32, k: int)
    requires
        0 <= k <= parts.len(),
        parts_of(parts.take(k), min, max) is Err,
    ensures
        parts_of(parts, min, max) == parts_of(parts.take(k), min, max),
    decreases parts.len() - k,
{
    if k < parts.len() {
        assert(parts.take(k + 1).drop_last() =~= parts.take(k));
        lemma_parts_error(parts, min, max, k + 1);
    } else {
        assert(parts.take(k) =~= parts);
    }
}

impl Field {
    #[verifier::type_invariant]
    closed spec fn inv(&self) -> bool {
        ascending(self.allowed@)
    }

    /// Reads a field of values from `min` to `max`.
    pub fn parse(spec: &str, min: u32, max: u32) -> (r: Result<Field, CronError>)
        ensures
            match r {
                Ok(f) => field_of(spec@, min, max) == Ok::<FieldV, CronErrorV>(f@),
                Err(e) => field_of(spec@, min, max) == Err::<FieldV, CronErrorV>(e@),
            },
    {
        let mut allowed: Vec<u32> = Vec::new();
        if str_eq(spec, "*") {
            let f = Field { allowed, any: true };
            assert(f.allowed@.to_set() =~= Set::empty());
            return Ok(f);
        }
        let parts = split_at_char(spec, ',');
        let ghost all = views(parts@);
        let mut i: usize = 0;
        proof {
            assert(all.take(0).len() == 0);
            assert(allowed@.to_set() =~= Set::empty());
        }
        while i < parts.len()
            invariant
                i <= parts@.len(),
                all == views(parts@),
                all == split(spec@, ','),
                spec@ != "*"@,
                ascending(allowed@),
                parts_of(all.take(i as int), min, max) == Ok::<Set<u32>, CronErrorV>(
                    allowed@.to_set(),
                ),
            decreases parts@.len() - i,
        {
            proof {
                assert(all.take(i + 1).drop_last() =~= all.take(i as int));
                assert(all.take(i + 1).last() == parts@[i as int]@);
            }
            match parse_part(&parts[i], min, max) {
                Ok(p) => {
                    add_part(&mut allowed, p, min, max);
                },
                Err(e) => {
                    proof {
                        lemma_parts_error(all, min, max, i + 1);
                    }
                    return Err(e);
                },
            }
            i = i + 1;
        }
        proof {
            assert(all.take(i as int) =~= all);
        }
        Ok(Field { allowed, any: false })
    }

    /// Whether the field fires at `v`.
    pub fn contains(&self, v: u32) -> (r: bool)
        ensures
            r == self@.admits(v),
    {
        proof {
            use_type_invariant(self);
        }
        if self.any {
            return true;
        }
        let mut lo: usize = 0;
        let mut hi: usize = self.allowed.len();
        while lo < hi
            invariant
                lo <= hi <= self.allowed@.len(),
                ascending(self.allowed@),
                forall|j: int| 0 <= j < lo ==> self.allowed@[j] < v,
                forall|j: int| hi <= j < self.allowed@.len() ==> self.allowed@[j] > v,
                !self.any,
            decreases hi - lo,
        {
            let mid: usize = lo + (hi - lo) / 2;
            let x: u32 = self.allowed[mid];
            if x == v {
                assert(self.allowed@[mid as int] == v);
                return true;
            }
            if x < v {
                lo = mid + 1;
            } else {
                hi = mid;
            }
        }
        false
    }
}

/// A cron expression.
#[derive(Debug)]
pub struct Cron {
    minute: Field,
    hour: Field,
    dom: Field,
    month: Field,
    dow: Field,
}

/// The mathematical value of a [`Cron`].
#[verifier::ext_equal]
pub struct CronV {
    pub minute: FieldV,
    pub hour: FieldV,
    pub dom: FieldV,
    pub month: FieldV,
    pub dow: FieldV,
}

impl View for Cron {
    type V = CronV;

    closed spec fn view(&self) -> CronV {
        CronV {
            minute: self.minute@,
            hour: self.hour@,
            dom: self.dom@,
            month: self.month@,
            dow: self.dow@,
        }
    }
}

/// What a cron expression denotes: its five fields, or the error of the first
/// field that has one.
pub open spec fn cron_of(expr: Seq<char>) -> Result<CronV, CronErrorV> {
    let w = words(expr);
    if w.len() != 5 {
        Err(CronErrorV::FieldCount { expr, got: w.len() as int })
    } else {
        match field_of(w[0], 0, 59) {
            Err(e) => Err(e),
            Ok(minute) => match field_of(w[1], 0, 23) {
                Err(e) => Err(e),
                Ok(hour) => match field_of(w[2], 1, 31) {
                    Err(e) => Err(e),
                    Ok(dom) => match field_of(w[3], 1, 12) {
                        Err(e) => Err(e),
                        Ok(month) => match field_of(w[4], 0, 7) {
                            Err(e) => Err(e),
                            Ok(dow) => Ok(CronV { minute, hour, dom, month, dow }),
                        },
                    },
                },
            },
        }
    }
}

impl CronV {
    /// Whether the expression fires on a day of the week. Sunday is 0 and 7.
    pub open spec fn fires_on(self, weekday: u32) -> bool {
        self.dow.admits(weekday) || (weekday == 0 && self.dow.admits(7))
    }

    /// Whether the expression fires at a wall-clock minute: all its fields do.
    pub open spec fn fires(self, w: Wall) -> bool {
        &&& self.minute.admits(w.minute)
        &&& self.hour.admits(w.hour)
        &&& self.dom.admits(w.day)
        &&& self.month.admits(w.month)
        &&& self.fires_on(w.weekday)
    }

    /// Whether the expression fires at the local time of an instant.
    pub open spec fn fires_at(self, t: Stamp) -> bool {
        self.fires(civil_of(t.secs + t.offset))
    }

    /// The first minute, counted from `secs`, at which the expression fires, where
    /// the local time is ahead of universal time by `offsets[i]` at minute `i`.
    pub open spec fn first_firing(self, secs: i64, offsets: Seq<i32>) -> int {
        first_minute(self, secs, offsets, offsets.len())
    }
}

/// The least `i` below `n` at which the expression fires, or `n`.
pub open spec fn first_minute(c: CronV, secs: i64, offsets: Seq<i32>, n: nat) -> int
    decreases n,
{
    if n == 0 {
        0
    } else {
        let k = first_minute(c, secs, offsets, (n - 1) as nat);
        if k < n - 1 {
            k
        } else if c.fires_at(minute_stamp(secs, offsets, n - 1)) {
            n - 1
        } else {
            n as int
        }
    }
}

/// Minute `i` of a scan that starts at `secs`.
pub open spec fn minute_stamp(secs: i64, offsets: Seq<i32>, i: int) -> Stamp {
    Stamp { secs: (secs + 60 * i) as i64, nanos: 0, offset: offsets[i] }
}

/// The number of minutes that a search for the next firing looks at.
pub const SCAN_MINUTES: u32 = 527040;

/// The start of the minute that `secs` lies in.
pub open spec fn minute_floor(secs: int) -> int {
    secs - secs % 60
}

/// The first whole minute behind `from`, if the local clock will be `ahead` of
/// universal time by then. There is none where the clock shows that minute twice or
/// never; where it shows it once, it is `unique` ahead.
pub open spec fn minute_behind(from: Stamp, ahead: i32, unique: Option<i32>) -> Option<Stamp> {
    match unique {
        None => None,
        Some(p) => Some(
            Stamp {
                secs: (minute_floor(from.secs + 60 + ahead) - p) as i64,
                nanos: 0,
                offset: p,
            },
        ),
    }
}

/// Where a search from `from` starts: at `from` itself if it is a whole minute, else
/// at the first whole minute behind it.
pub open spec fn scan_start(from: Stamp, ahead: i32, unique: Option<i32>) -> Option<Stamp> {
    if whole_minute(from) {
        Some(from)
    } else {
        minute_behind(from, ahead, unique)
    }
}

/// What a search from `start` on finds, where the local clock is ahead by `offsets`:
/// the first minute at which the expression fires, if there is one.
pub open spec fn firing_from(c: CronV, start: Stamp, offsets: Seq<i32>) -> Option<Stamp> {
    let n = c.first_firing(start.secs, offsets);
    if n < offsets.len() {
        Some(minute_stamp(start.secs, offsets, n))
    } else {
        None
    }
}

/// The first firing at or after `from`, by a reading of the time zone.
pub open spec fn next_given(
    c: CronV,
    from: Stamp,
    ahead: i32,
    unique: Option<i32>,
    offsets: Seq<i32>,
) -> Option<Stamp> {
    match scan_start(from, ahead, unique) {
        None => None,
        Some(start) => firing_from(c, start, offsets),
    }
}

/// Whether `offsets` may be read of a time zone for `n` minutes from `start` on.
pub open spec fn is_reading(start: Stamp, n: nat, offsets: Seq<i32>) -> bool {
    &&& offsets.len() == n
    &&& offsets[0] == start.offset
    &&& forall|i: int| 0 <= i < offsets.len() ==> offset_ok(#[trigger] offsets[i] as int)
}

/// Whether `offsets` may be read of a time zone for a year of minutes from `start` on.
pub open spec fn year_read(start: Stamp, offsets: Seq<i32>) -> bool {
    is_reading(start, SCAN_MINUTES as nat, offsets)
}

/// Whether the values may be read of a time zone in a search from `from`: how far the
/// local clock is ahead a minute later, how far when it shows the next whole minute,
/// and how far in each minute of a year.
pub open spec fn zone_read(
    from: Stamp,
    ahead: i32,
    unique: Option<i32>,
    offsets: Seq<i32>,
) -> bool {
    &&& offset_ok(ahead as int)
    &&& unique matches Some(p) ==> offset_ok(p as int)
    &&& scan_start(from, ahead, unique) matches Some(start) ==> year_read(start, offsets)
}

/// Whether a search from `from` for the next firing may come to `r`: by some reading
/// of the time zone it does.
pub open spec fn is_next(c: CronV, from: Stamp, r: Option<Stamp>) -> bool {
    exists|ahead: i32, unique: Option<i32>, offsets: Seq<i32>| #[trigger]
        zone_read(from, ahead, unique, offsets) && r == next_given(
            c,
            from,
            ahead,
            unique,
            offsets,
        )
}

/// How many seconds of its minute have passed at `secs`.
pub(crate) fn second_of(secs: i64) -> (r: i64)
    requires
        secs > i64::MIN,
    ensures
        r == secs % 60,
        0 <= r < 60,
{
    if secs >= 0 {
        (secs as u64 % 60) as i64
    } else {
        let m: u64 = (-secs) as u64 % 60;
        if m == 0 {
            0
        } else {
            60 - m as i64
        }
    }
}

impl Cron {
    /// Reads a cron expression.
    pub fn parse(expr: &str) -> (r: Result<Cron, CronError>)
        ensures
            match r {
                Ok(c) => cron_of(expr@) == Ok::<CronV, CronErrorV>(c@),
                Err(e) => cron_of(expr@) == Err::<CronV, CronErrorV>(e@),
            },
    {
        let parts = split_words(expr);
        assert(forall|i: int| 0 <= i < parts@.len() ==> words(expr@)[i] == (#[trigger] parts@[i])@);
        if parts.len() != 5 {
            return Err(CronError::FieldCount { expr: expr.to_string(), got: parts.len() });
        }
        let minute = match Field::parse(parts[0].as_str(), 0, 59) {
            Ok(f) => f,
            Err(e) => {
                return Err(e);
            },
        };
        let hour = match Field::parse(parts[1].as_str(), 0, 23) {
            Ok(f) => f,
            Err(e) => {
                return Err(e);
            },
        };
        let dom = match Field::parse(parts[2].as_str(), 1, 31) {
            Ok(f) => f,
            Err(e) => {
                return Err(e);
            },
        };
        let month = match Field::parse(parts[3].as_str(), 1, 12) {
            Ok(f) => f,
            Err(e) => {
                return Err(e);
            },
        };
        let dow = match Field::parse(parts[4].as_str(), 0, 7) {
            Ok(f) => f,
            Err(e) => {
                return Err(e);
            },
        };
        Ok(Cron { minute, hour, dom, month, dow })
    }

    /// Whether the expression fires when clock and calendar show `w`.
    pub fn fires(&self, w: &Wall) -> (r: bool)
        ensures
            r == self@.fires(*w),
    {
        self.minute.contains(w.minute) && self.hour.contains(w.hour) && self.dom.contains(w.day)
            && self.month.contains(w.month) && (self.dow.contains(w.weekday) || (w.weekday == 0
            && self.dow.contains(7)))
    }

    /// Whether the expression fires at the local time of an instant.
    pub fn matches(&self, t: &Stamp) -> (r: bool)
        requires
            in_reach(*t),
        ensures
            r == self@.fires_at(*t),
    {
        self.fires(&wall(t))
    }

    /// The first of the minutes from `start` on at which the expression fires, where the
    /// local clock is ahead by `offsets`.
    pub fn search(&self, start: &Stamp, offsets: &Vec<i32>) -> (r: Option<usize>)
        requires
            -8_050_000_000_000 <= start.secs <= 8_050_000_000_000,
            offsets@.len() <= SCAN_MINUTES,
            forall|i: int| 0 <= i < offsets@.len() ==> offset_ok(#[trigger] offsets@[i] as int),
        ensures
            match r {
                Some(i) => {
                    &&& i == self@.first_firing(start.secs, offsets@)
                    &&& i < offsets@.len()
                    &&& self@.fires_at(minute_stamp(start.secs, offsets@, i as int))
                    &&& forall|j: int|
                        0 <= j < i ==> !self@.fires_at(
                            #[trigger] minute_stamp(start.secs, offsets@, j),
                        )
                },
                None => {
                    &&& self@.first_firing(start.secs, offsets@) == offsets@.len()
                    &&& forall|j: int|
                        0 <= j < offsets@.len() ==> !self@.fires_at(
                            #[trigger] minute_stamp(start.secs, offsets@, j),
                        )
                },
            },
    {
        if offsets.len() == 0 {
            return None;
        }
        let first: Stamp = Stamp { secs: start.secs, nanos: 0, offset: offsets[0] };
        let zone = Zone::Given { ahead: 0, unique: None, offsets };
        let found = self.scan(&first, offsets.len(), &zone);
        proof {
            let n = offsets@.len();
            lemma_first_minute_fires(self@, start.secs, offsets@, n);
            assert forall|j: int|
                0 <= j < first_minute(self@, start.secs, offsets@, n) implies !self@.fires_at(
                #[trigger] minute_stamp(start.secs, offsets@, j),
            ) by {
                lemma_first_minute(self@, start.secs, offsets@, n, j);
            }
        }
        match found {
            Some((i, _)) => Some(i),
            None => None,
        }
    }

    /// The first of `n` minutes from `start` on at which the expression fires, and the
    /// instant of it, as a time zone has them.
    fn scan(&self, start: &Stamp, n: usize, zone: &Zone) -> (r: Option<(usize, Stamp)>)
        requires
            -8_050_000_000_000 <= start.secs <= 8_050_000_000_000,
            offset_ok(start.offset as int),
            start.nanos == 0,
            0 < n <= SCAN_MINUTES,
            zone matches Zone::Given { offsets, .. } ==> is_reading(*start, n as nat, offsets@),
        ensures
            exists|offsets: Seq<i32>| #[trigger]
                is_reading(*start, n as nat, offsets) && zone.gives(offsets) && match r {
                    Some((i, t)) => i < n && i == self@.first_firing(start.secs, offsets) && t
                        == minute_stamp(start.secs, offsets, i as int),
                    None => self@.first_firing(start.secs, offsets) == n,
                },
    {
        let mut t: Stamp = *start;
        let ghost mut offs: Seq<i32> = seq![t.offset];
        let mut i: usize = 0;
        loop
            invariant
                i < n <= SCAN_MINUTES,
                -8_050_000_000_000 <= start.secs <= 8_050_000_000_000,
                zone matches Zone::Given { offsets, .. } ==> is_reading(
                    *start,
                    n as nat,
                    offsets@,
                ) && offs == offsets@.take(i + 1),
                is_reading(*start, (i + 1) as nat, offs),
                t == minute_stamp(start.secs, offs, i as int),
                forall|j: int|
                    0 <= j < i ==> !self@.fires_at(#[trigger] minute_stamp(start.secs, offs, j)),
            decreases n - i,
        {
            if self.matches(&t) {
                proof {
                    let rest = Seq::new((n - i - 1) as nat, |k: int| start.offset);
                    let all = match zone {
                        Zone::Machine => offs + rest,
                        Zone::Given { offsets, .. } => offsets@,
                    };
                    assert forall|j: int| 0 <= j <= i implies #[trigger] minute_stamp(
                        start.secs,
                        all,
                        j,
                    ) == minute_stamp(start.secs, offs, j) by {
                        assert(all[j] == offs[j]);
                    }
                    lemma_first_minute_is(self@, start.secs, all, n as nat, i as int);
                    assert(is_reading(*start, n as nat, all));
                }
                return Some((i, t));
            }
            i = i + 1;
            if i == n {
                proof {
                    lemma_first_minute_is(self@, start.secs, offs, n as nat, n as int);
                    if let Zone::Given { offsets, .. } = zone {
                        assert(offs =~= offsets@);
                    }
                }
                return None;
            }
            t = minute_after(&t, zone.offset(i, &t));
            proof {
                let more = offs.push(t.offset);
                assert forall|j: int| 0 <= j < i implies #[trigger] minute_stamp(
                    start.secs,
                    more,
                    j,
                ) == minute_stamp(start.secs, offs, j) by {}
                if let Zone::Given { offsets, .. } = zone {
                    assert(more =~= offsets@.take(i + 1));
                }
                offs = more;
            }
        }
    }

    /// The first firing at or after `from`, as a time zone has it.
    fn next_by(&self, from: &Stamp, zone: &Zone) -> (r: Option<Stamp>)
        requires
            stamp_ok(*from),
            zone matches Zone::Given { ahead, unique, offsets } ==> zone_read(
                *from,
                *ahead,
                *unique,
                offsets@,
            ),
        ensures
            exists|ahead: i32, unique: Option<i32>, offsets: Seq<i32>| #[trigger]
                zone_read(*from, ahead, unique, offsets) && r == next_given(
                    self@,
                    *from,
                    ahead,
                    unique,
                    offsets,
                ) && zone.is(ahead, unique, offsets),
            r matches Some(t) ==> in_reach(t),
    {
        let ghost given = match zone {
            Zone::Machine => (0i32, None::<i32>, Seq::<i32>::empty()),
            Zone::Given { ahead, unique, offsets } => (*ahead, *unique, offsets@),
        };
        if on_the_minute(from) {
            let found = self.scan(from, SCAN_MINUTES as usize, zone);
            proof {
                let offsets = choose|offsets: Seq<i32>| #[trigger]
                    is_reading(*from, SCAN_MINUTES as nat, offsets) && zone.gives(offsets)
                        && match found {
                        Some((i, t)) => i < SCAN_MINUTES && i == self@.first_firing(
                            from.secs,
                            offsets,
                        ) && t == minute_stamp(from.secs, offsets, i as int),
                        None => self@.first_firing(from.secs, offsets) == SCAN_MINUTES,
                    };
                assert(zone_read(*from, given.0, given.1, offsets));
            }
            return match found {
                Some((_, t)) => Some(t),
                None => None,
            };
        }
        let ahead: i32 = zone.ahead(instant_after(from));
        let unique: Option<i32> = zone.unique(next_minute(from, ahead));
        match first_minute_after(from, ahead, unique) {
            None => {
                assert(zone_read(*from, ahead, unique, given.2));
                None
            },
            Some(start) => {
                let found = self.scan(&start, SCAN_MINUTES as usize, zone);
                proof {
                    let offsets = choose|offsets: Seq<i32>| #[trigger]
                        is_reading(start, SCAN_MINUTES as nat, offsets) && zone.gives(offsets)
                            && match found {
                            Some((i, t)) => i < SCAN_MINUTES && i == self@.first_firing(
                                start.secs,
                                offsets,
                            ) && t == minute_stamp(start.secs, offsets, i as int),
                            None => self@.first_firing(start.secs, offsets) == SCAN_MINUTES,
                        };
                    assert(zone_read(*from, ahead, unique, offsets));
                }
                match found {
                    Some((_, t)) => Some(t),
                    None => None,
                }
            },
        }
    }

    /// The first firing at or after `from`, by a reading of a time zone.
    pub fn next_with(&self, from: &Stamp, ahead: i32, unique: Option<i32>, offsets: &Vec<i32>) -> (r:
        Option<Stamp>)
        requires
            stamp_ok(*from),
            zone_read(*from, ahead, unique, offsets@),
        ensures
            r == next_given(self@, *from, ahead, unique, offsets@),
    {
        self.next_by(from, &Zone::Given { ahead, unique, offsets })
    }

    /// The first firing at or after `from`, looking at one minute after the other
    /// for a year.
    ///
    /// How far the local clock is ahead at each minute is read from the machine's
    /// time zone. There is no firing either where `from` lies within a minute
    /// whose end the local clock shows twice or never.
    pub fn next_after(&self, from: &Stamp) -> (r: Option<Stamp>)
        requires
            stamp_ok(*from),
        ensures
            is_next(self@, *from, r),
            r matches Some(t) ==> in_reach(t),
    {
        let r = self.next_by(from, &Zone::Machine);
        proof {
            let (ahead, unique, offsets) = choose|
                ahead: i32,
                unique: Option<i32>,
                offsets: Seq<i32>,
            | #[trigger]
                zone_read(*from, ahead, unique, offsets) && r == next_given(
                    self@,
                    *from,
                    ahead,
                    unique,
                    offsets,
                ) && Zone::Machine.is(ahead, unique, offsets);
            assert(zone_read(*from, ahead, unique, offsets));
        }
        r
    }

    /// The first firing from `start` on, looking at one minute after the other for a
    /// year. How far the local clock is ahead at each minute after the first is read
    /// from the machine's time zone.
    pub fn next_from(&self, start: &Stamp) -> (r: Option<Stamp>)
        requires
            in_scan(*start),
            start.nanos == 0,
        ensures
            exists|offsets: Seq<i32>| #[trigger]
                year_read(*start, offsets) && r == firing_from(self@, *start, offsets),
            r matches Some(t) ==> in_reach(t),
    {
        let found = self.scan(start, SCAN_MINUTES as usize, &Zone::Machine);
        proof {
            let offsets = choose|offsets: Seq<i32>| #[trigger]
                is_reading(*start, SCAN_MINUTES as nat, offsets) && match found {
                    Some((i, t)) => i < SCAN_MINUTES && i == self@.first_firing(
                        start.secs,
                        offsets,
                    ) && t == minute_stamp(start.secs, offsets, i as int),
                    None => self@.first_firing(start.secs, offsets) == SCAN_MINUTES,
                };
            assert(year_read(*start, offsets));
        }
        match found {
            Some((_, t)) => Some(t),
            None => None,
        }
    }
}

/// Where a search learns how far the local clock is ahead of universal time.
enum Zone<'a> {
    /// From the machine's time zone.
    Machine,
    /// From a reading of a time zone.
    Given { ahead: i32, unique: Option<i32>, offsets: &'a Vec<i32> },
}

impl<'a> Zone<'a> {
    /// Whether the offsets may come from here.
    spec fn gives(&self, read: Seq<i32>) -> bool {
        *self matches Zone::Given { offsets, .. } ==> read == offsets@
    }

    /// Whether a reading may come from here.
    spec fn is(&self, first: i32, once: Option<i32>, read: Seq<i32>) -> bool {
        *self matches Zone::Given { ahead, unique, offsets } ==> first == ahead && once == unique
            && read == offsets@
    }

    /// How far the clock is ahead at an instant in the minute that a search begins in.
    fn ahead(&self, secs: i64) -> (r: i32)
        requires
            in_calendar(secs as int),
            self matches Zone::Given { ahead, .. } ==> offset_ok(*ahead as int),
        ensures
            offset_ok(r as int),
            self matches Zone::Given { ahead, .. } ==> r == *ahead,
    {
        match self {
            Zone::Machine => local_offset(secs),
            Zone::Given { ahead, .. } => *ahead,
        }
    }

    /// How far the clock is ahead when it shows `local`, if it shows that once.
    fn unique(&self, local: i64) -> (r: Option<i32>)
        requires
            in_calendar(local as int),
            self matches Zone::Given { unique: Some(p), .. } ==> offset_ok(*p as int),
        ensures
            r matches Some(p) ==> offset_ok(p as int),
            self matches Zone::Given { unique, .. } ==> r == *unique,
    {
        match self {
            Zone::Machine => unique_offset(local),
            Zone::Given { unique, .. } => *unique,
        }
    }

    /// How far the clock is ahead at minute `i` of a search, the one behind `before`.
    fn offset(&self, i: usize, before: &Stamp) -> (r: i32)
        requires
            in_calendar(before.secs + 60),
            self matches Zone::Given { offsets, .. } ==> i < offsets@.len() && offset_ok(
                offsets@[i as int] as int,
            ),
        ensures
            offset_ok(r as int),
            self matches Zone::Given { offsets, .. } ==> r == offsets@[i as int],
    {
        match self {
            Zone::Machine => local_offset(instant_after(before)),
            Zone::Given { offsets, .. } => offsets[i],
        }
    }
}

/// The instants from which the calendar covers a year of minutes.
pub open spec fn in_scan(start: Stamp) -> bool {
    -8_000_000_200_000 <= start.secs <= 8_000_000_200_000 && offset_ok(start.offset as int)
}

/// Whether the local clock shows a whole minute.
fn on_the_minute(t: &Stamp) -> (r: bool)
    requires
        stamp_ok(*t),
    ensures
        r == whole_minute(*t),
{
    t.nanos == 0 && second_of(t.secs + t.offset as i64) == 0
}

/// The instant a minute later, in seconds since the epoch.
pub fn instant_after(t: &Stamp) -> (r: i64)
    requires
        t.secs <= i64::MAX - 60,
    ensures
        r == t.secs + 60,
{
    t.secs + 60
}

/// The instant a minute later, when the local clock is `ahead` of universal time.
pub fn minute_after(t: &Stamp, ahead: i32) -> (r: Stamp)
    requires
        t.secs <= i64::MAX - 60,
    ensures
        r == (Stamp { secs: (t.secs + 60) as i64, nanos: t.nanos, offset: ahead }),
{
    Stamp { secs: instant_after(t), nanos: t.nanos, offset: ahead }
}

/// What the local clock shows at the first whole minute behind `from`, in seconds, if
/// it is `ahead` of universal time by then.
pub fn next_minute(from: &Stamp, ahead: i32) -> (r: i64)
    requires
        stamp_ok(*from),
        offset_ok(ahead as int),
    ensures
        r == minute_floor(from.secs + 60 + ahead),
{
    let shown: i64 = instant_after(from) + ahead as i64;
    shown - second_of(shown)
}

/// The first whole minute behind `from`, if the local clock is `ahead` of universal
/// time by then, and `unique` when it shows that minute.
pub fn first_minute_after(from: &Stamp, ahead: i32, unique: Option<i32>) -> (r: Option<Stamp>)
    requires
        stamp_ok(*from),
        offset_ok(ahead as int),
        unique matches Some(p) ==> offset_ok(p as int),
    ensures
        r == minute_behind(*from, ahead, unique),
{
    match unique {
        None => None,
        Some(p) => Some(Stamp { secs: next_minute(from, ahead) - p as i64, nanos: 0, offset: p }),
    }
}

proof fn lemma_first_minute_is(c: CronV, secs: i64, offsets: Seq<i32>, n: nat, k: int)
    requires
        0 <= k <= n,
        k < n ==> c.fires_at(minute_stamp(secs, offsets, k)),
        forall|j: int| 0 <= j < k ==> !c.fires_at(#[trigger] minute_stamp(secs, offsets, j)),
    ensures
        first_minute(c, secs, offsets, n) == k,
    decreases n,
{
    if n > 0 {
        if k < n {
            lemma_first_minute_is(c, secs, offsets, (n - 1) as nat, k);
        } else {
            lemma_first_minute_is(c, secs, offsets, (n - 1) as nat, k - 1);
        }
    }
}

/// A search passes over no firing: at every minute between its start and what it finds
/// the expression does not fire, and at that it does.
pub proof fn law_no_firing_is_skipped(c: CronV, start: Stamp, offsets: Seq<i32>, i: int)
    requires
        firing_from(c, start, offsets) is Some,
        0 <= i < c.first_firing(start.secs, offsets),
    ensures
        !c.fires_at(minute_stamp(start.secs, offsets, i)),
        c.fires_at(firing_from(c, start, offsets)->Some_0),
{
    lemma_first_minute(c, start.secs, offsets, offsets.len(), i);
    lemma_first_minute_fires(c, start.secs, offsets, offsets.len());
}

/// A search that finds nothing has looked at every minute that it was given.
pub proof fn law_failed_search_is_complete(c: CronV, start: Stamp, offsets: Seq<i32>, i: int)
    requires
        firing_from(c, start, offsets) is None,
        0 <= i < offsets.len(),
    ensures
        !c.fires_at(minute_stamp(start.secs, offsets, i)),
{
    lemma_first_minute_bound(c, start.secs, offsets, offsets.len());
    lemma_first_minute(c, start.secs, offsets, offsets.len(), i);
}

/// What a time zone that is always `offset` ahead is read as in a year.
pub open spec fn fixed_year(offset: i32) -> Seq<i32> {
    Seq::new(SCAN_MINUTES as nat, |i: int| offset)
}

/// Whether `u` is a whole minute, `from` or later, within a year of minutes.
pub open spec fn minute_ahead(from: Stamp, u: Stamp) -> bool {
    &&& u.nanos == 0
    &&& u.offset == from.offset
    &&& (u.secs + u.offset) % 60 == 0
    &&& if whole_minute(from) {
        from.secs <= u.secs < from.secs + 60 * SCAN_MINUTES
    } else {
        from.secs < u.secs <= from.secs + 60 * SCAN_MINUTES
    }
}

/// In a time zone whose clock is never changed, what comes next is the earliest of the
/// whole minutes of a year, at or after `from`, at which the expression fires. There is
/// none only where it fires at none of them.
#[verifier::spinoff_prover]
pub proof fn law_fixed_offset_gives_the_earliest(c: CronV, from: Stamp, u: Stamp)
    requires
        stamp_ok(from),
        minute_ahead(from, u),
        c.fires_at(u),
    ensures
        zone_read(from, from.offset, Some(from.offset), fixed_year(from.offset)),
        match next_given(c, from, from.offset, Some(from.offset), fixed_year(from.offset)) {
            Some(t) => minute_ahead(from, t) && c.fires_at(t) && t.secs <= u.secs,
            None => false,
        },
{
    let o = from.offset;
    let offsets = fixed_year(o);
    let start = scan_start(from, o, Some(o))->Some_0;
    let n = offsets.len();
    let k = lemma_fixed_minute(from, u);
    lemma_first_minute_bound(c, start.secs, offsets, n);
    let m = first_minute(c, start.secs, offsets, n);
    if k < m {
        lemma_first_minute(c, start.secs, offsets, n, k);
    }
    lemma_first_minute_fires(c, start.secs, offsets, n);
    lemma_fixed_ahead(from, m);
}

/// In a time zone whose clock is never changed, what comes next is one of the whole
/// minutes of a year, at or after `from`, and the expression fires at it.
#[verifier::spinoff_prover]
pub proof fn law_fixed_offset_gives_a_firing(c: CronV, from: Stamp, t: Stamp)
    requires
        stamp_ok(from),
        next_given(c, from, from.offset, Some(from.offset), fixed_year(from.offset)) == Some(t),
    ensures
        minute_ahead(from, t),
        c.fires_at(t),
{
    let o = from.offset;
    let offsets = fixed_year(o);
    let start = scan_start(from, o, Some(o))->Some_0;
    lemma_first_minute_bound(c, start.secs, offsets, offsets.len());
    lemma_first_minute_fires(c, start.secs, offsets, offsets.len());
    lemma_fixed_ahead(from, first_minute(c, start.secs, offsets, offsets.len()));
}

/// Each whole minute of a year behind `from` is one that a search looks at.
proof fn lemma_fixed_minute(from: Stamp, u: Stamp) -> (k: int)
    requires
        stamp_ok(from),
        minute_ahead(from, u),
    ensures
        zone_read(from, from.offset, Some(from.offset), fixed_year(from.offset)),
        0 <= k < SCAN_MINUTES,
        u == minute_stamp(
            scan_start(from, from.offset, Some(from.offset))->Some_0.secs,
            fixed_year(from.offset),
            k,
        ),
{
    let o = from.offset;
    let start = scan_start(from, o, Some(o))->Some_0;
    let k = (u.secs - start.secs) / 60;
    assert(u.secs == start.secs + 60 * k);
    k
}

/// Each minute that a search looks at is a whole minute of a year behind `from`.
proof fn lemma_fixed_ahead(from: Stamp, m: int)
    requires
        stamp_ok(from),
        0 <= m < SCAN_MINUTES,
    ensures
        minute_ahead(
            from,
            minute_stamp(
                scan_start(from, from.offset, Some(from.offset))->Some_0.secs,
                fixed_year(from.offset),
                m,
            ),
        ),
{
}

proof fn lemma_first_minute_fires(c: CronV, secs: i64, offsets: Seq<i32>, n: nat)
    ensures
        first_minute(c, secs, offsets, n) < n ==> c.fires_at(
            minute_stamp(secs, offsets, first_minute(c, secs, offsets, n)),
        ),
    decreases n,
{
    if n > 0 {
        lemma_first_minute_fires(c, secs, offsets, (n - 1) as nat);
        lemma_first_minute_bound(c, secs, offsets, (n - 1) as nat);
    }
}

proof fn lemma_first_minute(c: CronV, secs: i64, offsets: Seq<i32>, n: nat, i: int)
    requires
        0 <= i < first_minute(c, secs, offsets, n),
    ensures
        first_minute(c, secs, offsets, n) <= n,
        !c.fires_at(minute_stamp(secs, offsets, i)),
    decreases n,
{
    if n > 0 {
        let m = (n - 1) as nat;
        lemma_first_minute_bound(c, secs, offsets, m);
        if i < first_minute(c, secs, offsets, m) {
            lemma_first_minute(c, secs, offsets, m, i);
        }
    }
}

proof fn lemma_first_minute_bound(c: CronV, secs: i64, offsets: Seq<i32>, n: nat)
    ensures
        0 <= first_minute(c, secs, offsets, n) <= n,
    decreases n,
{
    if n > 0 {
        lemma_first_minute_bound(c, secs, offsets, (n - 1) as nat);
    }
}

} // verus!
