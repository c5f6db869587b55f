//! How the process of a workflow is started: its socket, its command and its
//! environment.

use vstd::prelude::*;
use crate::config::Deployment;
use crate::json::{lemma_obj_view, members, Json, JsonV, Members};
use crate::order::{indices, is_order, is_sorted_by, key_views, lemma_key_views_push, order_by, pick};
use crate::paths::{join, joined};
use crate::tables::member_keys;
use crate::text::{chars_of, lemma_take_step, lemma_views_push, opt, views};

verus! {

/// A name and a value of the environment.
pub type Var = (Seq<char>, Seq<char>);

/// A text in upper case.
pub uninterp spec fn upper_of(s: Seq<char>) -> Seq<char>;

/// Calls `str::to_uppercase`.
///
/// The result depends on the text alone. Which characters it maps to which is known
/// here by name only.
#[verifier::external_body]
fn upper(s: &str) -> (r: String)
    ensures
        r@ == upper_of(s@),
{
    s.to_uppercase()
}

/// The socket over which a workflow and its worker speak.
pub open spec fn socket(id: Seq<char>) -> Seq<char> {
    joined("/tmp"@, "sc-"@ + id + ".sock"@)
}

/// The socket over which a workflow and its worker speak.
pub fn sock_path(id: &str) -> (r: String)
    ensures
        r@ == socket(id@),
{
    let mut name = "sc-".to_string();
    name.append(id);
    name.append(".sock");
    join("/tmp", name.as_str())
}

/// Where Python looks for the SDK, before whatever it looked at anyway.
pub open spec fn python_path(root: Seq<char>, existing: Option<Seq<char>>) -> Seq<char> {
    let sdk = joined(root, "sdk/python"@);
    if existing is Some && existing.unwrap().len() > 0 {
        sdk + ":"@ + existing.unwrap()
    } else {
        sdk
    }
}

/// The variable of one parameter: a text as it is, anything else as JSON.
pub open spec fn param_var(key: Seq<char>, value: JsonV, text: Seq<char>) -> Var {
    (
        "SC_PARAM_"@ + upper_of(key),
        match value {
            JsonV::Str(s) => s,
            _ => text,
        },
    )
}

/// The variables of the members of an input, given the JSON text of each.
pub open spec fn param_vars(m: Members, texts: Seq<Seq<char>>) -> Seq<Var> {
    Seq::new(m.len(), |i: int| param_var(m[i].0, m[i].1, texts[i]))
}

/// Whether `vars` are the variables of an input, sorted by the names of its members. An
/// input that is no object has none.
pub open spec fn is_params(input: JsonV, texts: Seq<Seq<char>>, vars: Seq<Var>) -> bool {
    match input {
        JsonV::Obj(m) => is_sorted_by(param_vars(m, texts), member_keys(m), vars),
        _ => vars.len() == 0,
    }
}

/// The variables that every process is started with, in order.
pub open spec fn fixed_vars(
    root: Seq<char>,
    id: Seq<char>,
    input_text: Seq<char>,
    existing: Option<Seq<char>>,
) -> Seq<Var> {
    seq![
        ("SHIFT_CLOCK_SOCK"@, socket(id)),
        ("SHIFT_CLOCK_WORKFLOW_ID"@, id),
        ("SHIFT_CLOCK_INPUT"@, input_text),
        ("SHIFT_CLOCK_PARAMS"@, input_text),
        ("PYTHONPATH"@, python_path(root, existing)),
    ]
}

/// Whether `env` are the variables that a process is started with, in order; of two of
/// one name the later counts.
pub open spec fn is_environment(
    root: Seq<char>,
    id: Seq<char>,
    input: JsonV,
    input_text: Seq<char>,
    existing: Option<Seq<char>>,
    texts: Seq<Seq<char>>,
    env: Seq<Var>,
) -> bool {
    exists|vars: Seq<Var>| #[trigger]
        is_params(input, texts, vars) && env == fixed_vars(root, id, input_text, existing) + vars
}

/// How a process is started: its program, its arguments, the directory that it is
/// started in, and its environment.
#[derive(Debug, PartialEq)]
pub struct Plan {
    pub prog: String,
    pub args: Vec<String>,
    pub dir: String,
    pub env: Vec<(String, String)>,
}

/// The mathematical value of a [`Plan`].
#[verifier::ext_equal]
pub struct PlanV {
    pub prog: Seq<char>,
    pub args: Seq<Seq<char>>,
    pub dir: Seq<char>,
    pub env: Seq<Var>,
}

impl View for Plan {
    type V = PlanV;

    open spec fn view(&self) -> PlanV {
        PlanV {
            prog: self.prog@,
            args: views(self.args@),
            dir: self.dir@,
            env: views(self.env@),
        }
    }
}

fn var(name: &str, value: String) -> (r: (String, String))
    ensures
        r@ == (name@, value@),
{
    (name.to_string(), value)
}

/// The variables of the members of an input, given the JSON text of each, sorted by the
/// names of the members.
fn params(m: &Vec<(String, Json)>, texts: &Vec<String>) -> (r: Vec<(String, String)>)
    requires
        texts@.len() == m@.len(),
    ensures
        is_sorted_by(
            param_vars(members(m@), views(texts@)),
            member_keys(members(m@)),
            views(r@),
        ),
{
    broadcast use {lemma_key_views_push, lemma_views_push};

    let ghost all = param_vars(members(m@), views(texts@));
    let ghost ks = member_keys(members(m@));
    let mut vars: Vec<(String, String)> = Vec::new();
    let mut keys: Vec<(String, i64)> = Vec::new();
    let mut k: usize = 0;
    assert(views(vars@) =~= all.take(0));
    assert(key_views(keys@) =~= ks.take(0));
    while k < m.len()
        invariant
            k <= m@.len(),
            texts@.len() == m@.len(),
            all == param_vars(members(m@), views(texts@)),
            ks == member_keys(members(m@)),
            views(vars@) == all.take(k as int),
            key_views(keys@) == ks.take(k as int),
        decreases m@.len() - k,
    {
        let mut name = "SC_PARAM_".to_string();
        name.append(upper(m[k].0.as_str()).as_str());
        let value = match &m[k].1 {
            Json::Str(s) => s.clone(),
            _ => texts[k].clone(),
        };
        proof {
            lemma_take_step(all, k as int);
            lemma_take_step(ks, k as int);
            assert((name@, value@) == all[k as int]);
        }
        vars.push((name, value));
        keys.push((m[k].0.clone(), 0));
        k = k + 1;
    }
    assert(all.take(all.len() as int) =~= all);
    assert(ks.take(ks.len() as int) =~= ks);
    let o = order_by(&keys);
    let mut r: Vec<(String, String)> = Vec::new();
    let mut a: usize = 0;
    assert(views(r@) =~= pick(all, indices(o@)).take(0));
    while a < o.len()
        invariant
            a <= o@.len(),
            all == views(vars@),
            ks.len() == all.len(),
            is_order(ks, indices(o@)),
            views(r@) == pick(all, indices(o@)).take(a as int),
        decreases o@.len() - a,
    {
        proof {
            lemma_take_step(pick(all, indices(o@)), a as int);
            assert(0 <= indices(o@)[a as int] < all.len());
        }
        let n: usize = o[a];
        let item = (vars[n].0.clone(), vars[n].1.clone());
        assert(item@ == all[n as int]);
        r.push(item);
        a = a + 1;
    }
    assert(pick(all, indices(o@)).take(o@.len() as int) =~= pick(all, indices(o@)));
    r
}

/// How the process of a workflow is started, given the JSON text of its input and of
/// each member of that, and what Python looks at anyway. Fails where the command is
/// empty.
pub fn plan(
    root: &str,
    dep: &Deployment,
    id: &str,
    input: &Json,
    input_text: &str,
    existing: Option<String>,
    texts: &Vec<String>,
) -> (r: Result<Plan, String>)
    requires
        input@ matches JsonV::Obj(m) ==> texts@.len() == m.len(),
    ensures
        match r {
            Ok(p) => {
                &&& dep@.cmd.len() > 0
                &&& p@.prog == dep@.cmd[0]
                &&& p@.args == dep@.cmd.skip(1)
                &&& p@.dir == root@
                &&& is_environment(
                    root@,
                    id@,
                    input@,
                    input_text@,
                    opt(existing),
                    views(texts@),
                    p@.env,
                )
            },
            Err(e) => dep@.cmd.len() == 0 && e@ == "empty cmd"@,
        },
{
    broadcast use {lemma_obj_view, lemma_views_push};

    if dep.cmd.len() == 0 {
        return Err("empty cmd".to_string());
    }
    let mut args: Vec<String> = Vec::new();
    let mut i: usize = 1;
    while i < dep.cmd.len()
        invariant
            1 <= i <= dep.cmd@.len(),
            views(args@) == views(dep.cmd@).skip(1).take(i - 1),
        decreases dep.cmd@.len() - i,
    {
        proof {
            lemma_take_step(views(dep.cmd@).skip(1), i - 1);
        }
        args.push(dep.cmd[i].clone());
        i = i + 1;
    }
    assert(views(dep.cmd@).skip(1).take(dep.cmd@.len() - 1) =~= views(dep.cmd@).skip(1));
    let mut env: Vec<(String, String)> = Vec::new();
    env.push(var("SHIFT_CLOCK_SOCK", sock_path(id)));
    env.push(var("SHIFT_CLOCK_WORKFLOW_ID", id.to_string()));
    env.push(var("SHIFT_CLOCK_INPUT", input_text.to_string()));
    env.push(var("SHIFT_CLOCK_PARAMS", input_text.to_string()));
    let ghost shown = opt(existing);
    let mut path = join(root, "sdk/python");
    if let Some(e) = existing {
        if chars_of(e.as_str()).len() > 0 {
            path.append(":");
            path.append(e.as_str());
        }
    }
    env.push(var("PYTHONPATH", path));
    let ghost fixed = fixed_vars(root@, id@, input_text@, shown);
    assert(views(env@) =~= fixed);
    let mut vars: Vec<(String, String)> = Vec::new();
    if let Json::Obj(m) = input {
        vars = params(m, texts);
    }
    assert(is_params(input@, views(texts@), views(vars@)));
    let ghost all = views(vars@);
    let mut k: usize = 0;
    assert(fixed + all.take(0) =~= fixed);
    while k < vars.len()
        invariant
            k <= vars@.len(),
            all == views(vars@),
            views(env@) == fixed + all.take(k as int),
        decreases vars@.len() - k,
    {
        let item = (vars[k].0.clone(), vars[k].1.clone());
        proof {
            lemma_take_step(all, k as int);
            assert(item@ == all[k as int]);
            assert((fixed + all.take(k as int)).push(all[k as int]) =~= fixed + all.take(
                k as int,
            ).push(all[k as int]));
        }
        env.push(item);
        k = k + 1;
    }
    assert(all.take(all.len() as int) =~= all);
    Ok(Plan { prog: dep.cmd[0].clone(), args, dir: root.to_string(), env })
}

} // verus!
