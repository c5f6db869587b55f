//! Where things are: addresses, files, sockets and the environment of a process.

use vstd::prelude::*;
use crate::client::{base_of, signal_body, trigger_body};
use crate::cron_laws::{is_word, lacks, law_decimal_is_read_back};
use crate::daemon::{
    address, ensured, local, log_file_of, pid_file_of, pid_in, Ensure, EnsureActionV,
};
use crate::json::{JsonV, Members};
use crate::launch::{
    fixed_vars, is_environment, is_params, param_vars, python_path, socket, upper_of, Var,
};
use crate::order::{is_order, pick};
use crate::paths::{config_dir_of, joined, scaffold, SetupV};
use crate::reply_laws::law_member_is_the_first;
use crate::tables::member_keys;
use crate::text::{
    after_last, before_first, decimal_of, drop_space, has_prefix, is_blank, is_char, is_space,
    lemma_first_where_is, padded, skip_space, strip_prefixes, strip_trailing, trimmed,
};

verus! {

// ---------------------------------------------------------------------------
// Texts
// ---------------------------------------------------------------------------

/// White space on both sides of a word is trimmed away.
pub proof fn law_word_is_trimmed(a: Seq<char>, w: Seq<char>, b: Seq<char>)
    requires
        is_blank(a),
        is_word(w),
        is_blank(b),
    ensures
        trimmed(a + w + b) == w,
{
    let s = a + w + b;
    lemma_skips(a, w + b);
    assert(a + (w + b) =~= s);
    assert((w + b)[0] == w[0]);
    lemma_drops(w, b);
}

proof fn lemma_skips(a: Seq<char>, t: Seq<char>)
    requires
        is_blank(a),
        t.len() > 0,
        !is_space(t[0]),
    ensures
        skip_space(a + t) == t,
    decreases a.len(),
{
    let s = a + t;
    if a.len() == 0 {
        assert(s =~= t);
    } else {
        let r = a.skip(1);
        assert(s[0] == a[0]);
        assert(is_space(a[0]));
        assert forall|i: int| 0 <= i < r.len() implies is_space(#[trigger] r[i]) by {
            assert(r[i] == a[i + 1]);
        }
        assert(s.skip(1) =~= r + t);
        lemma_skips(r, t);
    }
}

proof fn lemma_drops(w: Seq<char>, b: Seq<char>)
    requires
        is_word(w),
        is_blank(b),
    ensures
        drop_space(w + b) == w,
    decreases b.len(),
{
    let s = w + b;
    if b.len() == 0 {
        assert(s =~= w);
        assert(!is_space(w[w.len() - 1]));
    } else {
        let r = b.drop_last();
        assert(is_space(b[b.len() - 1]));
        assert(s.last() == b.last());
        assert forall|i: int| 0 <= i < r.len() implies is_space(#[trigger] r[i]) by {
            assert(r[i] == b[i]);
        }
        assert(s.drop_last() =~= w + r);
        lemma_drops(w, r);
    }
}

/// What stands behind the last of a character, and what before the first.
pub proof fn law_ends_of_a_text(a: Seq<char>, c: char, b: Seq<char>)
    ensures
        lacks(b, c) ==> after_last(a + seq![c] + b, c) == b,
        lacks(b, c) ==> after_last(b, c) == b,
        lacks(a, c) ==> before_first(a + seq![c] + b, c) == a,
        lacks(a, c) ==> before_first(a, c) == a,
    decreases b.len(),
{
    let s = a + seq![c] + b;
    if lacks(b, c) {
        if b.len() == 0 {
            assert(s.last() == c);
            assert(after_last(s, c) =~= b);
            assert(b =~= Seq::<char>::empty());
        } else {
            let r = b.drop_last();
            assert forall|i: int| 0 <= i < r.len() implies #[trigger] r[i] != c by {
                assert(r[i] == b[i]);
            }
            law_ends_of_a_text(a, c, r);
            assert(b[b.len() - 1] != c);
            assert(s.last() == b.last());
            assert(s.drop_last() =~= a + seq![c] + r);
            assert(r.push(b.last()) =~= b);
        }
    }
    if lacks(a, c) {
        let p = is_char(c);
        assert forall|j: int| 0 <= j < a.len() implies !p(#[trigger] s[j]) by {
            assert(s[j] == a[j]);
        }
        assert(s[a.len() as int] == c);
        lemma_first_where_is(s, p, a.len() as int);
        assert(s.take(a.len() as int) =~= a);
        assert forall|j: int| 0 <= j < a.len() implies !p(#[trigger] a[j]) by {}
        lemma_first_where_is(a, p, a.len() as int);
        assert(a.take(a.len() as int) =~= a);
    }
}

/// A text is padded with spaces behind it to a width, and left as it is if it is as wide.
pub proof fn law_padding_is_behind(s: Seq<char>, width: int, i: int)
    requires
        0 <= i < padded(s, width).len(),
    ensures
        padded(s, width).len() == if s.len() < width {
            width
        } else {
            s.len() as int
        },
        padded(s, width)[i] == if i < s.len() {
            s[i]
        } else {
            ' '
        },
{
}

// ---------------------------------------------------------------------------
// Addresses
// ---------------------------------------------------------------------------

/// Whether a text is an address: it begins with no scheme and ends with no slash.
pub open spec fn is_plain(h: Seq<char>) -> bool {
    &&& h.len() > 0
    &&& !has_prefix(h, "http://"@)
    &&& !has_prefix(h, "https://"@)
    &&& h.last() != '/'
}

proof fn lemma_schemes()
    ensures
        "http://"@ =~= seq!['h', 't', 't', 'p', ':', '/', '/'],
        "https://"@ =~= seq!['h', 't', 't', 'p', 's', ':', '/', '/'],
{
    reveal_strlit("http://");
    reveal_strlit("https://");
}

/// An address is that of the host that is written as it, with a scheme before it, and with a
/// slash behind it.
pub proof fn law_host_has_an_address(h: Seq<char>)
    requires
        is_plain(h),
    ensures
        address(h) == h,
        address("http://"@ + h) == h,
        address("https://"@ + h) == h,
        address("http://"@ + h + seq!['/']) == h,
        address(h + seq!['/']) == h || has_prefix(h + seq!['/'], "http://"@) || has_prefix(
            h + seq!['/'],
            "https://"@,
        ),
{
    lemma_schemes();
    let p = "http://"@;
    let q = "https://"@;
    assert(strip_trailing(h, '/') == h);
    lemma_one_prefix(p, h);
    lemma_one_prefix(q, h);
    assert(!has_prefix(q + h, p)) by {
        assert((q + h)[4] == 's');
        if has_prefix(q + h, p) {
            assert((q + h).take(7)[4] == p[4]);
        }
    }
    let hs = h + seq!['/'];
    assert(hs.drop_last() =~= h);
    assert(strip_trailing(hs, '/') == h);
    assert(p + h + seq!['/'] =~= p + hs);
    lemma_one_prefix_slash(p, h);
    lemma_no_prefix_slash(q, h);
    lemma_no_prefix_slash(p, h);
}

proof fn lemma_one_prefix(p: Seq<char>, h: Seq<char>)
    requires
        p.len() > 0,
        !has_prefix(h, p),
    ensures
        strip_prefixes(p + h, p) == h,
        strip_prefixes(h, p) == h,
{
    assert((p + h).take(p.len() as int) =~= p);
    assert((p + h).skip(p.len() as int) =~= h);
    assert(has_prefix(p + h, p));
    assert(strip_prefixes(h, p) == h);
}

proof fn lemma_no_prefix_slash(p: Seq<char>, h: Seq<char>)
    requires
        p.len() > 1,
        p.last() == '/',
        !has_prefix(h, p),
    ensures
        !has_prefix(h + seq!['/'], p) ==> strip_prefixes(h + seq!['/'], p) == h + seq!['/'],
        has_prefix(h + seq!['/'], p) ==> h =~= p.drop_last(),
{
    let s = h + seq!['/'];
    if has_prefix(s, p) {
        if p.len() <= h.len() {
            assert(s.take(p.len() as int) =~= h.take(p.len() as int));
        }
        assert(s.take(p.len() as int) =~= s);
        assert(p.drop_last() =~= h);
    }
}

proof fn lemma_one_prefix_slash(p: Seq<char>, h: Seq<char>)
    requires
        p == "http://"@,
        is_plain(h),
    ensures
        strip_trailing(
            strip_prefixes(strip_prefixes(p + (h + seq!['/']), p), "https://"@),
            '/',
        ) == h,
{
    lemma_schemes();
    let q = "https://"@;
    let s = h + seq!['/'];
    lemma_no_prefix_slash(p, h);
    lemma_no_prefix_slash(q, h);
    if has_prefix(s, p) {
        assert(h.last() == p.drop_last().last());
        assert(h.last() == '/');
    }
    if has_prefix(s, q) {
        assert(h.last() == q.drop_last().last());
        assert(h.last() == '/');
    }
    lemma_one_prefix(p, s);
    assert(s.drop_last() =~= h);
    assert(strip_trailing(s, '/') == strip_trailing(h, '/'));
}

/// The daemon of an address keeps its process id and its log in files named by its port,
/// however the host is written.
pub proof fn law_files_are_named_by_the_port(dir: Seq<char>, name: Seq<char>, port: Seq<char>)
    requires
        is_plain(name + seq![':'] + port),
        lacks(port, ':'),
    ensures
        ({
            let h = name + seq![':'] + port;
            let pid = joined(dir, "daemon-"@ + port + ".pid"@);
            let log = joined(dir, "daemon-"@ + port + ".log"@);
            &&& pid_file_of(dir, h) == pid && log_file_of(dir, h) == log
            &&& pid_file_of(dir, "http://"@ + h) == pid && log_file_of(dir, "http://"@ + h) == log
            &&& pid_file_of(dir, "http://"@ + h + seq!['/']) == pid
        }),
{
    let h = name + seq![':'] + port;
    law_host_has_an_address(h);
    law_ends_of_a_text(name, ':', port);
}

/// A host on this machine is written as its loopback address, its name or the address of
/// all its interfaces; any other name is that of another machine.
pub proof fn law_local_hosts(name: Seq<char>, port: Seq<char>)
    requires
        is_plain(name + seq![':'] + port),
        lacks(name, ':'),
    ensures
        local(name + seq![':'] + port) <==> name == "127.0.0.1"@ || name == "localhost"@ || name
            == "0.0.0.0"@ || name.len() == 0,
{
    law_host_has_an_address(name + seq![':'] + port);
    law_ends_of_a_text(name, ':', port);
    reveal_strlit("::1");
    reveal_strlit("");
    if name == "::1"@ {
        assert(name[0] == ':');
    }
    assert(""@ =~= Seq::<char>::empty());
    if name.len() == 0 {
        assert(name =~= ""@);
    }
}

/// A daemon that answers is used, and none is started. One that does not is started once if
/// the host is on this machine, and then asked for a number of times; on another machine
/// that is an error at once.
pub proof fn law_daemon_is_started_once(dir: Seq<char>, host: Seq<char>, at: Ensure, n: u32)
    ensures
        ensured(dir, host, at, true).1 is Ready,
        ensured(dir, host, Ensure::First, true).1 == EnsureActionV::Ready(None),
        local(host) ==> ensured(dir, host, Ensure::First, false) == (
            Ensure::Started(0),
            EnsureActionV::Start,
        ),
        !local(host) ==> ensured(dir, host, Ensure::First, false).1 is Fail,
        ensured(dir, host, Ensure::Started(n), false).1 is Wait <==> n < 39,
        ensured(dir, host, Ensure::Started(n), false).1 is Fail <==> n >= 39,
        n < 39 ==> ensured(dir, host, Ensure::Started(n), false).0 == Ensure::Started(
            (n + 1) as u32,
        ),
{
}

/// A process id that was written is read back, with the line end that may stand behind it.
pub proof fn law_process_id_is_read_back(n: nat)
    requires
        n <= i32::MAX,
    ensures
        pid_in(Some(decimal_of(n as int))) == Some(n as i32),
        pid_in(Some(decimal_of(n as int) + seq!['\n'])) == Some(n as i32),
        pid_in(None) is None,
{
    let d = decimal_of(n as int);
    let e = Seq::<char>::empty();
    law_decimal_is_read_back(n);
    assert forall|i: int| 0 <= i < d.len() implies !is_space(#[trigger] d[i]) by {
        assert('0' <= d[i] <= '9');
    }
    assert(is_word(d));
    law_word_is_trimmed(e, d, e);
    assert(e + d + e =~= d);
    let nl = seq!['\n'];
    assert(is_space(nl[0]));
    assert(is_blank(nl)) by {
        assert forall|i: int| 0 <= i < nl.len() implies is_space(#[trigger] nl[i]) by {}
    }
    law_word_is_trimmed(e, d, nl);
    assert(e + d + nl =~= d + nl);
    assert('0' <= d[0] <= '9');
}

/// A client speaks to the host as it is written, if that names a scheme; else over HTTP. A
/// slash behind it does not count.
pub proof fn law_client_speaks_http(h: Seq<char>)
    requires
        h.len() > 0,
        h.last() != '/',
    ensures
        base_of("http://"@ + h) == "http://"@ + h,
        base_of("http://"@ + h + seq!['/']) == "http://"@ + h,
        !has_prefix(h, "http"@) ==> base_of(h) == "http://"@ + h,
{
    lemma_schemes();
    reveal_strlit("http");
    let s = "http://"@ + h;
    assert(s.take(4) =~= "http"@);
    assert(has_prefix(s, "http"@));
    assert(s.last() == h.last());
    assert(strip_trailing(s, '/') == s);
    let t = s + seq!['/'];
    assert(t.take(4) =~= "http"@);
    assert(t.drop_last() =~= s);
    assert(strip_trailing(t, '/') == s);
}

/// What is submitted over HTTP is the parameters, and the id if there is one; what is sent
/// with a signal is its name and its payload.
pub proof fn law_bodies_hold_what_was_given(
    params: JsonV,
    id: Seq<char>,
    name: Seq<char>,
    payload: JsonV,
)
    ensures
        trigger_body(params, Some(id)).field("params"@) == Some(params),
        trigger_body(params, Some(id)).field("id"@) == Some(JsonV::Str(id)),
        trigger_body(params, None).field("params"@) == Some(params),
        trigger_body(params, None).field("id"@) is None,
        signal_body(name, payload).field("name"@) == Some(JsonV::Str(name)),
        signal_body(name, payload).field("payload"@) == Some(payload),
{
    reveal_strlit("params");
    reveal_strlit("id");
    reveal_strlit("name");
    reveal_strlit("payload");
    assert("params"@.len() == 6 && "id"@.len() == 2 && "name"@.len() == 4 && "payload"@.len() == 7);
    let a = trigger_body(params, Some(id))->Obj_0;
    assert(a.len() == 2);
    law_member_is_the_first(a, 0);
    law_member_is_the_first(a, 1);
    let b = trigger_body(params, None)->Obj_0;
    law_member_is_the_first(b, 0);
    crate::reply_laws::law_missing_member_is_none(b, "id"@);
    let c = signal_body(name, payload)->Obj_0;
    law_member_is_the_first(c, 0);
    law_member_is_the_first(c, 1);
}

// ---------------------------------------------------------------------------
// Files
// ---------------------------------------------------------------------------

/// Two parts of a path are joined by one slash. A second part that begins at the root stands
/// alone.
pub proof fn law_paths_are_joined_by_a_slash(a: Seq<char>, b: Seq<char>)
    requires
        a.len() > 0,
        a.last() != '/',
        b.len() > 0,
        b[0] != '/',
    ensures
        joined(a, b) == a + seq!['/'] + b,
        joined(a + seq!['/'], b) == a + seq!['/'] + b,
        joined(a, seq!['/'] + b) == seq!['/'] + b,
        joined(Seq::empty(), b) == b,
{
    assert(joined(a, b) =~= a + seq!['/'] + b);
}

/// The configuration stands under the directory that is named for that, or, where none is
/// or it is empty, under the home directory.
pub proof fn law_configuration_has_a_place(d: Seq<char>)
    requires
        d.len() > 0,
        d.last() != '/',
    ensures
        config_dir_of(Some(d), None) == d + "/shift-clock"@,
        config_dir_of(None, Some(d)) == d + "/.config/shift-clock"@,
        config_dir_of(Some(Seq::empty()), Some(d)) == d + "/.config/shift-clock"@,
        config_dir_of(None, None) == "/tmp/.config/shift-clock"@,
{
    reveal_strlit("shift-clock");
    reveal_strlit("/shift-clock");
    reveal_strlit(".config");
    reveal_strlit("/.config/shift-clock");
    reveal_strlit("/tmp");
    reveal_strlit("/tmp/.config/shift-clock");
    assert(config_dir_of(Some(d), None) =~= d + "/shift-clock"@);
    assert(config_dir_of(None, Some(d)) =~= d + "/.config/shift-clock"@);
    assert(config_dir_of(Some(Seq::empty()), Some(d)) =~= d + "/.config/shift-clock"@);
    assert(config_dir_of(None, None) =~= "/tmp/.config/shift-clock"@);
}

/// Setting up the configuration writes both SDKs as they are given. A manifest that is there
/// is never written over; where there is none, a sample is written.
pub proof fn law_manifest_is_never_written_over(
    dir: Seq<char>,
    has_manifest: bool,
    python: Seq<char>,
    typescript: Seq<char>,
    i: int,
)
    requires
        dir.len() > 0,
        dir.last() != '/',
    ensures
        ({
            let steps = scaffold(dir, has_manifest, python, typescript);
            &&& steps.contains(SetupV::Write(dir + "/sdk/python/shift_clock.py"@, python))
            &&& steps.contains(SetupV::Write(dir + "/sdk/typescript/shift_clock.mjs"@, typescript))
            &&& has_manifest && 0 <= i < steps.len() ==> match steps[i] {
                SetupV::Write(p, _) => p != dir + "/flows.toml"@,
                SetupV::TryWrite(p, _) => p != dir + "/flows.toml"@,
                _ => true,
            }
            &&& !has_manifest ==> exists|k: int|
                0 <= k < steps.len() && (#[trigger] steps[k] matches SetupV::Write(p, _) && p == dir
                    + "/flows.toml"@)
        }),
{
    reveal_strlit("sdk/python");
    reveal_strlit("sdk/typescript");
    reveal_strlit("shift_clock.py");
    reveal_strlit("shift_clock.mjs");
    reveal_strlit("package.json");
    reveal_strlit("flows.toml");
    reveal_strlit("/flows.toml");
    reveal_strlit("/sdk/python/shift_clock.py");
    reveal_strlit("/sdk/typescript/shift_clock.mjs");
    let steps = scaffold(dir, has_manifest, python, typescript);
    let py = joined(dir, "sdk/python"@);
    let ts = joined(dir, "sdk/typescript"@);
    assert(joined(py, "shift_clock.py"@) =~= dir + "/sdk/python/shift_clock.py"@);
    assert(joined(ts, "shift_clock.mjs"@) =~= dir + "/sdk/typescript/shift_clock.mjs"@);
    assert(steps[1] == SetupV::Write(dir + "/sdk/python/shift_clock.py"@, python));
    assert(steps[3] == SetupV::Write(dir + "/sdk/typescript/shift_clock.mjs"@, typescript));
    assert((dir + "/flows.toml"@).len() == dir.len() + 11);
    assert(joined(dir, "package.json"@).len() == dir.len() + 13);
    if !has_manifest {
        assert(joined(dir, "flows.toml"@) =~= dir + "/flows.toml"@);
        assert(steps[7] == SetupV::Write(dir + "/flows.toml"@, crate::paths::SAMPLE_MANIFEST@));
    }
}

// ---------------------------------------------------------------------------
// Processes
// ---------------------------------------------------------------------------

/// Each workflow has a socket of its own, named by its id.
pub proof fn law_socket_is_named_by_the_id(id: Seq<char>)
    ensures
        socket(id) == "/tmp/sc-"@ + id + ".sock"@,
{
    reveal_strlit("/tmp");
    reveal_strlit("sc-");
    reveal_strlit("/tmp/sc-");
    reveal_strlit(".sock");
    assert(socket(id) =~= "/tmp/sc-"@ + id + ".sock"@);
}

/// A process finds its SDK under the directory of its flows, before whatever Python looked
/// at anyway.
pub proof fn law_sdk_is_found_first(root: Seq<char>, old: Seq<char>)
    requires
        root.len() > 0,
        root.last() != '/',
        old.len() > 0,
    ensures
        python_path(root, None) == root + "/sdk/python"@,
        python_path(root, Some(Seq::empty())) == root + "/sdk/python"@,
        python_path(root, Some(old)) == root + "/sdk/python:"@ + old,
{
    reveal_strlit("sdk/python");
    reveal_strlit("/sdk/python");
    reveal_strlit("/sdk/python:");
    reveal_strlit(":");
    assert(python_path(root, None) =~= root + "/sdk/python"@);
    assert(python_path(root, Some(Seq::empty())) =~= root + "/sdk/python"@);
    assert(python_path(root, Some(old)) =~= root + "/sdk/python:"@ + old);
}

/// A process is told its socket, its id and its input, and each member of the input under a
/// name of its own: a text as it is, anything else as JSON. It is told nothing else.
pub proof fn law_process_is_told_its_input(
    root: Seq<char>,
    id: Seq<char>,
    m: Members,
    input_text: Seq<char>,
    existing: Option<Seq<char>>,
    texts: Seq<Seq<char>>,
    env: Seq<Var>,
    i: int,
)
    requires
        is_environment(root, id, JsonV::Obj(m), input_text, existing, texts, env),
        texts.len() == m.len(),
    ensures
        env.len() == 5 + m.len(),
        env.contains(("SHIFT_CLOCK_SOCK"@, "/tmp/sc-"@ + id + ".sock"@)),
        env.contains(("SHIFT_CLOCK_WORKFLOW_ID"@, id)),
        env.contains(("SHIFT_CLOCK_INPUT"@, input_text)),
        env.contains(("SHIFT_CLOCK_PARAMS"@, input_text)),
        0 <= i < m.len() ==> env.contains(
            (
                "SC_PARAM_"@ + upper_of(m[i].0),
                match m[i].1 {
                    JsonV::Str(s) => s,
                    _ => texts[i],
                },
            ),
        ),
{
    law_socket_is_named_by_the_id(id);
    let fixed = fixed_vars(root, id, input_text, existing);
    let vars = choose|vars: Seq<Var>| #[trigger]
        is_params(JsonV::Obj(m), texts, vars) && env == fixed + vars;
    let all = param_vars(m, texts);
    let keys = member_keys(m);
    let o = choose|o: Seq<int>| is_order(keys, o) && vars == #[trigger] pick(all, o);
    assert(env[0] == fixed[0]);
    assert(env[1] == fixed[1]);
    assert(env[2] == fixed[2]);
    assert(env[3] == fixed[3]);
    if 0 <= i < m.len() {
        assert(o.contains(i));
        let a = choose|a: int| 0 <= a < o.len() && o[a] == i;
        assert(env[5 + a] == vars[a]);
    }
}

} // verus!
