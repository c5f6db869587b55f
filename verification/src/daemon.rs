//! The life of the background daemon: where it is reached, when a client starts
//! one, and what `status` and `stop` say.

use vstd::prelude::*;
use crate::paths::{joined, log_file as log_path, pid_file as pid_path};
use crate::text::{
    after_last, before_first, decimal, decimal_of, head_before, i32_of, opt, parse_i32, str_eq,
    strip_prefixes, strip_trailing, tail_after, trim, trim_end, trim_start, trimmed, views,
};

verus! {

/// The port of a host: what stands behind the last colon of its address.
pub fn port_of(host: &str) -> (r: String)
    ensures
        r@ == after_last(address(host@), ':'),
{
    tail_after(addr_of(host).as_str(), ':')
}

/// The path of the process id of the daemon of a host.
pub open spec fn pid_file_of(dir: Seq<char>, host: Seq<char>) -> Seq<char> {
    joined(dir, "daemon-"@ + after_last(address(host), ':') + ".pid"@)
}

/// The path of the log of the daemon of a host.
pub open spec fn log_file_of(dir: Seq<char>, host: Seq<char>) -> Seq<char> {
    joined(dir, "daemon-"@ + after_last(address(host), ':') + ".log"@)
}

/// The file that holds the process id of the daemon of a host.
pub fn pid_file(dir: &str, host: &str) -> (r: String)
    ensures
        r@ == pid_file_of(dir@, host@),
{
    pid_path(dir, port_of(host).as_str())
}

/// The file that takes the output of the daemon of a host.
pub fn log_file(dir: &str, host: &str) -> (r: String)
    ensures
        r@ == log_file_of(dir@, host@),
{
    log_path(dir, port_of(host).as_str())
}

/// The address of a host: without a scheme and without trailing slashes.
pub open spec fn address(host: Seq<char>) -> Seq<char> {
    strip_trailing(strip_prefixes(strip_prefixes(host, "http://"@), "https://"@), '/')
}

/// The address of a host: without a scheme and without trailing slashes.
pub fn addr_of(host: &str) -> (r: String)
    ensures
        r@ == address(host@),
{
    let a = trim_start(host, "http://");
    let b = trim_start(a.as_str(), "https://");
    trim_end(b.as_str(), '/')
}

/// The host to speak with: the one that was named, or where `serve` listens.
pub fn resolve_host(host: Option<String>) -> (r: String)
    ensures
        r@ == match opt(host) {
            Some(h) => h,
            None => "127.0.0.1:8080"@,
        },
{
    match host {
        Some(h) => h,
        None => "127.0.0.1:8080".to_string(),
    }
}

/// Whether a host name, without its port, means this machine.
pub open spec fn local_name(name: Seq<char>) -> bool {
    name == "127.0.0.1"@ || name == "localhost"@ || name == "::1"@ || name == "0.0.0.0"@ || name
        == ""@
}

/// Whether a host is on this machine.
pub open spec fn local(host: Seq<char>) -> bool {
    local_name(before_first(address(host), ':'))
}

/// Whether a host is on this machine. Only there can a daemon be started; one on
/// another machine has to be up.
pub fn is_local(host: &str) -> (r: bool)
    ensures
        r == local(host@),
{
    let a = addr_of(host);
    let name = head_before(a.as_str(), ':');
    let n = name.as_str();
    str_eq(n, "127.0.0.1") || str_eq(n, "localhost") || str_eq(n, "::1") || str_eq(n, "0.0.0.0")
        || str_eq(n, "")
}

/// Where the health of the daemon of a host is asked for.
pub fn health_url(host: &str) -> (r: String)
    ensures
        r@ == "http://"@ + address(host@) + "/health"@,
{
    let mut r = "http://".to_string();
    r.append(addr_of(host).as_str());
    r.append("/health");
    r
}

// ---------------------------------------------------------------------------
// Making sure that a daemon is up
// ---------------------------------------------------------------------------

/// How often a client asks whether the daemon that it started is up.
pub const POLLS: u32 = 40;

/// How far a client is in making sure that a daemon is up.
#[derive(Clone, Copy, Debug, PartialEq, Eq, Structural)]
pub enum Ensure {
    /// It has not started one.
    First,
    /// It has started one, and asked so many times whether it is up.
    Started(u32),
}

/// What a client does next.
#[derive(Debug, PartialEq)]
pub enum EnsureAction {
    /// Go on: there is a daemon. What to print, if anything.
    Ready(Option<String>),
    /// Start a daemon, then wait and ask.
    Start,
    /// Wait and ask again.
    Wait,
    /// Give up, with a reason.
    Fail(String),
}

/// The mathematical value of an [`EnsureAction`].
#[verifier::ext_equal]
pub enum EnsureActionV {
    Ready(Option<Seq<char>>),
    Start,
    Wait,
    Fail(Seq<char>),
}

impl View for EnsureAction {
    type V = EnsureActionV;

    open spec fn view(&self) -> EnsureActionV {
        match self {
            EnsureAction::Ready(Some(s)) => EnsureActionV::Ready(Some(s@)),
            EnsureAction::Ready(None) => EnsureActionV::Ready(None),
            EnsureAction::Start => EnsureActionV::Start,
            EnsureAction::Wait => EnsureActionV::Wait,
            EnsureAction::Fail(s) => EnsureActionV::Fail(s@),
        }
    }
}

/// What follows from an answer of the health check.
pub open spec fn ensured(dir: Seq<char>, host: Seq<char>, at: Ensure, up: bool) -> (
    Ensure,
    EnsureActionV,
) {
    match at {
        Ensure::First => if up {
            (at, EnsureActionV::Ready(None))
        } else if local(host) {
            (Ensure::Started(0), EnsureActionV::Start)
        } else {
            (
                at,
                EnsureActionV::Fail(
                    "no shift-clock daemon reachable at "@ + host
                        + " (remote — start `shift-clock serve` there)"@,
                ),
            )
        },
        Ensure::Started(n) => if up {
            (
                at,
                EnsureActionV::Ready(
                    Some("[shift-clock] started background daemon on "@ + address(host)),
                ),
            )
        } else if n + 1 < POLLS {
            (Ensure::Started((n + 1) as u32), EnsureActionV::Wait)
        } else {
            (
                at,
                EnsureActionV::Fail(
                    "daemon did not become ready; see "@ + log_file_of(dir, host),
                ),
            )
        },
    }
}

/// What a client does after an answer of the health check: a daemon that does
/// not answer is started where that is possible, and then asked a number of times.
pub fn ensure(dir: &str, host: &str, at: Ensure, up: bool) -> (r: (Ensure, EnsureAction))
    ensures
        (r.0, r.1@) == ensured(dir@, host@, at, up),
{
    match at {
        Ensure::First => if up {
            (at, EnsureAction::Ready(None))
        } else if is_local(host) {
            (Ensure::Started(0), EnsureAction::Start)
        } else {
            let mut s = "no shift-clock daemon reachable at ".to_string();
            s.append(host);
            s.append(" (remote — start `shift-clock serve` there)");
            (at, EnsureAction::Fail(s))
        },
        Ensure::Started(n) => if up {
            let mut s = "[shift-clock] started background daemon on ".to_string();
            s.append(addr_of(host).as_str());
            (at, EnsureAction::Ready(Some(s)))
        } else if n < POLLS - 1 {
            (Ensure::Started(n + 1), EnsureAction::Wait)
        } else {
            let mut s = "daemon did not become ready; see ".to_string();
            s.append(log_file(dir, host).as_str());
            (at, EnsureAction::Fail(s))
        },
    }
}

/// A client on another machine than the host never starts a daemon.
pub proof fn law_remote_is_never_started(dir: Seq<char>, host: Seq<char>, at: Ensure, up: bool)
    requires
        !local(host),
    ensures
        ensured(dir, host, at, up).1 != EnsureActionV::Start,
{
}

/// The answers of the health check after which a client is, when it has seen the
/// answers `ups` and was not done before.
pub open spec fn ensure_run(dir: Seq<char>, host: Seq<char>, ups: Seq<bool>) -> Ensure
    decreases ups.len(),
{
    if ups.len() == 0 {
        Ensure::First
    } else {
        ensured(dir, host, ensure_run(dir, host, ups.drop_last()), ups.last()).0
    }
}

/// A client asks at most 41 times: once, and 40 times after it started a daemon.
/// The last negative answer ends it.
pub proof fn law_ensure_ends(dir: Seq<char>, host: Seq<char>, ups: Seq<bool>)
    requires
        forall|i: int| 0 <= i < ups.len() ==> !#[trigger] ups[i],
        local(host),
    ensures
        ups.len() <= POLLS ==> ensure_run(dir, host, ups) == (if ups.len() == 0 {
            Ensure::First
        } else {
            Ensure::Started((ups.len() - 1) as u32)
        }),
        ups.len() == POLLS ==> ensured(dir, host, ensure_run(dir, host, ups), false).1 is Fail,
        1 <= ups.len() < POLLS ==> ensured(dir, host, ensure_run(dir, host, ups), false).1 is Wait,
    decreases ups.len(),
{
    if ups.len() > 0 {
        assert forall|i: int| 0 <= i < ups.drop_last().len() implies !#[trigger] ups.drop_last()[i] by {
            assert(ups.drop_last()[i] == ups[i]);
        }
        law_ensure_ends(dir, host, ups.drop_last());
        assert(!ups[ups.len() - 1]);
    }
}

// ---------------------------------------------------------------------------
// What status and stop say
// ---------------------------------------------------------------------------

/// What `status` prints, given whether the daemon answers and what its pid file
/// holds.
pub open spec fn status_text(
    dir: Seq<char>,
    host: Seq<char>,
    up: bool,
    pid: Option<Seq<char>>,
) -> Seq<Seq<char>> {
    let first = "daemon @ "@ + address(host) + ": "@ + if up {
        "RUNNING"@
    } else {
        "not running"@
    };
    let last = "  log: "@ + log_file_of(dir, host);
    match pid {
        Some(p) => seq![first, "  pid: "@ + trimmed(p), last],
        None => seq![first, last],
    }
}

/// What `status` prints, line by line.
pub fn status(dir: &str, host: &str, up: bool, pid: Option<String>) -> (r: Vec<String>)
    ensures
        views(r@) == status_text(
            dir@,
            host@,
            up,
            opt(pid),
        ),
{
    let mut first = "daemon @ ".to_string();
    first.append(addr_of(host).as_str());
    first.append(": ");
    if up {
        first.append("RUNNING");
    } else {
        first.append("not running");
    }
    let mut last = "  log: ".to_string();
    last.append(log_file(dir, host).as_str());
    let mut r: Vec<String> = Vec::new();
    r.push(first);
    let ghost shown = opt(pid);
    if let Some(p) = pid {
        let mut line = "  pid: ".to_string();
        line.append(trim(p.as_str()).as_str());
        r.push(line);
    }
    r.push(last);
    assert(views(r@) =~= status_text(dir@, host@, up, shown));
    r
}

/// The process that a pid file names.
pub open spec fn pid_in(text: Option<Seq<char>>) -> Option<i32> {
    match text {
        Some(s) => i32_of(trimmed(s)),
        None => None,
    }
}

/// Which process `stop` ends and what it prints then, given what the pid file
/// holds; or why it cannot.
pub fn stop(dir: &str, host: &str, text: Option<String>) -> (r: Result<(i32, String), String>)
    ensures
        match pid_in(
            opt(text),
        ) {
            Some(pid) => r matches Ok(p) && p.0 == pid && p.1@ == "stopped daemon (pid "@
                + decimal_of(pid as int) + ")"@,
            None => r matches Err(e) && e@ == "no daemon pid file at "@ + pid_file_of(dir@, host@),
        },
{
    let pid = match text {
        Some(s) => parse_i32(trim(s.as_str()).as_str()),
        None => None,
    };
    match pid {
        Some(pid) => {
            let mut s = "stopped daemon (pid ".to_string();
            s.append(decimal(pid as i64).as_str());
            s.append(")");
            Ok((pid, s))
        },
        None => {
            let mut s = "no daemon pid file at ".to_string();
            s.append(pid_file(dir, host).as_str());
            Err(s)
        },
    }
}

} // verus!
