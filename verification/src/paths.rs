//! Where things live: everything stands under `~/.config/shift-clock/`, or under
//! `$XDG_CONFIG_HOME` where that is set.
//!
//! - `flows.toml`: the manifest
//! - `flows/`: the scripts of the flows
//! - `sdk/{python,typescript}/`: the SDKs
//! - `shift-clock.db`: the durable state
//! - `daemon-<port>.{pid,log}`

use vstd::prelude::*;
use crate::text::{chars_of, opt, views};

verus! {

/// The manifest of a fresh configuration.
pub const SAMPLE_MANIFEST: &'static str =
    "# shift-clock flows — edit me. Each [[flow]] is a schedulable workflow.\n# Docs: a flow is just a command; add `cron`, `params`, `retries`, `concurrency`.\n\n[[flow]]\nname = \"hello\"\ncmd = [\"bash\", \"-c\", \"echo hello from shift-clock; date\"]\n\n[[flow]]\nname = \"example\"\ncmd = [\"python3\", \"flows/example.py\"]\ncron = \"*/5 * * * *\"\n";

/// The script of the sample flow of a fresh configuration.
pub const SAMPLE_FLOW: &'static str =
    "import time\n\nfrom shift_clock import workflow, step, log\n\n\n@step()\ndef work():\n    time.sleep(0.2)\n    return {\"ok\": True}\n\n\n@workflow\ndef main():\n    log(\"hello from an SDK workflow\")\n    work()\n\n\nif __name__ == \"__main__\":\n    main()\n";

/// A path with a further component. A component that begins with a slash stands
/// alone, and so does one behind an empty path.
pub open spec fn joined(base: Seq<char>, rest: Seq<char>) -> Seq<char> {
    if base.len() == 0 || (rest.len() > 0 && rest[0] == '/') {
        rest
    } else if base.last() == '/' {
        base + rest
    } else {
        base.push('/') + rest
    }
}

/// A path with a further component.
pub fn join(base: &str, rest: &str) -> (r: String)
    ensures
        r@ == joined(base@, rest@),
{
    let b = chars_of(base);
    let c = chars_of(rest);
    if b.len() == 0 || (c.len() > 0 && c[0] == '/') {
        return rest.to_string();
    }
    let mut r = base.to_string();
    if b[b.len() - 1] != '/' {
        r.push('/');
    }
    r.append(rest);
    r
}

/// Where the configuration stands, given `$XDG_CONFIG_HOME` and `$HOME`.
pub open spec fn config_dir_of(xdg: Option<Seq<char>>, home: Option<Seq<char>>) -> Seq<char> {
    let base = if xdg is Some && xdg.unwrap().len() > 0 {
        xdg.unwrap()
    } else {
        joined(
            if home is Some {
                home.unwrap()
            } else {
                "/tmp"@
            },
            ".config"@,
        )
    };
    joined(base, "shift-clock"@)
}

/// Where the configuration stands, given `$XDG_CONFIG_HOME` and `$HOME`. An empty
/// `$XDG_CONFIG_HOME` counts as none.
pub fn config_dir(xdg: Option<String>, home: Option<String>) -> (r: String)
    ensures
        r@ == config_dir_of(
            opt(xdg),
            opt(home),
        ),
{
    let base = match xdg {
        Some(s) => if chars_of(s.as_str()).len() > 0 {
            Some(s)
        } else {
            None
        },
        None => None,
    };
    let base = match base {
        Some(s) => s,
        None => match home {
            Some(h) => join(h.as_str(), ".config"),
            None => join("/tmp", ".config"),
        },
    };
    join(base.as_str(), "shift-clock")
}

/// The manifest of a configuration.
pub fn default_manifest(dir: &str) -> (r: String)
    ensures
        r@ == joined(dir@, "flows.toml"@),
{
    join(dir, "flows.toml")
}

/// The database of a configuration.
pub fn default_db(dir: &str) -> (r: String)
    ensures
        r@ == joined(dir@, "shift-clock.db"@),
{
    join(dir, "shift-clock.db")
}

/// The file that holds the process id of the daemon on a port.
pub fn pid_file(dir: &str, port: &str) -> (r: String)
    ensures
        r@ == joined(dir@, "daemon-"@ + port@ + ".pid"@),
{
    let mut name = "daemon-".to_string();
    name.append(port);
    name.append(".pid");
    join(dir, name.as_str())
}

/// The file that takes the output of the daemon on a port.
pub fn log_file(dir: &str, port: &str) -> (r: String)
    ensures
        r@ == joined(dir@, "daemon-"@ + port@ + ".log"@),
{
    let mut name = "daemon-".to_string();
    name.append(port);
    name.append(".log");
    join(dir, name.as_str())
}

/// One thing to do when a configuration is set up.
#[derive(Debug, PartialEq)]
pub enum Setup {
    /// Make a directory, and those above it.
    MakeDir(String),
    /// Write a file: path and text.
    Write(String, String),
    /// Write a file, and go on where that fails.
    TryWrite(String, String),
}

/// The mathematical value of a [`Setup`].
#[verifier::ext_equal]
pub enum SetupV {
    MakeDir(Seq<char>),
    Write(Seq<char>, Seq<char>),
    TryWrite(Seq<char>, Seq<char>),
}

impl View for Setup {
    type V = SetupV;

    open spec fn view(&self) -> SetupV {
        match self {
            Setup::MakeDir(p) => SetupV::MakeDir(p@),
            Setup::Write(p, t) => SetupV::Write(p@, t@),
            Setup::TryWrite(p, t) => SetupV::TryWrite(p@, t@),
        }
    }
}

/// What sets up a configuration: the SDKs in any case, so that they match the
/// program, and a manifest with a flow where there is no manifest yet.
pub open spec fn scaffold(
    dir: Seq<char>,
    has_manifest: bool,
    python: Seq<char>,
    typescript: Seq<char>,
) -> Seq<SetupV> {
    let py = joined(dir, "sdk/python"@);
    let ts = joined(dir, "sdk/typescript"@);
    let sdk = seq![
        SetupV::MakeDir(py),
        SetupV::Write(joined(py, "shift_clock.py"@), python),
        SetupV::MakeDir(ts),
        SetupV::Write(joined(ts, "shift_clock.mjs"@), typescript),
        SetupV::TryWrite(joined(dir, "package.json"@), "{\"type\":\"module\"}\n"@),
    ];
    if has_manifest {
        sdk
    } else {
        sdk + seq![
            SetupV::MakeDir(joined(dir, "flows"@)),
            SetupV::Write(joined(dir, "flows/example.py"@), SAMPLE_FLOW@),
            SetupV::Write(joined(dir, "flows.toml"@), SAMPLE_MANIFEST@),
        ]
    }
}

/// What sets up a configuration, in order. The first thing that fails, other
/// than a `TryWrite`, ends it.
pub fn ensure_scaffold(dir: &str, has_manifest: bool, python: &str, typescript: &str) -> (r: Vec<
    Setup,
>)
    ensures
        views(r@) == scaffold(dir@, has_manifest, python@, typescript@),
{
    let py = join(dir, "sdk/python");
    let ts = join(dir, "sdk/typescript");
    let mut r: Vec<Setup> = Vec::new();
    r.push(Setup::MakeDir(py.clone()));
    r.push(Setup::Write(join(py.as_str(), "shift_clock.py"), python.to_string()));
    r.push(Setup::MakeDir(ts.clone()));
    r.push(Setup::Write(join(ts.as_str(), "shift_clock.mjs"), typescript.to_string()));
    r.push(Setup::TryWrite(join(dir, "package.json"), "{\"type\":\"module\"}\n".to_string()));
    if !has_manifest {
        r.push(Setup::MakeDir(join(dir, "flows")));
        r.push(Setup::Write(join(dir, "flows/example.py"), SAMPLE_FLOW.to_string()));
        r.push(Setup::Write(default_manifest(dir), SAMPLE_MANIFEST.to_string()));
    }
    assert(views(r@) =~= scaffold(dir@, has_manifest, python@, typescript@));
    r
}

} // verus!
