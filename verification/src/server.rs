//! What `serve` decides when it starts: where its files are, which deployments it
//! installs, and what it says.

use vstd::prelude::*;
use crate::config::{DeploymentV, Manifest};
use crate::paths::{default_db, default_manifest, joined};
use crate::store::{argv_of_text, argv_text_of, Store};
use crate::tables::StoreV;
use crate::text::{chars_of, decimal_of, decimal_u64, opt, views};

verus! {

/// Whether `serve` only opens the dashboard of the daemon that is up.
pub fn attaches(attach: bool, up: bool) -> (r: bool)
    ensures
        r == (attach && up),
{
    attach && up
}

/// What `serve` says when it opens the dashboard of the daemon that is up.
pub fn attaching_line(addr: &str) -> (r: String)
    ensures
        r@ == "[serve] a daemon is already running on "@ + addr@ + "; attaching dashboard"@,
{
    let mut s = "[serve] a daemon is already running on ".to_string();
    s.append(addr);
    s.append("; attaching dashboard");
    s
}

/// The database and the manifest: those that were named, else those of the
/// configuration.
pub fn resolve_files(db: Option<String>, flows: Option<String>, dir: &str) -> (r: (String, String))
    ensures
        r.0@ == match opt(db) {
            Some(p) => p,
            None => joined(dir@, "shift-clock.db"@),
        },
        r.1@ == match opt(flows) {
            Some(p) => p,
            None => joined(dir@, "flows.toml"@),
        },
{
    let db = match db {
        Some(p) => p,
        None => default_db(dir),
    };
    let flows = match flows {
        Some(p) => p,
        None => default_manifest(dir),
    };
    (db, flows)
}

/// The directory that the flows of a manifest stand under, given the directory of
/// the manifest: that one, or the current one.
pub fn flows_root(parent: Option<String>) -> (r: String)
    ensures
        r@ == root_of(opt(parent)),
{
    match parent {
        Some(p) => if chars_of(p.as_str()).len() > 0 {
            p
        } else {
            ".".to_string()
        },
        None => ".".to_string(),
    }
}

/// The directory that a path stands in.
pub uninterp spec fn parent_of(path: Seq<char>) -> Option<Seq<char>>;

/// Calls `std::path::Path::parent`.
///
/// The path without its last component, as Unix has paths. It depends on the path alone
/// and is known here by name only. There is none where the path is empty.
#[verifier::external_body]
fn parent(path: &str) -> (r: Option<String>)
    ensures
        opt(r) == parent_of(path@),
        path@.len() == 0 ==> r is None,
{
    std::path::Path::new(path).parent().map(|p| p.display().to_string())
}

/// The directory that the flows of a manifest stand under, given the directory of the
/// manifest.
pub open spec fn root_of(parent: Option<Seq<char>>) -> Seq<char> {
    match parent {
        Some(p) => if p.len() > 0 {
            p
        } else {
            "."@
        },
        None => "."@,
    }
}

/// The directory that the flows of a manifest stand under: that of the manifest, or the
/// current one.
pub fn manifest_root(path: &str) -> (r: String)
    ensures
        r@ == root_of(parent_of(path@)),
{
    flows_root(parent(path))
}

/// The store with the deployments of a manifest installed, one after the other.
pub open spec fn installed(s: StoreV, ds: Seq<DeploymentV>) -> StoreV
    decreases ds.len(),
{
    if ds.len() == 0 {
        s
    } else {
        installed(s, ds.drop_last()).deployed(ds.last(), argv_text_of(ds.last().cmd))
    }
}

/// Installs the deployments of a manifest. The text of each command denotes it.
pub fn install(store: &mut Store, manifest: &Manifest)
    ensures
        final(store)@ == installed(old(store)@, views(manifest.flows@)),
        forall|i: int|
            0 <= i < manifest.flows@.len() ==> argv_of_text(
                argv_text_of((#[trigger] manifest.flows@[i])@.cmd),
            ) == Some(manifest.flows@[i]@.cmd),
{
    let ghost all = views(manifest.flows@);
    let ghost start = store@;
    let mut i: usize = 0;
    assert(all.take(0) =~= Seq::<DeploymentV>::empty());
    while i < manifest.flows.len()
        invariant
            i <= manifest.flows@.len(),
            all == views(manifest.flows@),
            start == old(store)@,
            installed(start, all.take(i as int)) == store@,
            forall|j: int|
                0 <= j < i ==> argv_of_text(argv_text_of((#[trigger] manifest.flows@[j])@.cmd))
                    == Some(manifest.flows@[j]@.cmd),
        decreases manifest.flows@.len() - i,
    {
        proof {
            assert(all.take(i + 1).drop_last() =~= all.take(i as int));
            assert(all.take(i + 1).last() == all[i as int]);
        }
        store.upsert_deployment(&manifest.flows[i]);
        i = i + 1;
    }
    assert(all.take(all.len() as int) =~= all);
}

/// What `serve` says of the manifest.
pub fn loaded_line(n: usize, path: &str) -> (r: String)
    ensures
        r@ == "[serve] loaded "@ + decimal_of(n as int) + " flow(s) from "@ + path@,
{
    let mut s = "[serve] loaded ".to_string();
    s.append(decimal_u64(n as u64).as_str());
    s.append(" flow(s) from ");
    s.append(path);
    s
}

/// What `serve` says of the workflows that it recovered: nothing where there were
/// none.
pub fn recovered_line(n: usize) -> (r: Option<String>)
    ensures
        match r {
            Some(s) => n > 0 && s@ == "[serve] recovered "@ + decimal_of(n as int)
                + " interrupted workflow(s)"@,
            None => n == 0,
        },
{
    if n == 0 {
        return None;
    }
    let mut s = "[serve] recovered ".to_string();
    s.append(decimal_u64(n as u64).as_str());
    s.append(" interrupted workflow(s)");
    Some(s)
}

/// What `serve` says once it listens.
pub fn listening_line(addr: &str) -> (r: String)
    ensures
        r@ == "[serve] control plane on http://"@ + addr@,
{
    let mut s = "[serve] control plane on http://".to_string();
    s.append(addr);
    s
}

/// How often `serve --attach` asks whether its own server is up before it opens the
/// dashboard.
pub const READY_POLLS: u32 = 40;

/// What `serve` does before it opens its own dashboard.
#[derive(Clone, Copy, Debug, PartialEq, Eq, Structural)]
pub enum Ready {
    /// Open it: the daemon is up.
    Open,
    /// Wait, and ask again.
    Wait,
    /// Wait a last time, and open it all the same.
    GiveUp,
}

/// What `serve` does after it has asked so many times whether its daemon is up.
pub fn ready(polls: u32, up: bool) -> (r: Ready)
    ensures
        r == if up {
            Ready::Open
        } else if polls < READY_POLLS {
            Ready::Wait
        } else {
            Ready::GiveUp
        },
{
    if up {
        Ready::Open
    } else if polls < READY_POLLS {
        Ready::Wait
    } else {
        Ready::GiveUp
    }
}

} // verus!
