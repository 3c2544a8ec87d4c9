//! Laws on calls that change what they are given: what is different afterwards, and what is not.

use crate::commands::lifecycle;
use crate::commands::lifecycle::{Action, ActionText};
use crate::commands::profile;
use crate::commands::profile::{DefaultProfileRecord, NameError, PathChange};
use crate::commands::registry_commands;
use crate::commands::registry_commands::{RegisterError, UnregisterError};
use crate::laws::stopping;
use crate::manifest::Manifest;
use crate::process;
use crate::registry::Registry;
use crate::state::State;
use crate::text;
use crate::trust;
use crate::trust::{Consent, TrustError, TrustFile};
use vstd::prelude::*;

verus! {

/// A registration is found again as it was made, in place of what stood there, and no other
/// changes; one that is refused changes nothing.
pub proof fn registrations_are_found_again(
    registry: &mut Registry,
    kind: &str,
    name: &str,
    version: &str,
    path: Option<&str>,
    external: bool,
    port: Option<u16>,
    path_exists: bool,
    r: Result<String, RegisterError>,
    other: Seq<char>,
)
    requires
        call_ensures(
            registry_commands::register,
            (registry, kind, name, version, path, external, port, path_exists),
            r,
        ),
    ensures
        r is Err ==> *final(registry) == *old(registry),
        r is Ok ==> {
            &&& final(registry).entry(kind@, name@, version@) matches Some(e)
            &&& e.kind == kind@ && e.name == name@ && e.version == version@
            &&& e.external == external
            &&& external ==> e.port == port && port is Some && e.path is None
            &&& !external ==> e.port is None && path is Some && e.path == Some(path->0@)
        },
        r is Ok && other != kind@ + ":"@ + name@ + ":"@ + version@ ==> {
            &&& final(registry).entries@.contains_key(other) == old(registry).entries@.contains_key(other)
            &&& old(registry).entries@.contains_key(other) ==> final(registry).entries@[other]
                == old(registry).entries@[other]
        },
        r is Ok <==> registry_commands::register_fault(
            kind@,
            path is Some,
            external,
            port is Some,
            path_exists,
        ) is None,
{
    let key = kind@ + ":"@ + name@ + ":"@ + version@;
    let a = final(registry).entries@;
    let b = old(registry).entries@;
    if r is Ok && other != key {
        assert(a.remove(key).contains_key(other) == a.contains_key(other));
        assert(b.remove(key).contains_key(other) == b.contains_key(other));
        if b.contains_key(other) {
            assert(a.remove(key)[other] == a[other]);
            assert(b.remove(key)[other] == b[other]);
        }
    }
}

/// What is unregistered is gone, and nothing else is; what was not registered cannot be.
pub proof fn unregistered_things_are_gone(
    registry: &mut Registry,
    kind: &str,
    name: &str,
    version: &str,
    r: Result<String, UnregisterError>,
    other: Seq<char>,
)
    requires
        call_ensures(registry_commands::unregister, (registry, kind, name, version), r),
    ensures
        r is Err ==> final(registry).entries@ == old(registry).entries@,
        r is Ok ==> old(registry).entry(kind@, name@, version@) is Some && final(registry).entry(
            kind@,
            name@,
            version@,
        ) is None,
        other != kind@ + ":"@ + name@ + ":"@ + version@ ==> {
            &&& final(registry).entries@.contains_key(other) == old(registry).entries@.contains_key(other)
            &&& old(registry).entries@.contains_key(other) ==> final(registry).entries@[other]
                == old(registry).entries@[other]
        },
        (kind@ == "service"@ || kind@ == "tool"@ || kind@ == "language"@) && old(registry).entry(
            kind@,
            name@,
            version@,
        ) is Some ==> r is Ok,
{
}

/// Commands that have to be trusted run only with consent: given before for just these, given now,
/// or waived. Consent that is given is remembered for this directory and for no other; a refusal,
/// or a question, changes nothing.
pub proof fn nothing_runs_without_consent(
    trusted: &mut TrustFile,
    dir: &str,
    manifest: Manifest,
    auto_yes: bool,
    answer: Option<bool>,
    r: Result<Consent, TrustError>,
    other: Seq<char>,
)
    requires
        call_ensures(trust::ensure_trusted, (trusted, dir, &manifest, auto_yes, answer), r),
    ensures
        ({
            let risky = trust::risky_text(manifest);
            let standing = risky.len() == 0 || (old(trusted).approved@.contains_key(dir@) && old(trusted).approved@[dir@]@ == risky);
            &&& r is Ok <==> standing || auto_yes || answer == Some(true)
            &&& standing ==> *final(trusted) == *old(trusted)
            &&& r is Err ==> *final(trusted) == *old(trusted)
            &&& !standing && r is Ok ==> final(trusted).approved@.contains_key(dir@) && final(trusted).approved@[dir@]@ == risky
            &&& !standing && !auto_yes && answer is None ==> (r matches Err(TrustError::Ask(_)))
            &&& !standing && !auto_yes && answer == Some(false) ==> (r matches Err(
                TrustError::Refused,
            ))
            &&& other != dir@ ==> final(trusted).approved@.contains_key(other) == old(trusted).approved@.contains_key(other)
        }),
{
    let a = final(trusted).approved@;
    let b = old(trusted).approved@;
    if other != dir@ {
        assert(a.remove(dir@).contains_key(other) == a.contains_key(other));
        assert(b.remove(dir@).contains_key(other) == b.contains_key(other));
    }
}

/// A new default profile takes just the directories of the old one off the search path and puts its
/// own there; a name that a profile cannot have changes nothing.
pub proof fn default_profiles_replace_each_other(
    record: &mut DefaultProfileRecord,
    name: Option<&str>,
    dirs: Vec<String>,
    r: Result<PathChange, NameError>,
)
    requires
        call_ensures(profile::set_default_profile, (record, name, dirs), r),
    ensures
        r is Err ==> *final(record) == *old(record),
        r is Err <==> name is Some && profile::name_fault(name->0@) is Some,
        r matches Ok(change) ==> {
            &&& text::texts(change.remove@) == text::texts(old(record).injected_dirs@)
            &&& name is Some ==> text::texts(change.add@) == text::texts(dirs@) && final(record)@.name == Some(name->0@) && final(record)@.dirs == text::texts(dirs@)
            &&& name is None ==> change.add@.len() == 0 && final(record)@.name is None && final(record)@.dirs.len() == 0
        },
{
    if let Ok(change) = r {
        assert(text::texts(change.add@).len() == change.add@.len());
    }
}

/// Stopping everything takes out the route of every project and of every external run, stops every
/// process and forgets every run; nothing is tracked afterwards.
pub proof fn stopping_all_leaves_nothing(
    state: &mut State,
    r: Vec<Action>,
    i: int,
)
    requires
        call_ensures(lifecycle::down, (state, None::<&str>), r),
    ensures
        0 <= i < old(state).projects.pairs().len() ==> {
            let (name, entry) = old(state).projects.pairs()[i];
            &&& lifecycle::action_texts(r@).contains(ActionText::RemoveRoute { name })
            &&& lifecycle::action_texts(r@).contains(
                ActionText::StopProject { name, pid: entry.pid },
            )
        },
        0 <= i < old(state).services.pairs().len() ==> {
            let (key, entry) = old(state).services.pairs()[i];
            lifecycle::action_texts(r@).contains(ActionText::StopService { key, pid: entry.pid })
        },
        0 <= i < old(state).external_runs.pairs().len() ==> {
            let (name, entry) = old(state).external_runs.pairs()[i];
            &&& lifecycle::action_texts(r@).contains(ActionText::RemoveRoute { name })
            &&& lifecycle::action_texts(r@).contains(
                ActionText::ForgetRun { name, port: entry.port },
            )
        },
        final(state).is_empty(),
        final(state).caddy_pid is None,
{
    stopping::stopping_all_unroutes_and_stops_everything(
        *old(state),
        *final(state),
        lifecycle::action_texts(r@),
    );
}

/// Stopping a project by name takes out its route and stops its process, and leaves every other
/// project and every external run.
pub proof fn stopping_one_stops_just_it(
    state: &mut State,
    name: &str,
    r: Vec<Action>,
    other: Seq<char>,
)
    requires
        call_ensures(lifecycle::down, (state, Some(name)), r),
        old(state).projects@.contains_key(name@),
    ensures
        r@.len() >= 2,
        r@[0]@ == (ActionText::RemoveRoute { name: name@ }),
        r@[1]@ == (ActionText::StopProject { name: name@, pid: old(state).projects@[name@].pid }),
        !final(state).projects@.contains_key(name@),
        other != name@ ==> final(state).projects@.contains_key(other) == old(state).projects@.contains_key(other),
        final(state).external_runs@ == old(state).external_runs@,
        final(state).caddy_pid == old(state).caddy_pid,
{
    let actions = lifecycle::action_texts(r@);
    stopping::stopping_one_unroutes_and_stops_it(*old(state), name@, *final(state), actions);
    assert(actions.len() == r@.len());
    assert(actions[0] == r@[0]@ && actions[1] == r@[1]@);
}

/// An external run is recorded with its port and its domain, and nothing else changes.
pub proof fn external_runs_are_recorded(
    state: &mut State,
    name: &str,
    port: u16,
    domain: Option<String>,
    at: String,
    other: Seq<char>,
)
    requires
        call_ensures(process::record_external_run, (state, name, port, domain, at), ()),
    ensures
        final(state).external_runs@.contains_key(name@),
        final(state).external_runs@[name@].port == port,
        final(state).external_runs@[name@].domain == domain,
        other != name@ ==> final(state).external_runs@.contains_key(other) == old(state).external_runs@.contains_key(other),
        final(state).projects == old(state).projects,
        final(state).services == old(state).services,
        final(state).caddy_pid == old(state).caddy_pid,
{
}

} // verus!
