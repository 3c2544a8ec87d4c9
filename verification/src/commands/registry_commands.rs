//! Registering installations, listing what is installed, and finding what nothing refers to.

use crate::commands::services;
use crate::commands::startup;
use crate::location::JoinedPath;
use crate::manifest::{Language, Manifest};
use crate::ordered_map;
use crate::ordered_map::OrderedMap;
use crate::projects;
use crate::projects::{ProjectRecord, ProjectsFile};
use crate::registry;
use crate::registry::{Registry, RegistryEntry};
use crate::text;
use crate::toolchain;
use crate::toolchain::{Source, SourceText};
use vstd::prelude::*;

verus! {

/// The kinds of installations that can be registered.
pub open spec fn is_kind(kind: Seq<char>) -> bool {
    kind == "service"@ || kind == "tool"@ || kind == "language"@
}

/// Whether installations of a kind can be registered.
fn known_kind(kind: &str) -> (r: bool)
    ensures
        r == is_kind(kind@),
{
    text::same(kind, "service") || text::same(kind, "tool") || text::same(kind, "language")
}

/// Why an installation was not registered.
#[derive(Debug, PartialEq, Eq, Structural)]
pub enum RegisterError {
    /// There is no such kind.
    UnknownKind,
    /// Only a service can be external.
    ExternalKind,
    /// An external service has no path.
    PathAndExternal,
    /// An external service needs a port.
    NoPort,
    /// Nothing says where the installation is.
    NoPath,
    /// The path leads nowhere.
    Missing,
}

/// Why an installation is not registered, if it is not.
pub open spec fn register_fault(
    kind: Seq<char>,
    has_path: bool,
    external: bool,
    has_port: bool,
    path_exists: bool,
) -> Option<RegisterError> {
    if !is_kind(kind) {
        Some(RegisterError::UnknownKind)
    } else if external {
        if kind != "service"@ {
            Some(RegisterError::ExternalKind)
        } else if has_path {
            Some(RegisterError::PathAndExternal)
        } else if !has_port {
            Some(RegisterError::NoPort)
        } else {
            None
        }
    } else if !has_path {
        Some(RegisterError::NoPath)
    } else if !path_exists {
        Some(RegisterError::Missing)
    } else {
        None
    }
}

impl RegisterError {
    /// What is reported to the user. `path` is empty where none was given.
    pub fn message(&self, kind: &str, name: &str, version: &str, path: &str) -> (r: String)
        ensures
            r@ == match *self {
                RegisterError::UnknownKind => "unknown kind '"@ + kind@
                    + "' for stack register — supported: service, tool, language"@,
                RegisterError::ExternalKind => "--external only applies to `service` — `tool`/`language` registrations are always a BYO path"@,
                RegisterError::PathAndExternal => "can't set both a path and --external — pick one"@,
                RegisterError::NoPort => "--external requires --port"@,
                RegisterError::NoPath => "stack register "@ + kind@ + " "@ + name@ + " "@ + version@
                    + " <path> (or --external --port <port>, service only)"@,
                RegisterError::Missing => path@ + " does not exist"@,
            },
    {
        match self {
            RegisterError::UnknownKind => {
                let mut r = "unknown kind '".to_owned();
                r.append(kind);
                r.append("' for stack register — supported: service, tool, language");
                r
            },
            RegisterError::ExternalKind =>
                "--external only applies to `service` — `tool`/`language` registrations are always a BYO path".to_owned(),
            RegisterError::PathAndExternal =>
                "can't set both a path and --external — pick one".to_owned(),
            RegisterError::NoPort => "--external requires --port".to_owned(),
            RegisterError::NoPath => {
                let mut r = "stack register ".to_owned();
                r.append(kind);
                r.append(" ");
                r.append(name);
                r.append(" ");
                r.append(version);
                r.append(" <path> (or --external --port <port>, service only)");
                r
            },
            RegisterError::Missing => {
                let mut r = path.to_owned();
                r.append(" does not exist");
                r
            },
        }
    }
}

/// What a registration says of where the installation is.
pub open spec fn destination(path: Option<Seq<char>>, port: Option<u16>) -> Seq<char> {
    match path {
        Some(p) => p,
        None => "external, port "@ + (match port {
            Some(n) => text::decimal(n as nat),
            None => "?"@,
        }),
    }
}

/// What a registration says of where the installation is.
pub fn registry_entry_destination(entry: &RegistryEntry) -> (r: String)
    ensures
        r@ == destination(text::opt_text(entry.path), entry.port),
{
    match &entry.path {
        Some(p) => p.clone(),
        None => {
            let mut r = "external, port ".to_owned();
            match entry.port {
                Some(n) => {
                    r.append(text::decimal_text(n as u64).as_str());
                },
                None => {
                    r.append("?");
                },
            }
            r
        },
    }
}

/// Registers an installation: a path, or, for an external service, a port. What is shown is handed
/// back.
pub fn register(
    registry: &mut Registry,
    kind: &str,
    name: &str,
    version: &str,
    path: Option<&str>,
    external: bool,
    port: Option<u16>,
    path_exists: bool,
) -> (r: Result<String, RegisterError>)
    ensures
        ({
            let fault = register_fault(kind@, path is Some, external, port is Some, path_exists);
            match r {
                Err(e) => fault == Some(e) && *final(registry) == *old(registry),
                Ok(line) => {
                    &&& fault is None
                    &&& final(registry).entry(kind@, name@, version@) == Some(
                        (registry::Installation {
                            kind: kind@,
                            name: name@,
                            version: version@,
                            path: text::opt_str(path),
                            external,
                            port: if external {
                                port
                            } else {
                                None
                            },
                        }),
                    )
                    &&& final(registry).entries@.remove(
                        registry::entry_key(kind@, name@, version@),
                    ) == old(registry).entries@.remove(
                        registry::entry_key(kind@, name@, version@),
                    )
                    &&& line@ == "registered "@ + kind@ + " '"@ + name@ + "' @ "@ + version@
                        + " -> "@ + destination(text::opt_str(path), port)
                },
            }
        }),
{
    if !known_kind(kind) {
        return Err(RegisterError::UnknownKind);
    }
    let mut line = "registered ".to_owned();
    line.append(kind);
    line.append(" '");
    line.append(name);
    line.append("' @ ");
    line.append(version);
    line.append(" -> ");
    if external {
        if !text::same(kind, "service") {
            return Err(RegisterError::ExternalKind);
        }
        if path.is_some() {
            return Err(RegisterError::PathAndExternal);
        }
        match port {
            None => Err(RegisterError::NoPort),
            Some(port) => {
                registry.register_external(name, version, port);
                let mut shown = "external, port ".to_owned();
                shown.append(text::decimal_text(port as u64).as_str());
                line.append(shown.as_str());
                Ok(line)
            },
        }
    } else {
        match path {
            None => Err(RegisterError::NoPath),
            Some(path) => {
                if !path_exists {
                    return Err(RegisterError::Missing);
                }
                registry.register_path(kind, name, version, path);
                line.append(path);
                Ok(line)
            },
        }
    }
}

/// Why an installation was not taken out of the registry.
#[derive(Debug, PartialEq, Eq, Structural)]
pub enum UnregisterError {
    /// There is no such kind.
    UnknownKind,
    /// It is not registered.
    NotRegistered,
}

impl UnregisterError {
    /// What is reported to the user.
    pub fn message(&self, kind: &str, name: &str, version: &str) -> (r: String)
        ensures
            r@ == match *self {
                UnregisterError::UnknownKind => "unknown kind '"@ + kind@
                    + "' for stack unregister — supported: service, tool, language"@,
                UnregisterError::NotRegistered => "no registered "@ + kind@ + " '"@ + name@
                    + "' @ "@ + version@
                    + " — check `stack list` for the exact kind/name/version"@,
            },
    {
        match self {
            UnregisterError::UnknownKind => {
                let mut r = "unknown kind '".to_owned();
                r.append(kind);
                r.append("' for stack unregister — supported: service, tool, language");
                r
            },
            UnregisterError::NotRegistered => {
                let mut r = "no registered ".to_owned();
                r.append(kind);
                r.append(" '");
                r.append(name);
                r.append("' @ ");
                r.append(version);
                r.append(" — check `stack list` for the exact kind/name/version");
                r
            },
        }
    }
}

/// Takes an installation out of the registry. What is shown is handed back.
pub fn unregister(registry: &mut Registry, kind: &str, name: &str, version: &str) -> (r: Result<
    String,
    UnregisterError,
>)
    ensures
        match r {
            Err(UnregisterError::UnknownKind) => !is_kind(kind@) && *final(registry) == *old(
                registry,
            ),
            Err(UnregisterError::NotRegistered) => is_kind(kind@) && old(registry).entry(
                kind@,
                name@,
                version@,
            ) is None && final(registry).entries@ == old(registry).entries@,
            Ok(line) => {
                &&& is_kind(kind@)
                &&& old(registry).entry(kind@, name@, version@) matches Some(e) && line@
                    == "unregistered "@ + kind@ + " '"@ + name@ + "' @ "@ + version@ + " -> "@
                    + destination(e.path, e.port)
                &&& final(registry).entries@ == old(registry).entries@.remove(
                    registry::entry_key(kind@, name@, version@),
                )
            },
        },
{
    if !known_kind(kind) {
        return Err(UnregisterError::UnknownKind);
    }
    match registry.remove(kind, name, version) {
        None => {
            assert(final(registry).entries@ =~= old(registry).entries@);
            Err(UnregisterError::NotRegistered)
        },
        Some(removed) => {
            let mut line = "unregistered ".to_owned();
            line.append(kind);
            line.append(" '");
            line.append(name);
            line.append("' @ ");
            line.append(version);
            line.append(" -> ");
            line.append(registry_entry_destination(&removed).as_str());
            Ok(line)
        },
    }
}

/// Unregistering what was just registered gives the registry as it was before, but for what it had
/// under the same key.
pub proof fn unregistering_undoes_registering(
    before: Registry,
    registered: Registry,
    after: Registry,
    key: Seq<char>,
)
    requires
        registered.entries@.remove(key) == before.entries@.remove(key),
        after.entries@ == registered.entries@.remove(key),
    ensures
        !before.entries@.contains_key(key) ==> after.entries@ == before.entries@,
        !after.entries@.contains_key(key),
{
    if !before.entries@.contains_key(key) {
        assert(before.entries@.remove(key) =~= before.entries@);
    }
}

/// The installed version that a directory of vfox's cache stands for.
pub open spec fn cached_version(p: (Seq<char>, Seq<char>)) -> bool {
    text::has_prefix(p.1, "v-"@)
}

/// The versions that a list of plugins and directories of vfox's cache stands for.
pub open spec fn vfox_versions(s: Seq<(Seq<char>, Seq<char>)>) -> Seq<(Seq<char>, Seq<char>)>
    decreases s.len(),
{
    if s.len() == 0 {
        Seq::empty()
    } else {
        let front = vfox_versions(s.drop_last());
        if cached_version(s.last()) {
            front.push((s.last().0, text::without_prefix(s.last().1, "v-"@)))
        } else {
            front
        }
    }
}

/// What vfox has installed, by the plugins and directories of its cache: a directory whose name
/// begins with "v-" holds a version.
pub fn installed_vfox_languages(cache: &Vec<(String, String)>) -> (r: Vec<(String, String)>)
    ensures
        projects::pair_texts(r@) == vfox_versions(projects::pair_texts(cache@)),
{
    let ghost all = projects::pair_texts(cache@);
    let mut r: Vec<(String, String)> = Vec::new();
    let mut i: usize = 0;
    assert(projects::pair_texts(r@) =~= vfox_versions(all.take(0)));
    while i < cache.len()
        invariant
            i <= cache@.len(),
            all == projects::pair_texts(cache@),
            projects::pair_texts(r@) == vfox_versions(all.take(i as int)),
        decreases cache@.len() - i,
    {
        assert(all.take(i + 1).drop_last() =~= all.take(i as int));
        assert(all[i as int] == (cache@[i as int].0@, cache@[i as int].1@));
        if text::starts_with(cache[i].1.as_str(), "v-") {
            let ghost before = r@;
            let version = text::strip_prefix(cache[i].1.as_str(), "v-");
            let ghost added = (cache@[i as int].0@, version@);
            r.push((cache[i].0.clone(), version));
            assert(projects::pair_texts(r@) =~= projects::pair_texts(before).push(added));
        }
        i += 1;
    }
    assert(all.take(i as int) =~= all);
    r
}

/// What stands before the first white space.
pub open spec fn up_to_space(s: Seq<char>) -> Seq<char>
    decreases s.len(),
{
    if s.len() == 0 || text::Class::White.has(s[0]) {
        Seq::empty()
    } else {
        seq![s[0]] + up_to_space(s.skip(1))
    }
}

/// The first word of a line, if it has one.
pub open spec fn first_word(line: Seq<char>) -> Option<Seq<char>> {
    let rest = text::drop_leading(line, text::Class::White);
    if rest.len() == 0 {
        None
    } else {
        Some(up_to_space(rest))
    }
}

/// The first word of a line, if it has one.
fn word_of(line: &str) -> (r: Option<String>)
    ensures
        text::opt_text(r) == first_word(line@),
{
    let rest = text::trim_leading(line, text::Class::White);
    let v = text::chars_of(rest.as_str());
    if v.len() == 0 {
        return None;
    }
    let mut word = String::new();
    let mut i: usize = 0;
    assert(v@.skip(0) =~= v@);
    assert(word@ + up_to_space(v@) =~= up_to_space(v@));
    while i < v.len() && !text::Class::White.test(v[i])
        invariant
            i <= v@.len(),
            word@ + up_to_space(v@.skip(i as int)) == up_to_space(v@),
        decreases v@.len() - i,
    {
        let ghost before = word@;
        let ghost here = v@.skip(i as int);
        word.push(v[i]);
        proof {
            assert(here.skip(1) =~= v@.skip(i + 1));
            assert(before + (seq![v@[i as int]] + up_to_space(v@.skip(i + 1))) =~= word@
                + up_to_space(v@.skip(i + 1)));
        }
        i += 1;
    }
    proof {
        assert(up_to_space(v@.skip(i as int)) =~= Seq::empty());
        assert(word@ + Seq::<char>::empty() =~= word@);
    }
    Some(word)
}

/// The word is the first of some line.
pub open spec fn begins_a_line(lines: Seq<Seq<char>>, word: Seq<char>) -> bool {
    exists|i: int| #![trigger lines[i]] 0 <= i < lines.len() && first_word(lines[i]) == Some(word)
}

/// The Python versions that uv has installed, by its own listing: the first word of each line, in
/// ascending order, each once.
pub fn installed_uv_pythons(listing: &str) -> (r: Vec<String>)
    ensures
        ordered_map::ascending_texts(text::texts(r@)),
        forall|w: Seq<char>| #[trigger]
            text::texts(r@).contains(w) == begins_a_line(text::lines_of(listing@), w),
{
    let lines = text::lines(listing);
    let ghost all = text::lines_of(listing@);
    let mut found: OrderedMap<()> = OrderedMap::new();
    let mut i: usize = 0;
    while i < lines.len()
        invariant
            i <= lines@.len(),
            all == text::texts(lines@),
            forall|w: Seq<char>| #[trigger]
                found@.contains_key(w) == begins_a_line(all.take(i as int), w),
        decreases lines@.len() - i,
    {
        let ghost before = found@;
        let word = word_of(lines[i].as_str());
        let ghost said = text::opt_text(word);
        match word {
            Some(w) => {
                found.insert(w, ());
            },
            None => {},
        }
        proof {
            assert(all[i as int] == lines@[i as int]@);
            assert forall|w: Seq<char>| #[trigger]
                found@.contains_key(w) == begins_a_line(all.take(i + 1), w) by {
                let part = all.take(i as int);
                let whole = all.take(i + 1);
                if begins_a_line(part, w) {
                    let k = choose|k: int|
                        #![trigger part[k]]
                        0 <= k < part.len() && first_word(part[k]) == Some(w);
                    assert(whole[k] == part[k]);
                }
                if begins_a_line(whole, w) {
                    let k = choose|k: int|
                        #![trigger whole[k]]
                        0 <= k < whole.len() && first_word(whole[k]) == Some(w);
                    if k < i {
                        assert(part[k] == whole[k]);
                    }
                }
                assert(whole[i as int] == all[i as int]);
                assert(before.contains_key(w) == begins_a_line(part, w));
            }
        }
        i += 1;
    }
    assert(all.take(i as int) =~= all);
    let r = found.members();
    proof {
        assert forall|w: Seq<char>| #[trigger]
            text::texts(r@).contains(w) == begins_a_line(all, w) by {
            assert(found@.contains_key(w) == begins_a_line(all, w));
        }
    }
    r
}

/// What has become of a known project.
#[derive(Debug)]
pub enum ProjectFact {
    /// Its directory is gone.
    Gone,
    /// It is there, and its manifest can be read.
    Declares(Manifest),
    /// It is there, and its manifest cannot be read.
    Unreadable,
}

/// The SDKs of vfox that the languages of a manifest come from, by plugin.
pub open spec fn declared_sdks(s: Seq<(Seq<char>, Language)>, registry: Registry) -> Seq<
    (Seq<char>, Seq<char>),
>
    decreases s.len(),
{
    if s.len() == 0 {
        Seq::empty()
    } else {
        let front = declared_sdks(s.drop_last(), registry);
        match toolchain::source_of(s.last().0, s.last().1, registry, ""@) {
            Ok(SourceText::Vfox { plugin, version, .. }) => front.push((plugin, version)),
            _ => front,
        }
    }
}

/// The Python versions of uv that the languages of a manifest come from, whatever the languages
/// are called.
pub open spec fn declared_pythons(s: Seq<(Seq<char>, Language)>, registry: Registry) -> Seq<
    Seq<char>,
>
    decreases s.len(),
{
    if s.len() == 0 {
        Seq::empty()
    } else {
        let front = declared_pythons(s.drop_last(), registry);
        match toolchain::source_of(s.last().0, s.last().1, registry, ""@) {
            Ok(SourceText::Uv { version }) => front.push(version),
            _ => front,
        }
    }
}

/// The SDKs of vfox that recorded languages come from by default.
pub open spec fn recorded_sdks(s: Seq<(Seq<char>, Seq<char>)>) -> Seq<(Seq<char>, Seq<char>)> {
    s.map_values(|p: (Seq<char>, Seq<char>)| (toolchain::plugin_named(p.0), p.1))
}

/// The SDKs of vfox that a project's languages come from.
pub open spec fn project_sdks(
    record: ProjectRecord,
    fact: ProjectFact,
    registry: Registry,
) -> Seq<(Seq<char>, Seq<char>)> {
    match fact {
        ProjectFact::Gone => Seq::empty(),
        ProjectFact::Declares(m) => declared_sdks(m.language.pairs(), registry),
        ProjectFact::Unreadable => recorded_sdks(projects::pair_texts(record.languages@)),
    }
}

/// The Python versions of uv that a project's languages come from, as its manifest says.
pub open spec fn project_pythons(fact: ProjectFact, registry: Registry) -> Seq<Seq<char>> {
    match fact {
        ProjectFact::Declares(m) => declared_pythons(m.language.pairs(), registry),
        _ => Seq::empty(),
    }
}

/// The languages that a project names: those of its manifest, else those that were recorded.
pub open spec fn project_languages(record: ProjectRecord, fact: ProjectFact) -> Seq<
    (Seq<char>, Seq<char>),
> {
    match fact {
        ProjectFact::Gone => Seq::empty(),
        ProjectFact::Declares(m) => startup::language_versions(m.language.pairs()),
        ProjectFact::Unreadable => projects::pair_texts(record.languages@),
    }
}

/// The services that a project refers to: those of its manifest, else those that were recorded.
pub open spec fn project_services(record: ProjectRecord, fact: ProjectFact) -> Seq<
    (Seq<char>, Seq<char>),
> {
    match fact {
        ProjectFact::Gone => Seq::empty(),
        ProjectFact::Declares(m) => startup::service_versions(m.service.pairs()),
        ProjectFact::Unreadable => projects::pair_texts(record.services@),
    }
}

/// The SDKs of vfox that the projects' languages come from, one project after the other.
pub open spec fn referenced_sdks(
    pairs: Seq<(Seq<char>, ProjectRecord)>,
    facts: Seq<ProjectFact>,
    registry: Registry,
) -> Seq<(Seq<char>, Seq<char>)>
    decreases pairs.len(),
{
    if pairs.len() == 0 {
        Seq::empty()
    } else {
        referenced_sdks(pairs.drop_last(), facts, registry) + project_sdks(
            pairs.last().1,
            facts[pairs.len() - 1],
            registry,
        )
    }
}

/// The Python versions of uv that the projects' languages come from, one project after the other.
pub open spec fn referenced_pythons(
    pairs: Seq<(Seq<char>, ProjectRecord)>,
    facts: Seq<ProjectFact>,
    registry: Registry,
) -> Seq<Seq<char>>
    decreases pairs.len(),
{
    if pairs.len() == 0 {
        Seq::empty()
    } else {
        referenced_pythons(pairs.drop_last(), facts, registry) + project_pythons(
            facts[pairs.len() - 1],
            registry,
        )
    }
}

/// The languages that the projects name, one project after the other.
pub open spec fn referenced_languages(
    pairs: Seq<(Seq<char>, ProjectRecord)>,
    facts: Seq<ProjectFact>,
) -> Seq<(Seq<char>, Seq<char>)>
    decreases pairs.len(),
{
    if pairs.len() == 0 {
        Seq::empty()
    } else {
        referenced_languages(pairs.drop_last(), facts) + project_languages(
            pairs.last().1,
            facts[pairs.len() - 1],
        )
    }
}

/// The services that the projects refer to, one project after the other.
pub open spec fn referenced_services(
    pairs: Seq<(Seq<char>, ProjectRecord)>,
    facts: Seq<ProjectFact>,
) -> Seq<(Seq<char>, Seq<char>)>
    decreases pairs.len(),
{
    if pairs.len() == 0 {
        Seq::empty()
    } else {
        referenced_services(pairs.drop_last(), facts) + project_services(
            pairs.last().1,
            facts[pairs.len() - 1],
        )
    }
}

/// A list of pairs, each copied.
fn copy_pairs(list: &Vec<(String, String)>) -> (r: Vec<(String, String)>)
    ensures
        projects::pair_texts(r@) == projects::pair_texts(list@),
{
    let ghost all = projects::pair_texts(list@);
    let mut r: Vec<(String, String)> = Vec::new();
    let mut i: usize = 0;
    while i < list.len()
        invariant
            i <= list@.len(),
            all == projects::pair_texts(list@),
            projects::pair_texts(r@) == all.take(i as int),
        decreases list@.len() - i,
    {
        let ghost before = r@;
        r.push((list[i].0.clone(), list[i].1.clone()));
        assert(projects::pair_texts(r@) =~= projects::pair_texts(before).push(all[i as int]));
        assert(all.take(i + 1) =~= all.take(i as int).push(all[i as int]));
        i += 1;
    }
    assert(all.take(i as int) =~= all);
    r
}

/// What is referred to by some project.
#[derive(Debug)]
pub struct References {
    /// The languages that are named, with their versions.
    pub languages: Vec<(String, String)>,
    /// The SDKs of vfox that they come from, by plugin.
    pub sdks: Vec<(String, String)>,
    /// The Python versions of uv that they come from.
    pub pythons: Vec<String>,
    pub services: Vec<(String, String)>,
}

/// The SDKs of vfox and the Python versions of uv that the languages of a manifest come from.
fn manifest_sdks(manifest: &Manifest, registry: &Registry) -> (r: (
    Vec<(String, String)>,
    Vec<String>,
))
    ensures
        projects::pair_texts(r.0@) == declared_sdks(manifest.language.pairs(), *registry),
        text::texts(r.1@) == declared_pythons(manifest.language.pairs(), *registry),
{
    let ghost declared = manifest.language.pairs();
    let n: usize = manifest.language.len();
    let mut sdks: Vec<(String, String)> = Vec::new();
    let mut pythons: Vec<String> = Vec::new();
    let mut i: usize = 0;
    assert(projects::pair_texts(sdks@) =~= declared_sdks(declared.take(0), *registry));
    assert(text::texts(pythons@) =~= declared_pythons(declared.take(0), *registry));
    while i < n
        invariant
            i <= n,
            n == declared.len(),
            declared == manifest.language.pairs(),
            projects::pair_texts(sdks@) == declared_sdks(declared.take(i as int), *registry),
            text::texts(pythons@) == declared_pythons(declared.take(i as int), *registry),
        decreases n - i,
    {
        assert(declared.take(i + 1).drop_last() =~= declared.take(i as int));
        let name = manifest.language.key_at(i);
        let entry = manifest.language.value_at(i);
        match toolchain::resolve(name.as_str(), entry, registry, "") {
            Ok(Source::Vfox { plugin, version, .. }) => {
                let ghost before = sdks@;
                let ghost added = (plugin@, version@);
                sdks.push((plugin, version));
                assert(projects::pair_texts(sdks@) =~= projects::pair_texts(before).push(added));
            },
            Ok(Source::Uv { version }) => {
                let ghost before = pythons@;
                let ghost added = version@;
                pythons.push(version);
                assert(text::texts(pythons@) =~= text::texts(before).push(added));
            },
            _ => {},
        }
        i += 1;
    }
    assert(declared.take(i as int) =~= declared);
    (sdks, pythons)
}

/// The SDKs of vfox that recorded languages come from by default.
fn default_sdks(list: &Vec<(String, String)>) -> (r: Vec<(String, String)>)
    ensures
        projects::pair_texts(r@) == recorded_sdks(projects::pair_texts(list@)),
{
    let ghost all = recorded_sdks(projects::pair_texts(list@));
    let mut r: Vec<(String, String)> = Vec::new();
    let mut i: usize = 0;
    while i < list.len()
        invariant
            i <= list@.len(),
            all == recorded_sdks(projects::pair_texts(list@)),
            projects::pair_texts(r@) == all.take(i as int),
        decreases list@.len() - i,
    {
        let ghost before = r@;
        r.push((toolchain::default_plugin(list[i].0.as_str()), list[i].1.clone()));
        assert(projects::pair_texts(list@)[i as int] == (list@[i as int].0@, list@[i as int].1@));
        assert(projects::pair_texts(r@) =~= projects::pair_texts(before).push(all[i as int]));
        assert(all.take(i + 1) =~= all.take(i as int).push(all[i as int]));
        i += 1;
    }
    assert(all.take(i as int) =~= all);
    r
}

/// What the known projects refer to, given what has become of each, in key order.
pub fn references(known: &ProjectsFile, facts: &Vec<ProjectFact>, registry: &Registry) -> (r:
    References)
    requires
        facts@.len() == known.projects.pairs().len(),
    ensures
        projects::pair_texts(r.languages@) == referenced_languages(
            known.projects.pairs(),
            facts@,
        ),
        projects::pair_texts(r.sdks@) == referenced_sdks(
            known.projects.pairs(),
            facts@,
            *registry,
        ),
        text::texts(r.pythons@) == referenced_pythons(known.projects.pairs(), facts@, *registry),
        projects::pair_texts(r.services@) == referenced_services(known.projects.pairs(), facts@),
{
    let ghost pairs = known.projects.pairs();
    let n: usize = known.projects.len();
    let mut languages: Vec<(String, String)> = Vec::new();
    let mut sdks: Vec<(String, String)> = Vec::new();
    let mut pythons: Vec<String> = Vec::new();
    let mut services: Vec<(String, String)> = Vec::new();
    let mut i: usize = 0;
    assert(projects::pair_texts(languages@) =~= referenced_languages(pairs.take(0), facts@));
    assert(projects::pair_texts(sdks@) =~= referenced_sdks(pairs.take(0), facts@, *registry));
    assert(text::texts(pythons@) =~= referenced_pythons(pairs.take(0), facts@, *registry));
    assert(projects::pair_texts(services@) =~= referenced_services(pairs.take(0), facts@));
    while i < n
        invariant
            i <= n,
            n == pairs.len(),
            n == facts@.len(),
            pairs == known.projects.pairs(),
            projects::pair_texts(languages@) == referenced_languages(pairs.take(i as int), facts@),
            projects::pair_texts(sdks@) == referenced_sdks(
                pairs.take(i as int),
                facts@,
                *registry,
            ),
            text::texts(pythons@) == referenced_pythons(pairs.take(i as int), facts@, *registry),
            projects::pair_texts(services@) == referenced_services(pairs.take(i as int), facts@),
        decreases n - i,
    {
        let record = known.projects.value_at(i);
        let (mut more, mut held, mut held_pythons) = match &facts[i] {
            ProjectFact::Gone => (ProjectRecord::default(), Vec::new(), Vec::new()),
            ProjectFact::Declares(manifest) => {
                let (held, held_pythons) = manifest_sdks(manifest, registry);
                (startup::project_record(manifest), held, held_pythons)
            },
            ProjectFact::Unreadable => (
                ProjectRecord {
                    languages: copy_pairs(&record.languages),
                    services: copy_pairs(&record.services),
                },
                default_sdks(&record.languages),
                Vec::new(),
            ),
        };
        let ghost l0 = languages@;
        let ghost d0 = sdks@;
        let ghost p0 = pythons@;
        let ghost s0 = services@;
        let ghost l1 = more.languages@;
        let ghost d1 = held@;
        let ghost p1 = held_pythons@;
        let ghost s1 = more.services@;
        proof {
            assert(pairs.take(i + 1).drop_last() =~= pairs.take(i as int));
            assert(pairs.take(i + 1).last() == pairs[i as int]);
            assert(projects::pair_texts(l1) =~= project_languages(*record, facts@[i as int]));
            assert(projects::pair_texts(d1) =~= project_sdks(
                *record,
                facts@[i as int],
                *registry,
            ));
            assert(text::texts(p1) =~= project_pythons(facts@[i as int], *registry));
            assert(projects::pair_texts(s1) =~= project_services(*record, facts@[i as int]));
        }
        languages.append(&mut more.languages);
        sdks.append(&mut held);
        pythons.append(&mut held_pythons);
        services.append(&mut more.services);
        assert(projects::pair_texts(languages@) =~= projects::pair_texts(l0)
            + projects::pair_texts(l1));
        assert(projects::pair_texts(sdks@) =~= projects::pair_texts(d0)
            + projects::pair_texts(d1));
        assert(text::texts(pythons@) =~= text::texts(p0) + text::texts(p1));
        assert(projects::pair_texts(services@) =~= projects::pair_texts(s0)
            + projects::pair_texts(s1));
        i += 1;
    }
    assert(pairs.take(i as int) =~= pairs);
    References { languages, sdks, pythons, services }
}

/// Whether a list holds a name with a version.
fn has_pair(list: &Vec<(String, String)>, name: &str, version: &str) -> (r: bool)
    ensures
        r == projects::pair_texts(list@).contains((name@, version@)),
{
    let ghost all = projects::pair_texts(list@);
    let mut i: usize = 0;
    while i < list.len()
        invariant
            i <= list@.len(),
            all == projects::pair_texts(list@),
            forall|j: int| 0 <= j < i ==> #[trigger] all[j] != (name@, version@),
        decreases list@.len() - i,
    {
        if text::same(list[i].0.as_str(), name) && text::same(list[i].1.as_str(), version) {
            assert(all[i as int] == (name@, version@));
            return true;
        }
        i += 1;
    }
    false
}

/// The versions that vfox has installed and no project refers to.
pub open spec fn orphaned_pairs(
    installed: Seq<(Seq<char>, Seq<char>)>,
    referenced: Seq<(Seq<char>, Seq<char>)>,
) -> Seq<(Seq<char>, Seq<char>)> {
    installed.filter(|p: (Seq<char>, Seq<char>)| !referenced.contains(p))
}

/// The SDKs of vfox that the projects refer to: by the name of a language, and by the plugin that
/// the language comes from.
pub open spec fn vfox_references(
    pairs: Seq<(Seq<char>, ProjectRecord)>,
    facts: Seq<ProjectFact>,
    registry: Registry,
) -> Seq<(Seq<char>, Seq<char>)> {
    referenced_languages(pairs, facts) + referenced_sdks(pairs, facts, registry)
}

/// The Python versions that uv has installed and no project refers to, neither as its Python nor
/// as what another language comes from.
pub open spec fn orphaned_pythons(
    installed: Seq<Seq<char>>,
    languages: Seq<(Seq<char>, Seq<char>)>,
    pythons: Seq<Seq<char>>,
) -> Seq<Seq<char>> {
    installed.filter(|v: Seq<char>| !languages.contains(("python"@, v)) && !pythons.contains(v))
}

/// The registered services that no project refers to.
pub open spec fn orphaned_services(
    entries: Seq<(Seq<char>, RegistryEntry)>,
    referenced: Seq<(Seq<char>, Seq<char>)>,
) -> Seq<(Seq<char>, RegistryEntry)> {
    entries.filter(|p: (Seq<char>, RegistryEntry)| is_orphan(p.1, referenced))
}

/// The registration is of a service that no project refers to.
pub open spec fn is_orphan(entry: RegistryEntry, referenced: Seq<(Seq<char>, Seq<char>)>) -> bool {
    entry.kind@ == "service"@ && !referenced.contains((entry.name@, entry.version@))
}

/// The name, the version and the place of each registration.
pub open spec fn registrations(s: Seq<(Seq<char>, RegistryEntry)>) -> Seq<
    (Seq<char>, Seq<char>, Seq<char>),
> {
    s.map_values(
        |p: (Seq<char>, RegistryEntry)|
            (p.1.name@, p.1.version@, destination(text::opt_text(p.1.path), p.1.port)),
    )
}

/// A registered service that no project refers to.
#[derive(Debug)]
pub struct OrphanService {
    pub name: String,
    pub version: String,
    pub destination: String,
}

/// The name, the version and the place of each of a list of services.
pub open spec fn orphan_texts(s: Seq<OrphanService>) -> Seq<(Seq<char>, Seq<char>, Seq<char>)> {
    s.map_values(|o: OrphanService| (o.name@, o.version@, o.destination@))
}

/// The versions that vfox has installed and no project refers to.
fn find_orphan_pairs(installed: &Vec<(String, String)>, referenced: &Vec<(String, String)>) -> (r:
    Vec<(String, String)>)
    ensures
        projects::pair_texts(r@) == orphaned_pairs(
            projects::pair_texts(installed@),
            projects::pair_texts(referenced@),
        ),
{
    let ghost all = projects::pair_texts(installed@);
    let ghost refs = projects::pair_texts(referenced@);
    let mut r: Vec<(String, String)> = Vec::new();
    let mut i: usize = 0;
    proof {
        reveal(Seq::filter);
        assert(projects::pair_texts(r@) =~= orphaned_pairs(all.take(0), refs));
    }
    while i < installed.len()
        invariant
            i <= installed@.len(),
            all == projects::pair_texts(installed@),
            refs == projects::pair_texts(referenced@),
            projects::pair_texts(r@) == orphaned_pairs(all.take(i as int), refs),
        decreases installed@.len() - i,
    {
        proof {
            reveal(Seq::filter);
            assert(all.take(i + 1).drop_last() =~= all.take(i as int));
            assert(all[i as int] == (installed@[i as int].0@, installed@[i as int].1@));
        }
        if !has_pair(referenced, installed[i].0.as_str(), installed[i].1.as_str()) {
            let ghost before = r@;
            r.push((installed[i].0.clone(), installed[i].1.clone()));
            assert(projects::pair_texts(r@) =~= projects::pair_texts(before).push(all[i as int]));
        }
        i += 1;
    }
    assert(all.take(i as int) =~= all);
    r
}

/// The Python versions that uv has installed and no project refers to.
fn find_orphan_pythons(
    installed: &Vec<String>,
    languages: &Vec<(String, String)>,
    pythons: &Vec<String>,
) -> (r: Vec<String>)
    ensures
        text::texts(r@) == orphaned_pythons(
            text::texts(installed@),
            projects::pair_texts(languages@),
            text::texts(pythons@),
        ),
{
    let ghost all = text::texts(installed@);
    let ghost named = projects::pair_texts(languages@);
    let ghost held = text::texts(pythons@);
    let mut r: Vec<String> = Vec::new();
    let mut i: usize = 0;
    proof {
        reveal(Seq::filter);
        assert(text::texts(r@) =~= orphaned_pythons(all.take(0), named, held));
    }
    while i < installed.len()
        invariant
            i <= installed@.len(),
            all == text::texts(installed@),
            named == projects::pair_texts(languages@),
            held == text::texts(pythons@),
            text::texts(r@) == orphaned_pythons(all.take(i as int), named, held),
        decreases installed@.len() - i,
    {
        proof {
            reveal(Seq::filter);
            assert(all.take(i + 1).drop_last() =~= all.take(i as int));
            assert(all[i as int] == installed@[i as int]@);
        }
        if !has_pair(languages, "python", installed[i].as_str()) && !text::is_among(
            pythons,
            installed[i].as_str(),
        ) {
            let ghost before = r@;
            r.push(installed[i].clone());
            assert(text::texts(r@) =~= text::texts(before).push(all[i as int]));
        }
        i += 1;
    }
    assert(all.take(i as int) =~= all);
    r
}

/// The registered services that no project refers to.
fn find_orphan_services(registry: &Registry, referenced: &Vec<(String, String)>) -> (r: Vec<
    OrphanService,
>)
    ensures
        orphan_texts(r@) == registrations(
            orphaned_services(registry.entries.pairs(), projects::pair_texts(referenced@)),
        ),
{
    let ghost all = registry.entries.pairs();
    let ghost refs = projects::pair_texts(referenced@);
    let n: usize = registry.entries.len();
    let mut r: Vec<OrphanService> = Vec::new();
    let mut i: usize = 0;
    proof {
        reveal(Seq::filter);
        assert(orphan_texts(r@) =~= registrations(orphaned_services(all.take(0), refs)));
    }
    while i < n
        invariant
            i <= n,
            n == all.len(),
            all == registry.entries.pairs(),
            refs == projects::pair_texts(referenced@),
            orphan_texts(r@) == registrations(orphaned_services(all.take(i as int), refs)),
        decreases n - i,
    {
        proof {
            reveal(Seq::filter);
            assert(all.take(i + 1).drop_last() =~= all.take(i as int));
        }
        let entry = registry.entries.value_at(i);
        if text::same(entry.kind.as_str(), "service") && !has_pair(
            referenced,
            entry.name.as_str(),
            entry.version.as_str(),
        ) {
            let ghost before = r@;
            let ghost kept = orphaned_services(all.take(i as int), refs);
            r.push(
                OrphanService {
                    name: entry.name.clone(),
                    version: entry.version.clone(),
                    destination: registry_entry_destination(entry),
                },
            );
            proof {
                let added = (
                    entry.name@,
                    entry.version@,
                    destination(text::opt_text(entry.path), entry.port),
                );
                assert(orphan_texts(r@) =~= orphan_texts(before).push(added));
                assert(orphaned_services(all.take(i + 1), refs) =~= kept.push(all[i as int]));
                assert(registrations(kept.push(all[i as int])) =~= registrations(kept).push(
                    added,
                ));
            }
        }
        i += 1;
    }
    assert(all.take(i as int) =~= all);
    r
}

/// What `prune` finds.
#[derive(Debug)]
pub struct Prune {
    /// The directories of the projects that are gone.
    pub dropped: Vec<String>,
    pub vfox: Vec<(String, String)>,
    pub uv: Vec<String>,
    pub services: Vec<OrphanService>,
}

/// Whether each project is still there.
pub open spec fn still_there(facts: Seq<ProjectFact>) -> Seq<bool> {
    facts.map_values(|f: ProjectFact| !(f is Gone))
}

/// Forgets the projects that are gone, and finds what no other project refers to: a language that
/// vfox or uv has installed, and a registered service. Nothing else is changed.
pub fn prune(
    known: &mut ProjectsFile,
    facts: &Vec<ProjectFact>,
    installed_vfox: &Vec<(String, String)>,
    installed_uv: &Vec<String>,
    registry: &Registry,
) -> (r: Prune)
    requires
        facts@.len() == old(known).projects.pairs().len(),
    ensures
        final(known).projects.pairs() == ordered_map::flagged(
            old(known).projects.pairs(),
            still_there(facts@),
        ),
        text::texts(r.dropped@) == ordered_map::keys(
            ordered_map::unflagged(old(known).projects.pairs(), still_there(facts@)),
        ),
        projects::pair_texts(r.vfox@) == orphaned_pairs(
            projects::pair_texts(installed_vfox@),
            vfox_references(old(known).projects.pairs(), facts@, *registry),
        ),
        text::texts(r.uv@) == orphaned_pythons(
            text::texts(installed_uv@),
            referenced_languages(old(known).projects.pairs(), facts@),
            referenced_pythons(old(known).projects.pairs(), facts@, *registry),
        ),
        orphan_texts(r.services@) == registrations(
            orphaned_services(
                registry.entries.pairs(),
                referenced_services(old(known).projects.pairs(), facts@),
            ),
        ),
{
    let refs = references(known, facts, registry);
    let mut held = copy_pairs(&refs.languages);
    let mut sdks = copy_pairs(&refs.sdks);
    let ghost named = held@;
    let ghost by_plugin = sdks@;
    held.append(&mut sdks);
    assert(projects::pair_texts(held@) =~= projects::pair_texts(named) + projects::pair_texts(
        by_plugin,
    ));
    let mut keep: Vec<bool> = Vec::new();
    let mut i: usize = 0;
    while i < facts.len()
        invariant
            i <= facts@.len(),
            keep@ == still_there(facts@).take(i as int),
        decreases facts@.len() - i,
    {
        let there = match &facts[i] {
            ProjectFact::Gone => false,
            _ => true,
        };
        keep.push(there);
        assert(keep@ =~= still_there(facts@).take(i + 1));
        i += 1;
    }
    assert(keep@ =~= still_there(facts@));
    let gone = known.projects.retain_flagged(&keep);
    let ghost left = ordered_map::unflagged(old(known).projects.pairs(), keep@);
    let ghost f = |e: (String, ProjectRecord)| (e.0@, e.1);
    assert(left == gone@.map_values(f));
    let mut dropped: Vec<String> = Vec::new();
    let mut k: usize = 0;
    assert(text::texts(dropped@) =~= ordered_map::keys(left).take(0));
    while k < gone.len()
        invariant
            k <= gone@.len(),
            f == (|e: (String, ProjectRecord)| (e.0@, e.1)),
            left == gone@.map_values(f),
            text::texts(dropped@) == ordered_map::keys(left).take(k as int),
        decreases gone@.len() - k,
    {
        let ghost before = dropped@;
        dropped.push(gone[k].0.clone());
        assert(left[k as int] == f(gone@[k as int]));
        assert(text::texts(dropped@) =~= text::texts(before).push(gone@[k as int].0@));
        assert(ordered_map::keys(left).take(k + 1) =~= ordered_map::keys(left).take(k as int).push(
            gone@[k as int].0@,
        ));
        k += 1;
    }
    assert(ordered_map::keys(left).take(k as int) =~= ordered_map::keys(left));
    Prune {
        dropped,
        vfox: find_orphan_pairs(installed_vfox, &held),
        uv: find_orphan_pythons(installed_uv, &refs.languages, &refs.pythons),
        services: find_orphan_services(registry, &refs.services),
    }
}

/// The names and versions of a list of services.
pub open spec fn orphan_keys(s: Seq<OrphanService>) -> Seq<(Seq<char>, Seq<char>)> {
    s.map_values(|o: OrphanService| (o.name@, o.version@))
}

/// Whether each registration stays when these services go.
pub open spec fn staying(
    entries: Seq<(Seq<char>, RegistryEntry)>,
    gone: Seq<(Seq<char>, Seq<char>)>,
) -> Seq<bool> {
    entries.map_values(
        |p: (Seq<char>, RegistryEntry)|
            p.1.kind@ != "service"@ || !gone.contains((p.1.name@, p.1.version@)),
    )
}

/// Takes services out of the registry that no project refers to. Every other registration stays.
pub fn drop_orphans(registry: &mut Registry, orphans: &Vec<OrphanService>)
    ensures
        final(registry).entries.pairs() == ordered_map::flagged(
            old(registry).entries.pairs(),
            staying(old(registry).entries.pairs(), orphan_keys(orphans@)),
        ),
{
    let ghost all = registry.entries.pairs();
    let ghost gone = orphan_keys(orphans@);
    let mut keys: Vec<(String, String)> = Vec::new();
    let mut i: usize = 0;
    assert(projects::pair_texts(keys@) =~= gone.take(0));
    while i < orphans.len()
        invariant
            i <= orphans@.len(),
            gone == orphan_keys(orphans@),
            projects::pair_texts(keys@) == gone.take(i as int),
        decreases orphans@.len() - i,
    {
        let ghost before = keys@;
        keys.push((orphans[i].name.clone(), orphans[i].version.clone()));
        assert(projects::pair_texts(keys@) =~= projects::pair_texts(before).push(gone[i as int]));
        assert(gone.take(i + 1) =~= gone.take(i as int).push(gone[i as int]));
        i += 1;
    }
    assert(gone.take(i as int) =~= gone);
    let mut keep: Vec<bool> = Vec::new();
    let n: usize = registry.entries.len();
    let mut k: usize = 0;
    while k < n
        invariant
            k <= n,
            n == all.len(),
            all == registry.entries.pairs(),
            *registry == *old(registry),
            projects::pair_texts(keys@) == gone,
            keep@ == staying(all, gone).take(k as int),
        decreases n - k,
    {
        let entry = registry.entries.value_at(k);
        keep.push(
            !text::same(entry.kind.as_str(), "service") || !has_pair(
                &keys,
                entry.name.as_str(),
                entry.version.as_str(),
            ),
        );
        assert(keep@ =~= staying(all, gone).take(k + 1));
        k += 1;
    }
    assert(keep@ =~= staying(all, gone));
    let _ = registry.entries.retain_flagged(&keep);
}

/// What a list refers to is never found orphaned.
pub proof fn referenced_is_never_orphaned(
    installed: Seq<(Seq<char>, Seq<char>)>,
    uv: Seq<Seq<char>>,
    entries: Seq<(Seq<char>, RegistryEntry)>,
    sdks: Seq<(Seq<char>, Seq<char>)>,
    languages: Seq<(Seq<char>, Seq<char>)>,
    pythons: Seq<Seq<char>>,
    services: Seq<(Seq<char>, Seq<char>)>,
    name: Seq<char>,
    version: Seq<char>,
)
    ensures
        sdks.contains((name, version)) ==> !orphaned_pairs(installed, sdks).contains(
            (name, version),
        ),
        languages.contains(("python"@, version)) || pythons.contains(version)
            ==> !orphaned_pythons(uv, languages, pythons).contains(version),
        services.contains((name, version)) ==> forall|i: int|
            0 <= i < orphaned_services(entries, services).len() ==> {
                let e = (#[trigger] orphaned_services(entries, services)[i]).1;
                !(e.name@ == name && e.version@ == version)
            },
{
    let p = |q: (Seq<char>, Seq<char>)| !sdks.contains(q);
    let found = orphaned_pairs(installed, sdks);
    if found.contains((name, version)) {
        let i = choose|i: int| 0 <= i < found.len() && found[i] == (name, version);
        installed.lemma_filter_pred(p, i);
    }
    let q = |v: Seq<char>| !languages.contains(("python"@, v)) && !pythons.contains(v);
    let left = orphaned_pythons(uv, languages, pythons);
    if left.contains(version) {
        let i = choose|i: int| 0 <= i < left.len() && left[i] == version;
        uv.lemma_filter_pred(q, i);
    }
    let s = |e: (Seq<char>, RegistryEntry)| is_orphan(e.1, services);
    let out = orphaned_services(entries, services);
    assert forall|i: int| 0 <= i < out.len() && services.contains((name, version)) implies {
        let e = (#[trigger] out[i]).1;
        !(e.name@ == name && e.version@ == version)
    } by {
        entries.lemma_filter_pred(s, i);
    }
}

/// What a known project uses is never found orphaned: for every language that its manifest
/// declares, neither the SDK of vfox nor the Python of uv that the language comes from, however
/// the language is called.
pub proof fn sdks_in_use_are_never_orphaned(
    pairs: Seq<(Seq<char>, ProjectRecord)>,
    facts: Seq<ProjectFact>,
    registry: Registry,
    i: int,
    j: int,
    exe_suffix: Seq<char>,
    installed: Seq<(Seq<char>, Seq<char>)>,
    uv: Seq<Seq<char>>,
)
    requires
        0 <= i < pairs.len(),
        pairs.len() == facts.len(),
        facts[i] is Declares,
        0 <= j < facts[i]->Declares_0.language.pairs().len(),
    ensures
        ({
            let (name, entry) = facts[i]->Declares_0.language.pairs()[j];
            match toolchain::source_of(name, entry, registry, exe_suffix) {
                Ok(SourceText::Vfox { plugin, version, .. }) => !orphaned_pairs(
                    installed,
                    vfox_references(pairs, facts, registry),
                ).contains((plugin, version)),
                Ok(SourceText::Uv { version }) => !orphaned_pythons(
                    uv,
                    referenced_languages(pairs, facts),
                    referenced_pythons(pairs, facts, registry),
                ).contains(version),
                _ => true,
            }
        }),
{
    let declared = facts[i]->Declares_0.language.pairs();
    let (name, entry) = declared[j];
    let named = referenced_languages(pairs, facts);
    let sdks = referenced_sdks(pairs, facts, registry);
    let pythons = referenced_pythons(pairs, facts, registry);
    declared_source_is_listed(declared, registry, j);
    project_sources_are_listed(pairs, facts, registry, i);
    match toolchain::source_of(name, entry, registry, exe_suffix) {
        Ok(SourceText::Vfox { plugin, version, .. }) => {
            let at = (plugin, version);
            assert(project_sdks(pairs[i].1, facts[i], registry).contains(at));
            assert(sdks.contains(at));
            let k = choose|k: int| 0 <= k < sdks.len() && sdks[k] == at;
            assert((named + sdks)[named.len() + k] == at);
            referenced_is_never_orphaned(
                installed,
                uv,
                Seq::empty(),
                named + sdks,
                named,
                pythons,
                Seq::empty(),
                plugin,
                version,
            );
        },
        Ok(SourceText::Uv { version }) => {
            assert(project_pythons(facts[i], registry).contains(version));
            referenced_is_never_orphaned(
                installed,
                uv,
                Seq::empty(),
                named + sdks,
                named,
                pythons,
                Seq::empty(),
                name,
                version,
            );
        },
        _ => {},
    }
}

/// What a declared language comes from is among what the manifest's languages come from.
proof fn declared_source_is_listed(s: Seq<(Seq<char>, Language)>, registry: Registry, j: int)
    requires
        0 <= j < s.len(),
    ensures
        match toolchain::source_of(s[j].0, s[j].1, registry, ""@) {
            Ok(SourceText::Vfox { plugin, version, .. }) => declared_sdks(s, registry).contains(
                (plugin, version),
            ),
            Ok(SourceText::Uv { version }) => declared_pythons(s, registry).contains(version),
            _ => true,
        },
    decreases s.len(),
{
    let front = s.drop_last();
    let sdks = declared_sdks(s, registry);
    let pythons = declared_pythons(s, registry);
    if j < front.len() {
        declared_source_is_listed(front, registry, j);
        match toolchain::source_of(s[j].0, s[j].1, registry, ""@) {
            Ok(SourceText::Vfox { plugin, version, .. }) => {
                let part = declared_sdks(front, registry);
                let k = choose|k: int| 0 <= k < part.len() && part[k] == (plugin, version);
                assert(sdks[k] == (plugin, version));
            },
            Ok(SourceText::Uv { version }) => {
                let part = declared_pythons(front, registry);
                let k = choose|k: int| 0 <= k < part.len() && part[k] == version;
                assert(pythons[k] == version);
            },
            _ => {},
        }
    } else {
        match toolchain::source_of(s[j].0, s[j].1, registry, ""@) {
            Ok(SourceText::Vfox { plugin, version, .. }) => {
                assert(sdks[sdks.len() - 1] == (plugin, version));
            },
            Ok(SourceText::Uv { version }) => {
                assert(pythons[pythons.len() - 1] == version);
            },
            _ => {},
        }
    }
}

/// What one project's languages come from is among what all projects' languages come from.
proof fn project_sources_are_listed(
    pairs: Seq<(Seq<char>, ProjectRecord)>,
    facts: Seq<ProjectFact>,
    registry: Registry,
    i: int,
)
    requires
        0 <= i < pairs.len(),
    ensures
        forall|p: (Seq<char>, Seq<char>)| #[trigger]
            project_sdks(pairs[i].1, facts[i], registry).contains(p) ==> referenced_sdks(
                pairs,
                facts,
                registry,
            ).contains(p),
        forall|v: Seq<char>| #[trigger]
            project_pythons(facts[i], registry).contains(v) ==> referenced_pythons(
                pairs,
                facts,
                registry,
            ).contains(v),
    decreases pairs.len(),
{
    let front = pairs.drop_last();
    let sdks = referenced_sdks(pairs, facts, registry);
    let sdks_before = referenced_sdks(front, facts, registry);
    let pythons = referenced_pythons(pairs, facts, registry);
    let pythons_before = referenced_pythons(front, facts, registry);
    let own_sdks = project_sdks(pairs[i].1, facts[i], registry);
    let own_pythons = project_pythons(facts[i], registry);
    if i < front.len() {
        project_sources_are_listed(front, facts, registry, i);
    }
    assert forall|p: (Seq<char>, Seq<char>)| #[trigger] own_sdks.contains(p) implies sdks.contains(
        p,
    ) by {
        if i < front.len() {
            assert(project_sdks(front[i].1, facts[i], registry).contains(p));
            let k = choose|k: int| 0 <= k < sdks_before.len() && sdks_before[k] == p;
            assert(sdks[k] == p);
        } else {
            let k = choose|k: int| 0 <= k < own_sdks.len() && own_sdks[k] == p;
            assert(sdks[sdks_before.len() + k] == p);
        }
    }
    assert forall|v: Seq<char>| #[trigger] own_pythons.contains(v) implies pythons.contains(v) by {
        if i < front.len() {
            let k = choose|k: int| 0 <= k < pythons_before.len() && pythons_before[k] == v;
            assert(pythons[k] == v);
        } else {
            let k = choose|k: int| 0 <= k < own_pythons.len() && own_pythons[k] == v;
            assert(pythons[pythons_before.len() + k] == v);
        }
    }
}

/// Taking the orphans out of the registry leaves every registration that is no orphan, unchanged,
/// and no orphan: looking again finds nothing.
pub proof fn pruning_leaves_no_orphans(
    before: Registry,
    after: Registry,
    orphans: Seq<OrphanService>,
    referenced: Seq<(Seq<char>, Seq<char>)>,
)
    requires
        before.entries.in_order(),
        orphan_texts(orphans) == registrations(
            orphaned_services(before.entries.pairs(), referenced),
        ),
        after.entries.pairs() == ordered_map::flagged(
            before.entries.pairs(),
            staying(before.entries.pairs(), orphan_keys(orphans)),
        ),
    ensures
        orphaned_services(after.entries.pairs(), referenced).len() == 0,
        forall|i: int| 0 <= i < before.entries.pairs().len() ==> {
            let p = #[trigger] before.entries.pairs()[i];
            &&& after.entries@.contains_key(p.0) == !is_orphan(p.1, referenced)
            &&& !is_orphan(p.1, referenced) ==> after.entries@[p.0] == p.1
        },
{
    let all = before.entries.pairs();
    let gone = orphan_keys(orphans);
    let flags = staying(all, gone);
    let listed = orphaned_services(all, referenced);
    let orphan = |e: (Seq<char>, RegistryEntry)| is_orphan(e.1, referenced);
    before.entries.pairs_ascend();
    assert(orphan_texts(orphans).len() == orphans.len());
    assert(registrations(listed).len() == listed.len());
    assert forall|i: int| 0 <= i < all.len() implies #[trigger] flags[i] == !is_orphan(
        all[i].1,
        referenced,
    ) by {
        let e = all[i].1;
        let key = (e.name@, e.version@);
        if is_orphan(e, referenced) {
            all.lemma_filter_contains(orphan, i);
            let k = choose|k: int| 0 <= k < listed.len() && listed[k] == all[i];
            assert(registrations(listed)[k] == orphan_texts(orphans)[k]);
            assert(gone[k] == key);
        }
        if gone.contains(key) {
            let k = choose|k: int| 0 <= k < gone.len() && gone[k] == key;
            assert(orphan_texts(orphans)[k] == registrations(listed)[k]);
            all.lemma_filter_pred(orphan, k);
        }
    }
    assert forall|i: int| 0 <= i < all.len() implies {
        let p = #[trigger] all[i];
        &&& after.entries@.contains_key(p.0) == !is_orphan(p.1, referenced)
        &&& !is_orphan(p.1, referenced) ==> after.entries@[p.0] == p.1
    } by {
        ordered_map::flagged_pairs_stay(all, flags, i);
        assert(flags[i] == !is_orphan(all[i].1, referenced));
    }
    let left = after.entries.pairs();
    let again = orphaned_services(left, referenced);
    if again.len() > 0 {
        left.lemma_filter_pred(orphan, 0);
        left.lemma_filter_contains_rev(orphan, again[0]);
        let k = choose|k: int| 0 <= k < left.len() && left[k] == again[0];
        ordered_map::flagged_members(all, flags, left[k]);
        let i = choose|i: int| #![trigger all[i]] 0 <= i < all.len() && flags[i] && all[i] == left[k];
        assert(flags[i] == !is_orphan(all[i].1, referenced));
    }
}

/// Deleting data has to be confirmed: what is reported otherwise.
pub fn purge_refused(yes: bool, purge_data: bool) -> (r: Option<&'static str>)
    ensures
        match r {
            Some(s) => purge_data && !yes && s@ == "--purge-data requires --yes"@,
            None => !purge_data || yes,
        },
{
    if purge_data && !yes {
        Some("--purge-data requires --yes")
    } else {
        None
    }
}

/// A heading and what stands under it.
pub open spec fn section(title: Seq<char>, items: Seq<Seq<char>>) -> Seq<Seq<char>> {
    seq![title] + (if items.len() == 0 {
        seq!["  (none)"@]
    } else {
        items
    })
}

/// The lines of a list of names and versions.
pub open spec fn pair_lines(s: Seq<(Seq<char>, Seq<char>)>) -> Seq<Seq<char>> {
    s.map_values(|p: (Seq<char>, Seq<char>)| "  "@ + p.0 + "@"@ + p.1)
}

/// The lines of a list of Python versions.
pub open spec fn python_lines(s: Seq<Seq<char>>) -> Seq<Seq<char>> {
    s.map_values(|v: Seq<char>| "  python@"@ + v)
}

/// The lines of all registrations.
pub open spec fn entry_lines(s: Seq<(Seq<char>, RegistryEntry)>) -> Seq<Seq<char>> {
    s.map_values(
        |p: (Seq<char>, RegistryEntry)|
            "  "@ + p.1.kind@ + "."@ + p.1.name@ + "@"@ + p.1.version@ + " -> "@ + destination(
                text::opt_text(p.1.path),
                p.1.port,
            ),
    )
}

/// The lines of the services that no project refers to.
pub open spec fn orphan_lines(s: Seq<(Seq<char>, Seq<char>, Seq<char>)>) -> Seq<Seq<char>> {
    s.map_values(
        |o: (Seq<char>, Seq<char>, Seq<char>)| "  "@ + o.0 + "@"@ + o.1 + " -> "@ + o.2,
    )
}

/// A heading and what stands under it.
fn with_heading(title: &str, items: Vec<String>) -> (r: Vec<String>)
    ensures
        text::texts(r@) == section(title@, text::texts(items@)),
{
    let mut r: Vec<String> = Vec::new();
    r.push(title.to_owned());
    let ghost head = r@;
    assert(text::texts(head) =~= seq![title@]);
    if items.len() == 0 {
        r.push("  (none)".to_owned());
        assert(text::texts(r@) =~= seq![title@] + seq!["  (none)"@]);
    } else {
        let mut rest = items;
        let ghost all = rest@;
        r.append(&mut rest);
        assert(text::texts(r@) =~= seq![title@] + text::texts(all));
    }
    r
}

/// The lines of a list of names and versions.
fn show_pairs(list: &Vec<(String, String)>) -> (r: Vec<String>)
    ensures
        text::texts(r@) == pair_lines(projects::pair_texts(list@)),
{
    let ghost all = pair_lines(projects::pair_texts(list@));
    let mut r: Vec<String> = Vec::new();
    let mut i: usize = 0;
    while i < list.len()
        invariant
            i <= list@.len(),
            all == pair_lines(projects::pair_texts(list@)),
            text::texts(r@) == all.take(i as int),
        decreases list@.len() - i,
    {
        let mut line = "  ".to_owned();
        line.append(list[i].0.as_str());
        line.append("@");
        line.append(list[i].1.as_str());
        let ghost before = r@;
        let ghost added = line@;
        r.push(line);
        assert(projects::pair_texts(list@)[i as int] == (list@[i as int].0@, list@[i as int].1@));
        assert(text::texts(r@) =~= text::texts(before).push(added));
        assert(all.take(i + 1) =~= all.take(i as int).push(added));
        i += 1;
    }
    assert(all.take(i as int) =~= all);
    r
}

/// The lines of a list of Python versions.
fn show_pythons(list: &Vec<String>) -> (r: Vec<String>)
    ensures
        text::texts(r@) == python_lines(text::texts(list@)),
{
    let ghost all = python_lines(text::texts(list@));
    let mut r: Vec<String> = Vec::new();
    let mut i: usize = 0;
    while i < list.len()
        invariant
            i <= list@.len(),
            all == python_lines(text::texts(list@)),
            text::texts(r@) == all.take(i as int),
        decreases list@.len() - i,
    {
        let mut line = "  python@".to_owned();
        line.append(list[i].as_str());
        let ghost before = r@;
        let ghost added = line@;
        r.push(line);
        assert(text::texts(r@) =~= text::texts(before).push(added));
        assert(all.take(i + 1) =~= all.take(i as int).push(added));
        i += 1;
    }
    assert(all.take(i as int) =~= all);
    r
}

/// The lines of all registrations.
fn show_entries(registry: &Registry) -> (r: Vec<String>)
    ensures
        text::texts(r@) == entry_lines(registry.entries.pairs()),
{
    let ghost all = entry_lines(registry.entries.pairs());
    let n: usize = registry.entries.len();
    let mut r: Vec<String> = Vec::new();
    let mut i: usize = 0;
    while i < n
        invariant
            i <= n,
            n == registry.entries.pairs().len(),
            all == entry_lines(registry.entries.pairs()),
            text::texts(r@) == all.take(i as int),
        decreases n - i,
    {
        let entry = registry.entries.value_at(i);
        let mut line = "  ".to_owned();
        line.append(entry.kind.as_str());
        line.append(".");
        line.append(entry.name.as_str());
        line.append("@");
        line.append(entry.version.as_str());
        line.append(" -> ");
        line.append(registry_entry_destination(entry).as_str());
        let ghost before = r@;
        let ghost added = line@;
        r.push(line);
        assert(text::texts(r@) =~= text::texts(before).push(added));
        assert(all.take(i + 1) =~= all.take(i as int).push(added));
        i += 1;
    }
    assert(all.take(i as int) =~= all);
    r
}

/// The lines of the services that no project refers to.
fn show_orphans(list: &Vec<OrphanService>) -> (r: Vec<String>)
    ensures
        text::texts(r@) == orphan_lines(orphan_texts(list@)),
{
    let ghost all = orphan_lines(orphan_texts(list@));
    let mut r: Vec<String> = Vec::new();
    let mut i: usize = 0;
    while i < list.len()
        invariant
            i <= list@.len(),
            all == orphan_lines(orphan_texts(list@)),
            text::texts(r@) == all.take(i as int),
        decreases list@.len() - i,
    {
        let mut line = "  ".to_owned();
        line.append(list[i].name.as_str());
        line.append("@");
        line.append(list[i].version.as_str());
        line.append(" -> ");
        line.append(list[i].destination.as_str());
        let ghost before = r@;
        let ghost added = line@;
        r.push(line);
        proof {
            assert(orphan_texts(list@)[i as int] == (
                list@[i as int].name@,
                list@[i as int].version@,
                list@[i as int].destination@,
            ));
            assert(text::texts(r@) =~= text::texts(before).push(added));
            assert(all.take(i + 1) =~= all.take(i as int).push(added));
        }
        i += 1;
    }
    assert(all.take(i as int) =~= all);
    r
}

/// Three lists, one after the other.
fn in_a_row(a: Vec<String>, b: Vec<String>, c: Vec<String>) -> (r: Vec<String>)
    ensures
        text::texts(r@) == text::texts(a@) + text::texts(b@) + text::texts(c@),
{
    let mut r = a;
    let mut second = b;
    let mut third = c;
    r.append(&mut second);
    r.append(&mut third);
    assert(text::texts(r@) =~= text::texts(a@) + text::texts(b@) + text::texts(c@));
    r
}

/// Everything that is installed or registered.
pub fn list(vfox: &Vec<(String, String)>, uv: &Vec<String>, registry: &Registry) -> (r: Vec<String>)
    ensures
        text::texts(r@) == section(
            "languages (vfox):"@,
            pair_lines(projects::pair_texts(vfox@)),
        ) + section("languages (uv):"@, python_lines(text::texts(uv@))) + section(
            "registered (BYO services/tools/languages):"@,
            entry_lines(registry.entries.pairs()),
        ),
{
    in_a_row(
        with_heading("languages (vfox):", show_pairs(vfox)),
        with_heading("languages (uv):", show_pythons(uv)),
        with_heading("registered (BYO services/tools/languages):", show_entries(registry)),
    )
}

/// What `prune` shows of what it found.
pub fn prune_report(found: &Prune) -> (r: Vec<String>)
    ensures
        text::texts(r@) == section(
            "orphaned languages (vfox):"@,
            pair_lines(projects::pair_texts(found.vfox@)),
        ) + section("orphaned languages (uv):"@, python_lines(text::texts(found.uv@))) + section(
            "orphaned registered services:"@,
            orphan_lines(orphan_texts(found.services@)),
        ),
{
    in_a_row(
        with_heading("orphaned languages (vfox):", show_pairs(&found.vfox)),
        with_heading("orphaned languages (uv):", show_pythons(&found.uv)),
        with_heading("orphaned registered services:", show_orphans(&found.services)),
    )
}

/// What is shown of a project that is gone.
pub fn dropped_line(path: &str) -> (r: String)
    ensures
        r@ == "  (project no longer exists, dropping from tracking: "@ + path@ + ")"@,
{
    let mut r = "  (project no longer exists, dropping from tracking: ".to_owned();
    r.append(path);
    r.append(")");
    r
}

/// Where the data of a service that is dropped lies: where it was put when the service was started.
pub fn orphan_data_dir(home: &str, orphan: &OrphanService) -> (r: JoinedPath)
    ensures
        r@ == services::data_path(home@, orphan.name@, orphan.version@),
{
    services::data_directory(home, orphan.name.as_str(), orphan.version.as_str())
}

} // verus!
