//! Laws on the registry and on pruning: when an installation is registered, what is installed, and
//! what is orphaned.

use crate::commands::registry_commands;
use crate::commands::registry_commands::{ProjectFact, RegisterError};
use crate::commands::startup;
use crate::laws::strings;
use crate::laws::strings::all_of;
use crate::manifest::{Language, Service};
use crate::projects;
use crate::projects::{KnownProject, ProjectRecord};
use crate::registry::{Registry, RegistryEntry};
use crate::text;
use crate::text::Class;
use vstd::prelude::*;

verus! {

/// An installation is looked up under its kind, name and version together, and its path is the one
/// that it was registered with.
pub proof fn lookups_go_by_kind_name_and_version(
    registry: Registry,
    kind: Seq<char>,
    name: Seq<char>,
    version: Seq<char>,
)
    ensures
        ({
            let key = kind + ":"@ + name + ":"@ + version;
            &&& registry.entry(kind, name, version) is Some <==> registry.entries@.contains_key(key)
            &&& registry.entries@.contains_key(key) ==> {
                let e = registry.entries@[key];
                &&& registry.entry(kind, name, version) matches Some(i) && i.kind == e.kind@
                    && i.name == e.name@ && i.version == e.version@ && i.external == e.external
                    && i.port == e.port && i.path == text::opt_text(e.path)
                &&& registry.path_of(kind, name, version) == text::opt_text(e.path)
            }
            &&& !registry.entries@.contains_key(key) ==> registry.path_of(kind, name, version)
                is None
        }),
{
}

/// A service, a tool or a language is registered by a path that exists; only a service can be
/// external instead, and it then needs a port and takes no path. All else is refused.
pub proof fn registrations_are_a_path_or_external(
    kind: Seq<char>,
    has_path: bool,
    external: bool,
    has_port: bool,
    path_exists: bool,
)
    ensures
        ({
            let fault = registry_commands::register_fault(
                kind,
                has_path,
                external,
                has_port,
                path_exists,
            );
            let known = kind == "service"@ || kind == "tool"@ || kind == "language"@;
            &&& fault is None <==> known && (if external {
                kind == "service"@ && !has_path && has_port
            } else {
                has_path && path_exists
            })
            &&& !known ==> fault == Some(RegisterError::UnknownKind)
            &&& fault == Some(RegisterError::UnknownKind) ==> !known
            &&& fault == Some(RegisterError::ExternalKind) <==> known && external && kind
                != "service"@
            &&& fault == Some(RegisterError::PathAndExternal) <==> kind == "service"@ && external
                && has_path
            &&& fault == Some(RegisterError::NoPort) <==> kind == "service"@ && external && !has_path
                && !has_port
            &&& fault == Some(RegisterError::NoPath) <==> known && !external && !has_path
            &&& fault == Some(RegisterError::Missing) <==> known && !external && has_path
                && !path_exists
        }),
{
    reveal_strlit("service");
    reveal_strlit("tool");
    reveal_strlit("language");
    assert("service"@.len() == 7 && "tool"@.len() == 4 && "language"@.len() == 8);
}

/// An installation is shown by its path, or, where it is external, by its port.
pub proof fn destinations_are_paths_or_ports(path: Option<Seq<char>>, port: Option<u16>)
    ensures
        path matches Some(p) ==> registry_commands::destination(path, port) == p,
        path is None && port is Some ==> text::has_suffix(
            registry_commands::destination(path, port),
            text::decimal(port->0 as nat),
        ),
{
    if let Some(n) = port {
        strings::suffixes_are_endings(
            "external, port "@,
            text::decimal(n as nat),
            "external, port "@ + text::decimal(n as nat),
        );
    }
}

/// Of the directories in vfox's cache, each that is called `v-` and a version is that version of
/// its language, and no other is one.
pub proof fn cached_versions_are_marked(
    cache: Seq<(Seq<char>, Seq<char>)>,
    language: Seq<char>,
    version: Seq<char>,
)
    ensures
        registry_commands::vfox_versions(cache).contains((language, version)) <==> cache.contains(
            (language, "v-"@ + version),
        ),
    decreases cache.len(),
{
    let dir = "v-"@ + version;
    strings::prefixes_are_beginnings("v-"@, version, dir);
    if cache.len() > 0 {
        let front = cache.drop_last();
        let last = cache.last();
        cached_versions_are_marked(front, language, version);
        let part = registry_commands::vfox_versions(front);
        let whole = registry_commands::vfox_versions(cache);
        if whole.contains((language, version)) {
            let i = choose|i: int| 0 <= i < whole.len() && whole[i] == (language, version);
            if i < part.len() {
                assert(part[i] == (language, version));
                let k = choose|k: int| 0 <= k < front.len() && front[k] == (language, dir);
                assert(cache[k] == (language, dir));
            } else {
                assert(last.1 =~= "v-"@ + last.1.skip("v-"@.len() as int));
                assert(cache[cache.len() - 1] == (language, dir));
            }
        }
        if cache.contains((language, dir)) {
            let k = choose|k: int| 0 <= k < cache.len() && cache[k] == (language, dir);
            if k < front.len() {
                assert(front[k] == (language, dir));
                let i = choose|i: int| 0 <= i < part.len() && part[i] == (language, version);
                assert(whole[i] == (language, version));
            } else {
                assert(whole[whole.len() - 1] == (language, version));
            }
        }
    }
}

/// The first word of a line is what stands between the white space in front and the next.
pub proof fn first_words_end_at_white_space(
    space: Seq<char>,
    word: Seq<char>,
    rest: Seq<char>,
)
    requires
        all_of(space, Class::White),
        word.len() > 0,
        forall|i: int| 0 <= i < word.len() ==> !Class::White.has(#[trigger] word[i]),
        rest.len() > 0 ==> Class::White.has(rest[0]),
    ensures
        registry_commands::first_word(space + word + rest) == Some(word),
        registry_commands::first_word(space) is None,
{
    assert(space + word + rest =~= space + (word + rest));
    assert(!Class::White.has(word[0]));
    strings::leading_runs_end_at_the_first_other(space, word + rest, Class::White);
    word_before_space(word, rest);
    strings::leading_runs_end_at_the_first_other(space, Seq::empty(), Class::White);
    assert(space + Seq::empty() =~= space);
}

proof fn word_before_space(word: Seq<char>, rest: Seq<char>)
    requires
        forall|i: int| 0 <= i < word.len() ==> !Class::White.has(#[trigger] word[i]),
        rest.len() > 0 ==> Class::White.has(rest[0]),
    ensures
        registry_commands::up_to_space(word + rest) == word,
    decreases word.len(),
{
    let s = word + rest;
    if word.len() == 0 {
        assert(s =~= rest);
        assert(registry_commands::up_to_space(s) =~= word);
    } else {
        assert(!Class::White.has(word[0]));
        assert(s.skip(1) =~= word.skip(1) + rest);
        word_before_space(word.skip(1), rest);
        assert(seq![s[0]] + word.skip(1) =~= word);
    }
}

/// An installed SDK is orphaned exactly where nothing refers to it, and so are Pythons and
/// registered services; what is no service never is.
pub proof fn orphans_are_what_nothing_refers_to(
    installed: Seq<(Seq<char>, Seq<char>)>,
    referenced: Seq<(Seq<char>, Seq<char>)>,
    sdk: (Seq<char>, Seq<char>),
    uv: Seq<Seq<char>>,
    pythons: Seq<Seq<char>>,
    version: Seq<char>,
    entry: RegistryEntry,
)
    ensures
        registry_commands::orphaned_pairs(installed, referenced).contains(sdk) <==> (
        installed.contains(sdk) && !referenced.contains(sdk)),
        registry_commands::orphaned_pythons(uv, referenced, pythons).contains(version) <==> (
        uv.contains(version) && !pythons.contains(version) && !referenced.contains(
            ("python"@, version),
        )),
        registry_commands::is_orphan(entry, referenced) <==> (entry.kind@ == "service"@
            && !referenced.contains((entry.name@, entry.version@))),
{
    let unreferenced = |p: (Seq<char>, Seq<char>)| !referenced.contains(p);
    let left = registry_commands::orphaned_pairs(installed, referenced);
    assert(left == installed.filter(unreferenced));
    if left.contains(sdk) {
        let i = choose|i: int| 0 <= i < left.len() && left[i] == sdk;
        installed.lemma_filter_pred(unreferenced, i);
        installed.lemma_filter_contains_rev(unreferenced, sdk);
    }
    if installed.contains(sdk) && !referenced.contains(sdk) {
        let i = choose|i: int| 0 <= i < installed.len() && installed[i] == sdk;
        installed.lemma_filter_contains(unreferenced, i);
    }
    let unused = |v: Seq<char>| !referenced.contains(("python"@, v)) && !pythons.contains(v);
    let gone = registry_commands::orphaned_pythons(uv, referenced, pythons);
    assert(gone == uv.filter(unused));
    if gone.contains(version) {
        let i = choose|i: int| 0 <= i < gone.len() && gone[i] == version;
        uv.lemma_filter_pred(unused, i);
        uv.lemma_filter_contains_rev(unused, version);
    }
    if uv.contains(version) && !pythons.contains(version) && !referenced.contains(
        ("python"@, version),
    ) {
        let i = choose|i: int| 0 <= i < uv.len() && uv[i] == version;
        uv.lemma_filter_contains(unused, i);
    }
}

proof fn language_versions_are_all(s: Seq<(Seq<char>, Language)>, i: int)
    requires
        0 <= i < s.len(),
    ensures
        s[i].1.version_text() matches Some(v) ==> startup::language_versions(s).contains(
            (s[i].0, v),
        ),
    decreases s.len(),
{
    let front = s.drop_last();
    let part = startup::language_versions(front);
    let whole = startup::language_versions(s);
    if let Some(v) = s[i].1.version_text() {
        let pair = (s[i].0, v);
        if i < front.len() {
            language_versions_are_all(front, i);
            let k = choose|k: int| 0 <= k < part.len() && part[k] == pair;
            assert(whole[k] == pair);
        } else {
            assert(whole[whole.len() - 1] == pair);
        }
    }
}

proof fn language_versions_are_declared(
    s: Seq<(Seq<char>, Language)>,
    pair: (Seq<char>, Seq<char>),
)
    ensures
        startup::language_versions(s).contains(pair) ==> exists|i: int|
            #![trigger s[i]]
            0 <= i < s.len() && s[i].0 == pair.0 && s[i].1.version_text() == Some(pair.1),
    decreases s.len(),
{
    if s.len() > 0 {
        let front = s.drop_last();
        let part = startup::language_versions(front);
        let whole = startup::language_versions(s);
        language_versions_are_declared(front, pair);
        if whole.contains(pair) {
            let k = choose|k: int| 0 <= k < whole.len() && whole[k] == pair;
            if k < part.len() {
                assert(part[k] == pair);
                let i = choose|i: int|
                    #![trigger front[i]]
                    0 <= i < front.len() && front[i].0 == pair.0 && front[i].1.version_text()
                        == Some(pair.1);
                assert(s[i] == front[i]);
            } else {
                assert(s[s.len() - 1] == s.last());
            }
        }
    }
}

/// A project is remembered with the version of every language and of every service that it
/// declares, and with nothing that it does not.
pub proof fn projects_are_remembered_as_declared(
    languages: Seq<(Seq<char>, Language)>,
    services: Seq<(Seq<char>, Service)>,
    pair: (Seq<char>, Seq<char>),
    i: int,
)
    ensures
        0 <= i < languages.len() && languages[i].1.version_text() is Some
            ==> startup::language_versions(languages).contains(
            (languages[i].0, languages[i].1.version_text()->0),
        ),
        startup::language_versions(languages).contains(pair) ==> exists|k: int|
            #![trigger languages[k]]
            0 <= k < languages.len() && languages[k].0 == pair.0 && languages[k].1.version_text()
                == Some(pair.1),
        startup::service_versions(services).len() == services.len(),
        0 <= i < services.len() ==> startup::service_versions(services)[i] == (
            services[i].0,
            services[i].1.version@,
        ),
{
    if 0 <= i < languages.len() {
        language_versions_are_all(languages, i);
    }
    language_versions_are_declared(languages, pair);
}

/// What one project refers to is among what all refer to.
proof fn services_of_one_are_referenced(
    pairs: Seq<(Seq<char>, ProjectRecord)>,
    facts: Seq<ProjectFact>,
    i: int,
    pair: (Seq<char>, Seq<char>),
)
    requires
        0 <= i < pairs.len(),
        registry_commands::project_services(pairs[i].1, facts[i]).contains(pair),
    ensures
        registry_commands::referenced_services(pairs, facts).contains(pair),
    decreases pairs.len(),
{
    let front = pairs.drop_last();
    let part = registry_commands::referenced_services(front, facts);
    let own = registry_commands::project_services(pairs.last().1, facts[pairs.len() - 1]);
    let whole = registry_commands::referenced_services(pairs, facts);
    if i < front.len() {
        services_of_one_are_referenced(front, facts, i, pair);
        let k = choose|k: int| 0 <= k < part.len() && part[k] == pair;
        assert(whole[k] == pair);
    } else {
        let k = choose|k: int| 0 <= k < own.len() && own[k] == pair;
        assert(whole[part.len() + k] == pair);
    }
}

proof fn languages_of_one_are_referenced(
    pairs: Seq<(Seq<char>, ProjectRecord)>,
    facts: Seq<ProjectFact>,
    i: int,
    pair: (Seq<char>, Seq<char>),
)
    requires
        0 <= i < pairs.len(),
        registry_commands::project_languages(pairs[i].1, facts[i]).contains(pair),
    ensures
        registry_commands::referenced_languages(pairs, facts).contains(pair),
    decreases pairs.len(),
{
    let front = pairs.drop_last();
    let part = registry_commands::referenced_languages(front, facts);
    let own = registry_commands::project_languages(pairs.last().1, facts[pairs.len() - 1]);
    let whole = registry_commands::referenced_languages(pairs, facts);
    if i < front.len() {
        languages_of_one_are_referenced(front, facts, i, pair);
        let k = choose|k: int| 0 <= k < part.len() && part[k] == pair;
        assert(whole[k] == pair);
    } else {
        let k = choose|k: int| 0 <= k < own.len() && own[k] == pair;
        assert(whole[part.len() + k] == pair);
    }
}

proof fn sdks_of_one_are_referenced(
    pairs: Seq<(Seq<char>, ProjectRecord)>,
    facts: Seq<ProjectFact>,
    registry: Registry,
    i: int,
    pair: (Seq<char>, Seq<char>),
)
    requires
        0 <= i < pairs.len(),
        registry_commands::project_sdks(pairs[i].1, facts[i], registry).contains(pair),
    ensures
        registry_commands::referenced_sdks(pairs, facts, registry).contains(pair),
    decreases pairs.len(),
{
    let front = pairs.drop_last();
    let part = registry_commands::referenced_sdks(front, facts, registry);
    let own = registry_commands::project_sdks(pairs.last().1, facts[pairs.len() - 1], registry);
    let whole = registry_commands::referenced_sdks(pairs, facts, registry);
    if i < front.len() {
        sdks_of_one_are_referenced(front, facts, registry, i, pair);
        let k = choose|k: int| 0 <= k < part.len() && part[k] == pair;
        assert(whole[k] == pair);
    } else {
        let k = choose|k: int| 0 <= k < own.len() && own[k] == pair;
        assert(whole[part.len() + k] == pair);
    }
}

/// A service that a project's readable manifest declares is never orphaned, and neither is one that
/// was remembered of a project whose manifest cannot be read; nor is a language that was.
pub proof fn what_a_project_uses_is_never_orphaned(
    pairs: Seq<(Seq<char>, ProjectRecord)>,
    facts: Seq<ProjectFact>,
    registry: Registry,
    i: int,
    j: int,
    entry: RegistryEntry,
    installed: Seq<(Seq<char>, Seq<char>)>,
)
    requires
        0 <= i < pairs.len(),
        pairs.len() == facts.len(),
    ensures
        facts[i] is Declares && 0 <= j < facts[i]->Declares_0.service.pairs().len() && (
        entry.name@, entry.version@) == (
            facts[i]->Declares_0.service.pairs()[j].0,
            facts[i]->Declares_0.service.pairs()[j].1.version@,
        ) ==> !registry_commands::is_orphan(
            entry,
            registry_commands::referenced_services(pairs, facts),
        ),
        facts[i] is Unreadable && 0 <= j < pairs[i].1.services@.len() && (
        entry.name@, entry.version@) == (
            pairs[i].1.services@[j].0@,
            pairs[i].1.services@[j].1@,
        ) ==> !registry_commands::is_orphan(
            entry,
            registry_commands::referenced_services(pairs, facts),
        ),
        facts[i] is Unreadable && 0 <= j < pairs[i].1.languages@.len() ==> {
            let (name, version) = pairs[i].1.languages@[j];
            let left = registry_commands::orphaned_pairs(
                installed,
                registry_commands::vfox_references(pairs, facts, registry),
            );
            &&& !left.contains((name@, version@))
            &&& name@ == "node"@ ==> !left.contains(("nodejs"@, version@))
        },
{
    if facts[i] is Declares && 0 <= j < facts[i]->Declares_0.service.pairs().len() {
        let s = facts[i]->Declares_0.service.pairs();
        let own = startup::service_versions(s);
        assert(own[j] == (s[j].0, s[j].1.version@));
        services_of_one_are_referenced(pairs, facts, i, own[j]);
    }
    if facts[i] is Unreadable {
        let record = pairs[i].1;
        if 0 <= j < record.services@.len() {
            let own = projects::pair_texts(record.services@);
            assert(own[j] == (record.services@[j].0@, record.services@[j].1@));
            services_of_one_are_referenced(pairs, facts, i, own[j]);
        }
        if 0 <= j < record.languages@.len() {
            let (name, version) = record.languages@[j];
            let own = projects::pair_texts(record.languages@);
            assert(own[j] == (name@, version@));
            languages_of_one_are_referenced(pairs, facts, i, own[j]);
            let languages = registry_commands::referenced_languages(pairs, facts);
            let sdks = registry_commands::referenced_sdks(pairs, facts, registry);
            let all = registry_commands::vfox_references(pairs, facts, registry);
            let k = choose|k: int| 0 <= k < languages.len() && languages[k] == own[j];
            assert(all[k] == own[j]);
            orphans_are_what_nothing_refers_to(
                installed,
                all,
                own[j],
                Seq::empty(),
                Seq::empty(),
                version@,
                arbitrary(),
            );
            if name@ == "node"@ {
                let recorded = registry_commands::recorded_sdks(own);
                let sdk = ("nodejs"@, version@);
                assert(recorded[j] == sdk);
                sdks_of_one_are_referenced(pairs, facts, registry, i, sdk);
                let m = choose|m: int| 0 <= m < sdks.len() && sdks[m] == sdk;
                assert(all[languages.len() + m] == sdk);
                orphans_are_what_nothing_refers_to(
                    installed,
                    all,
                    sdk,
                    Seq::empty(),
                    Seq::empty(),
                    version@,
                    arbitrary(),
                );
            }
        }
    }
}

/// A project whose directory is gone refers to nothing, and is dropped; every other is kept.
pub proof fn gone_projects_refer_to_nothing(
    record: ProjectRecord,
    facts: Seq<ProjectFact>,
    registry: Registry,
    i: int,
)
    ensures
        registry_commands::project_services(record, ProjectFact::Gone).len() == 0,
        registry_commands::project_languages(record, ProjectFact::Gone).len() == 0,
        registry_commands::project_sdks(record, ProjectFact::Gone, registry).len() == 0,
        registry_commands::project_pythons(ProjectFact::Gone, registry).len() == 0,
        0 <= i < facts.len() ==> registry_commands::still_there(facts)[i] == !(facts[i] is Gone),
{
}

/// Every installed SDK, every Python and every registration is listed, each under its heading, and
/// a heading with nothing under it says so.
pub proof fn everything_installed_is_shown(
    title: Seq<char>,
    items: Seq<Seq<char>>,
    sdks: Seq<(Seq<char>, Seq<char>)>,
    pythons: Seq<Seq<char>>,
    entries: Seq<(Seq<char>, RegistryEntry)>,
    i: int,
)
    ensures
        registry_commands::section(title, items)[0] == title,
        items.len() == 0 ==> registry_commands::section(title, items) == seq![title, "  (none)"@],
        items.len() > 0 ==> registry_commands::section(title, items).len() == items.len() + 1,
        0 <= i < items.len() ==> registry_commands::section(title, items)[i + 1] == items[i],
        registry_commands::pair_lines(sdks).len() == sdks.len(),
        0 <= i < sdks.len() ==> registry_commands::pair_lines(sdks)[i] == "  "@ + sdks[i].0 + "@"@
            + sdks[i].1,
        registry_commands::python_lines(pythons).len() == pythons.len(),
        0 <= i < pythons.len() ==> registry_commands::python_lines(pythons)[i] == "  python@"@
            + pythons[i],
        registry_commands::entry_lines(entries).len() == entries.len(),
        0 <= i < entries.len() ==> text::has_prefix(
            registry_commands::entry_lines(entries)[i],
            "  "@ + entries[i].1.kind@ + "."@ + entries[i].1.name@ + "@"@ + entries[i].1.version@,
        ),
{
    if items.len() == 0 {
        assert(registry_commands::section(title, items) =~= seq![title, "  (none)"@]);
    }
    if 0 <= i < entries.len() {
        let e = entries[i].1;
        let head = "  "@ + e.kind@ + "."@ + e.name@ + "@"@ + e.version@;
        let rest = " -> "@ + registry_commands::destination(text::opt_text(e.path), e.port);
        assert(registry_commands::entry_lines(entries)[i] =~= head + rest);
        strings::prefixes_are_beginnings(head, rest, head + rest);
    }
}

/// A name that is no directory starts in the first known project of that name; a directory, or a
/// name that no project has, is taken as it is.
pub proof fn projects_start_by_directory_or_by_name(
    target: Seq<char>,
    known: Seq<KnownProject>,
    i: int,
)
    ensures
        projects::start_of(target, true, known) == target,
        0 <= i < known.len() && text::opt_text(known[i].name) == Some(target) && (forall|j: int|
            0 <= j < i ==> text::opt_text((#[trigger] known[j]).name) != Some(target))
            ==> projects::start_of(target, false, known) == known[i].dir@,
        (forall|j: int|
            0 <= j < known.len() ==> text::opt_text((#[trigger] known[j]).name) != Some(target))
            ==> projects::start_of(target, false, known) == target,
{
    if 0 <= i < known.len() && text::opt_text(known[i].name) == Some(target) && (forall|j: int|
        0 <= j < i ==> text::opt_text((#[trigger] known[j]).name) != Some(target)) {
        first_of_the_name(known, target, i);
    }
    if forall|j: int|
        0 <= j < known.len() ==> text::opt_text((#[trigger] known[j]).name) != Some(target) {
        none_of_the_name(known, target);
    }
}

proof fn first_of_the_name(known: Seq<KnownProject>, name: Seq<char>, i: int)
    requires
        0 <= i < known.len(),
        text::opt_text(known[i].name) == Some(name),
        forall|j: int| 0 <= j < i ==> text::opt_text((#[trigger] known[j]).name) != Some(name),
    ensures
        projects::first_named(known, name) == Some(known[i].dir@),
    decreases i,
{
    if i > 0 {
        let rest = known.drop_first();
        assert(text::opt_text(known[0].name) != Some(name));
        assert(rest[i - 1] == known[i]);
        assert forall|j: int| 0 <= j < i - 1 implies text::opt_text((#[trigger] rest[j]).name)
            != Some(name) by {
            assert(rest[j] == known[j + 1]);
        }
        first_of_the_name(rest, name, i - 1);
    }
}

proof fn none_of_the_name(known: Seq<KnownProject>, name: Seq<char>)
    requires
        forall|j: int|
            0 <= j < known.len() ==> text::opt_text((#[trigger] known[j]).name) != Some(name),
    ensures
        projects::first_named(known, name) is None,
    decreases known.len(),
{
    if known.len() > 0 {
        let rest = known.drop_first();
        assert(text::opt_text(known[0].name) != Some(name));
        assert forall|j: int| 0 <= j < rest.len() implies text::opt_text((#[trigger] rest[j]).name)
            != Some(name) by {
            assert(rest[j] == known[j + 1]);
        }
        none_of_the_name(rest, name);
    }
}

/// Of the registrations, just the orphaned services go when orphans are dropped.
pub proof fn only_orphaned_services_go(
    entries: Seq<(Seq<char>, RegistryEntry)>,
    gone: Seq<(Seq<char>, Seq<char>)>,
    i: int,
)
    requires
        0 <= i < entries.len(),
    ensures
        registry_commands::staying(entries, gone).len() == entries.len(),
        registry_commands::staying(entries, gone)[i] == !(entries[i].1.kind@ == "service"@
            && gone.contains((entries[i].1.name@, entries[i].1.version@))),
{
}

} // verus!
