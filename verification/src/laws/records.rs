//! Laws on the smaller notions that contracts are stated with: records, orders, first places and
//! edited texts.

use crate::caddy::Push;
use crate::commands::profile;
use crate::commands::registry_commands;
use crate::commands::registry_commands::ProjectFact;
use crate::commands::running::RunStart;
use crate::commands::scaffold;
use crate::commands::scaffold::DetectedLanguage;
use crate::commands::services::Round;
use crate::commands::shell_integration as lines;
use crate::commands::startup;
use crate::data;
use crate::data::{Layout, Node, Page};
use crate::location;
use crate::manifest;
use crate::manifest::{Manifest, Visited};
use crate::manifest_edit;
use crate::manifest_edit::{AddArgs, EditError, EditFault};
use crate::ordered_map;
use crate::placeholder;
use crate::process::Invocation;
use crate::projects;
use crate::projects::ProjectRecord;
use crate::registry::{Registry, RegistryEntry};
use crate::state::{ProcessEntry, State};
use crate::style;
use crate::style::Colour;
use crate::text;
use crate::toolchain;
use crate::toolchain::Nested;
use crate::words;
use vstd::prelude::*;

verus! {

/// The nearest manifest is the first on the way up that is there, readable or not.
pub proof fn the_nearest_is_the_first_on_the_way(visited: Seq<Visited>, i: int, j: int)
    ensures
        manifest::nearest(visited, i) && 0 <= j < i ==> visited[j].found is Absent,
        manifest::nearest(visited, i) ==> 0 <= i < visited.len() && !(visited[i].found is Absent),
        0 <= j < visited.len() && !(visited[j].found is Absent) ==> exists|k: int|
            k <= j && #[trigger] manifest::nearest(visited, k),
    decreases j,
{
    if 0 <= j < visited.len() && !(visited[j].found is Absent) {
        if forall|k: int| 0 <= k < j ==> (#[trigger] visited[k]).found is Absent {
            assert(manifest::nearest(visited, j));
        } else {
            let k = choose|k: int| 0 <= k < j && !((#[trigger] visited[k]).found is Absent);
            the_nearest_is_the_first_on_the_way(visited, i, k);
        }
    }
}

/// The first nested directory with the binary has none before it that has it, and the first
/// detected language of a name none of that name.
pub proof fn first_means_none_before(
    nested: Seq<Nested>,
    detected: Seq<DetectedLanguage>,
    name: Seq<char>,
    i: int,
    j: int,
)
    ensures
        toolchain::first_with_binary(nested, i) ==> 0 <= i < nested.len() && nested[i].has_binary,
        toolchain::first_with_binary(nested, i) && 0 <= j < i ==> !nested[j].has_binary,
        scaffold::first_detected(detected, name, i) ==> 0 <= i < detected.len()
            && detected[i].name@ == name,
        scaffold::first_detected(detected, name, i) && 0 <= j < i ==> detected[j].name@ != name,
{
}

/// A language is detected with its name, its source and the version in its constraint; without a
/// constraint, or without a version in it, none is.
pub proof fn languages_are_detected_with_their_version(
    r: Option<DetectedLanguage>,
    name: Seq<char>,
    source: Seq<char>,
    constraint: Option<Seq<char>>,
)
    requires
        scaffold::is_detected(r, name, source, constraint),
    ensures
        constraint is None ==> r is None,
        constraint is Some && scaffold::constraint_version(constraint->0) is None ==> r is None,
        constraint is Some && scaffold::constraint_version(constraint->0) is Some ==> {
            &&& r is Some
            &&& r->0.name@ == name
            &&& r->0.source@ == source
            &&& r->0.version@ == scaffold::constraint_version(constraint->0)->0
        },
        forall|f: spec_fn(Node) -> Option<Seq<char>>, n: Node| #[trigger]
            scaffold::constraint_in(Some(n), f) == f(n),
        forall|f: spec_fn(Node) -> Option<Seq<char>>| #[trigger]
            scaffold::constraint_in(None, f) is None,
{
}

/// A record of a process holds just these values.
pub proof fn records_hold_what_was_recorded(
    e: ProcessEntry,
    pid: u32,
    port: Option<u16>,
    at: Seq<char>,
    dir: Option<Seq<char>>,
    services: Seq<Seq<char>>,
    i: int,
)
    requires
        e.holds(pid, port, at, dir, services),
    ensures
        e.pid == pid,
        e.port == port,
        e.started_at@ == at,
        dir is Some == e.data_dir is Some,
        dir matches Some(d) ==> e.data_dir->0@ == d,
        e.services@.len() == services.len(),
        0 <= i < services.len() ==> e.services@[i]@ == services[i],
{
    assert(text::texts(e.services@).len() == e.services@.len());
    if 0 <= i < services.len() {
        assert(text::texts(e.services@)[i] == e.services@[i]@);
    }
}

/// A started project is recorded with its process and its port, and with the services it was
/// brought up with; all else that was tracked stays.
pub proof fn started_projects_are_recorded(
    start: RunStart,
    round: Round,
    name: Seq<char>,
    pid: u32,
    at: Seq<char>,
    after: State,
    other: Seq<char>,
)
    requires
        start.is_record(round, name, pid, at, after),
    ensures
        after.projects@.contains_key(name),
        after.projects@[name].pid == pid,
        after.projects@[name].port == Some(start.port_number()),
        after.projects@[name].started_at@ == at,
        text::texts(after.projects@[name].services@) == round.in_use(),
        other != name ==> after.projects@.contains_key(other)
            == round.known().projects@.contains_key(other),
        other != name && after.projects@.contains_key(other) ==> after.projects@[other]
            == round.known().projects@[other],
        after.services == round.known().services,
        after.external_runs == round.known().external_runs,
        after.caddy_pid == round.known().caddy_pid,
{
    let a = after.projects@;
    let b = round.known().projects@;
    if other != name {
        assert(a.remove(name).contains_key(other) == a.contains_key(other));
        assert(b.remove(name).contains_key(other) == b.contains_key(other));
        if a.contains_key(other) {
            assert(a.remove(name)[other] == a[other]);
            assert(b.remove(name)[other] == b[other]);
        }
    }
}

/// A route is put in place under the project's own id: what was there is deleted, and the route
/// is posted to Caddy's routes on this machine.
pub proof fn routes_are_put_in_place_by_id(push: Push, name: Seq<char>, route: Node)
    requires
        push.sends(name, route),
    ensures
        push.delete_url@ == "http://127.0.0.1:2019"@ + "/id/"@ + ("stack-"@ + name),
        push.post_url@ == "http://127.0.0.1:2019"@ + "/config/apps/http/servers/srv0/routes"@,
        data::json_node(push.route) == route,
{
}

/// The program of a call is its first word, and its arguments are the others.
pub proof fn programs_are_first_words(call: Invocation, i: int)
    ensures
        call.words().len() == call.args@.len() + 1,
        call.words()[0] == call.program@,
        0 <= i < call.args@.len() ==> call.words()[i + 1] == call.args@[i]@,
{
}

/// An editor is called by its words; one that has none, or that cannot be told apart, by itself.
pub proof fn editors_are_called_by_their_words(editor: Seq<char>)
    ensures
        (words::split_words(editor) matches Some(ws) && ws.len() > 0) ==> profile::editor_call(
            editor,
        ) == words::split_words(editor)->0,
        words::split_words(editor) is None ==> profile::editor_call(editor) == seq![editor],
        profile::editor_call(editor).len() > 0,
{
}

/// Paths are made of a base and of what is joined to it, in order; what stack keeps lies below
/// `.stack` in the home directory.
pub proof fn paths_grow_at_the_end(base: Seq<char>, p: location::PathText, segment: Seq<char>, i: int)
    ensures
        location::plain(base).base == base,
        location::plain(base).segments.len() == 0,
        p.join(segment).base == p.base,
        p.join(segment).segments.len() == p.segments.len() + 1,
        p.join(segment).segments.last() == segment,
        0 <= i < p.segments.len() ==> p.join(segment).segments[i] == p.segments[i],
        location::stack_dir(base).base == base,
        location::stack_dir(base).segments == seq![".stack"@],
        profile::profiles(base).segments == seq![".stack"@, "profiles"@],
{
    assert(location::stack_dir(base).segments =~= seq![".stack"@]);
    assert(profile::profiles(base).segments =~= seq![".stack"@, "profiles"@]);
}

/// A coloured text is the text, plain or between its colour and the end of it; the colours differ.
pub proof fn colours_differ(s: Seq<char>, r: Seq<char>, colour: Colour, other: Colour)
    ensures
        style::is_coloured(s, colour, r) ==> text::occurs_in(r, s),
        colour.code() == other.code() ==> colour == other,
{
    reveal_strlit("\x1b[32m");
    reveal_strlit("\x1b[33m");
    reveal_strlit("\x1b[31m");
    assert("\x1b[32m"@[3] == '2' && "\x1b[33m"@[3] == '3' && "\x1b[31m"@[3] == '1');
    crate::laws::strings::occurrences_have_a_before_and_a_behind(
        colour.code(),
        s,
        "\x1b[0m"@,
        r,
    );
    crate::laws::strings::occurrences_have_a_before_and_a_behind(Seq::empty(), s, Seq::empty(), r);
    assert(Seq::empty() + s + Seq::empty() =~= s);
}

/// Names are taken once each, in the order in which they first stand.
pub proof fn names_come_in_the_order_they_stand(s: Seq<Seq<char>>, x: Seq<char>)
    ensures
        placeholder::distinct(s.push(x)) == if s.contains(x) {
            placeholder::distinct(s)
        } else {
            placeholder::distinct(s).push(x)
        },
        placeholder::distinct(Seq::empty()) == Seq::<Seq<char>>::empty(),
{
    assert(s.push(x).drop_last() =~= s);
    placeholder::distinct_keeps_members(s, x);
}

/// A brace that is never closed begins no name.
pub proof fn open_braces_begin_no_name(before: Seq<char>, rest: Seq<char>)
    requires
        !before.contains('{'),
        !rest.contains('}'),
    ensures
        placeholder::names_in(before + seq!['{'] + rest) == Seq::<Seq<char>>::empty(),
{
    let s = before + seq!['{'] + rest;
    crate::laws::strings::first_places_are_first(before, '{', rest);
    assert(s.skip(before.len() + 1int) =~= rest);
    crate::laws::strings::first_places_are_first(rest, '}', Seq::empty());
}

/// Keys ascend where each comes before all behind it, and the keys of a list are those of its
/// pairs.
pub proof fn ascending_keys_come_one_before_the_other<V>(
    s: Seq<(Seq<char>, V)>,
    names: Seq<Seq<char>>,
    i: int,
    j: int,
)
    ensures
        ordered_map::ascending(s) && 0 <= i < j < s.len() ==> text::precedes(s[i].0, s[j].0),
        ordered_map::ascending_texts(names) && 0 <= i < j < names.len() ==> text::precedes(
            names[i],
            names[j],
        ),
        ordered_map::keys(s).len() == s.len(),
        0 <= i < s.len() ==> ordered_map::keys(s)[i] == s[i].0,
{
}

/// A version is installed exactly where some line begins with it, and a profile is saved exactly
/// where some file is its own.
pub proof fn some_line_or_file_says_so(list: Seq<Seq<char>>, word: Seq<char>)
    ensures
        registry_commands::begins_a_line(list, word) <==> exists|i: int|
            #![trigger list[i]]
            0 <= i < list.len() && registry_commands::first_word(list[i]) == Some(word),
        profile::is_saved(list, word) <==> exists|i: int|
            #![trigger list[i]]
            0 <= i < list.len() && profile::profile_of_file(list[i]) == Some(word),
{
}

/// Where a manifest can be read, a project refers to what it declares now, and not to what was
/// remembered of it; what was remembered counts only where the manifest cannot be read.
pub proof fn live_manifests_come_before_what_was_remembered(
    record: ProjectRecord,
    m: Manifest,
    registry: Registry,
)
    ensures
        registry_commands::project_services(record, ProjectFact::Declares(m))
            == startup::service_versions(m.service.pairs()),
        registry_commands::project_languages(record, ProjectFact::Declares(m))
            == startup::language_versions(m.language.pairs()),
        registry_commands::project_services(record, ProjectFact::Unreadable)
            == projects::pair_texts(record.services@),
        registry_commands::project_languages(record, ProjectFact::Unreadable)
            == projects::pair_texts(record.languages@),
        registry_commands::project_pythons(ProjectFact::Unreadable, registry).len() == 0,
{
}

proof fn referenced_by_one(
    pairs: Seq<(Seq<char>, ProjectRecord)>,
    facts: Seq<ProjectFact>,
    pair: (Seq<char>, Seq<char>),
)
    ensures
        registry_commands::referenced_services(pairs, facts).contains(pair) ==> exists|i: int|
            #![trigger pairs[i]]
            0 <= i < pairs.len() && registry_commands::project_services(
                pairs[i].1,
                facts[i],
            ).contains(pair),
        registry_commands::referenced_languages(pairs, facts).contains(pair) ==> exists|i: int|
            #![trigger pairs[i]]
            0 <= i < pairs.len() && registry_commands::project_languages(
                pairs[i].1,
                facts[i],
            ).contains(pair),
    decreases pairs.len(),
{
    if pairs.len() > 0 {
        let front = pairs.drop_last();
        let n = front.len() as int;
        referenced_by_one(front, facts, pair);
        assert(pairs[n] == pairs.last());
        let part = registry_commands::referenced_services(front, facts);
        let own = registry_commands::project_services(pairs.last().1, facts[n]);
        let whole = registry_commands::referenced_services(pairs, facts);
        if whole.contains(pair) {
            let k = choose|k: int| 0 <= k < whole.len() && whole[k] == pair;
            if k < part.len() {
                assert(part[k] == pair);
                let i = choose|i: int|
                    #![trigger front[i]]
                    0 <= i < front.len() && registry_commands::project_services(
                        front[i].1,
                        facts[i],
                    ).contains(pair);
                assert(pairs[i] == front[i]);
            } else {
                assert(own[k - part.len()] == pair);
            }
        }
        let part = registry_commands::referenced_languages(front, facts);
        let own = registry_commands::project_languages(pairs.last().1, facts[n]);
        let whole = registry_commands::referenced_languages(pairs, facts);
        if whole.contains(pair) {
            let k = choose|k: int| 0 <= k < whole.len() && whole[k] == pair;
            if k < part.len() {
                assert(part[k] == pair);
                let i = choose|i: int|
                    #![trigger front[i]]
                    0 <= i < front.len() && registry_commands::project_languages(
                        front[i].1,
                        facts[i],
                    ).contains(pair);
                assert(pairs[i] == front[i]);
            } else {
                assert(own[k - part.len()] == pair);
            }
        }
    }
}

/// Nothing is referred to that no project refers to, so that a registered service that no project
/// uses is orphaned.
pub proof fn what_no_project_uses_is_orphaned(
    pairs: Seq<(Seq<char>, ProjectRecord)>,
    facts: Seq<ProjectFact>,
    entry: RegistryEntry,
)
    requires
        entry.kind@ == "service"@,
        forall|i: int|
            #![trigger pairs[i]]
            0 <= i < pairs.len() ==> !registry_commands::project_services(
                pairs[i].1,
                facts[i],
            ).contains((entry.name@, entry.version@)),
    ensures
        registry_commands::is_orphan(entry, registry_commands::referenced_services(pairs, facts)),
{
    referenced_by_one(pairs, facts, (entry.name@, entry.version@));
}

/// The orphaned registrations are just those that are orphans, in order.
pub proof fn orphaned_registrations_are_the_orphans(
    entries: Seq<(Seq<char>, RegistryEntry)>,
    referenced: Seq<(Seq<char>, Seq<char>)>,
    e: (Seq<char>, RegistryEntry),
    i: int,
)
    ensures
        registry_commands::orphaned_services(entries, referenced).contains(e) <==> (
        entries.contains(e) && e.1.kind@ == "service"@ && !referenced.contains(
            (e.1.name@, e.1.version@),
        )),
        registry_commands::registrations(entries).len() == entries.len(),
        0 <= i < entries.len() ==> registry_commands::registrations(entries)[i] == (
            entries[i].1.name@,
            entries[i].1.version@,
            registry_commands::destination(
                text::opt_text(entries[i].1.path),
                entries[i].1.port,
            ),
        ),
{
    let p = |q: (Seq<char>, RegistryEntry)| registry_commands::is_orphan(q.1, referenced);
    let left = registry_commands::orphaned_services(entries, referenced);
    assert(left == entries.filter(p));
    if left.contains(e) {
        let k = choose|k: int| 0 <= k < left.len() && left[k] == e;
        entries.lemma_filter_pred(p, k);
        entries.lemma_filter_contains_rev(p, e);
    }
    if entries.contains(e) && p(e) {
        let k = choose|k: int| 0 <= k < entries.len() && entries[k] == e;
        entries.lemma_filter_contains(p, k);
    }
}

/// What is read of an environment file is what stands in it: as many declarations, with the same
/// names and the same faults, and, without a dollar sign, with the same values.
pub proof fn files_are_read_as_they_stand(
    contents: Seq<u8>,
    items: Seq<Result<(String, String), String>>,
    i: int,
)
    requires
        lines::is_read(contents, items),
        0 <= i < items.len(),
    ensures
        items.len() == lines::env_read(contents).len(),
        items[i] is Ok <==> lines::env_read(contents)[i] is Ok,
        items[i] matches Ok(pair) ==> pair.0@ == lines::env_read(contents)[i]->Ok_0.0,
        items[i] matches Err(why) ==> why@ == lines::env_read(contents)[i]->Err_0,
        items[i] is Ok && !contents.contains(36u8) ==> items[i]->Ok_0.1@ == lines::env_read(
            contents,
        )[i]->Ok_0.1,
{
    let a = lines::declared(lines::item_texts(items));
    let b = lines::declared(lines::env_read(contents));
    assert(a.len() == items.len());
    assert(b.len() == lines::env_read(contents).len());
    assert(a[i] == b[i]);
    if !contents.contains(36u8) {
        assert(lines::item_texts(items)[i] == lines::env_read(contents)[i]);
    }
}

/// An edit that is refused gives the reason; one that is made gives the text of a document that
/// holds what the edit makes of the items, written as the edit says, with the same end.
pub proof fn edits_give_the_edited_document_or_the_reason(
    before: Page,
    manifest: Seq<char>,
    kind: Seq<char>,
    name: Seq<char>,
    version: Option<Seq<char>>,
    extra: AddArgs,
    r: Result<String, EditError>,
)
    requires
        data::document_parsed(manifest) == Ok::<_, Seq<char>>(before),
    ensures
        ({
            let added = manifest_edit::added(before.items, kind, name, version, extra);
            manifest_edit::edited(
                manifest_edit::added_to_text(manifest, kind, name, version, extra),
                r,
            ) ==> match added {
                Err(e) => r is Err && r->Err_0@ == e,
                Ok(items) => r is Ok && exists|doc: toml_edit::DocumentMut|
                    #[trigger] data::document_text(doc) == r->Ok_0@ && data::document_entries(doc)
                        == items && data::document_trailing(doc) == before.trailing
                        && data::document_layout(doc) == manifest_edit::added_layout(
                        before.layout,
                        kind,
                        name,
                        version,
                        extra,
                    ),
            }
        }),
        ({
            let removed = manifest_edit::removed(before.items, kind, name);
            (kind == "language"@ || kind == "service"@ || kind == "tool"@)
                && manifest_edit::edited(
                manifest_edit::removed_from_text(manifest, kind, name),
                r,
            ) ==> match removed {
                Err(e) => r is Err && r->Err_0@ == e,
                Ok(items) => r is Ok && exists|doc: toml_edit::DocumentMut|
                    #[trigger] data::document_text(doc) == r->Ok_0@ && data::document_entries(doc)
                        == items && data::document_trailing(doc) == before.trailing
                        && data::document_layout(doc) == manifest_edit::removed_layout(
                        before.layout,
                        kind,
                        name,
                    ),
            }
        }),
        kind != "language"@ && kind != "service"@ && kind != "tool"@ && manifest_edit::edited(
            manifest_edit::removed_from_text(manifest, kind, name),
            r,
        ) ==> r is Err,
{
    reveal_strlit("clone");
    reveal_strlit("language");
    reveal_strlit("service");
    reveal_strlit("tool");
    assert("clone"@.len() == 5 && "language"@.len() == 8 && "service"@.len() == 7 && "tool"@.len()
        == 4);
}

/// A text that cannot be read is not edited, and why is told.
pub proof fn unreadable_texts_are_not_edited(
    manifest: Seq<char>,
    why: Seq<char>,
    kind: Seq<char>,
    name: Seq<char>,
    version: Option<Seq<char>>,
    extra: AddArgs,
    r: Result<String, EditError>,
)
    requires
        data::document_parsed(manifest) == Err::<Page, _>(why),
    ensures
        manifest_edit::edited(
            manifest_edit::added_to_text(manifest, kind, name, version, extra),
            r,
        ) ==> r is Err && r->Err_0@ == EditFault::Unparsable(why),
        manifest_edit::edited(manifest_edit::removed_from_text(manifest, kind, name), r) ==> r
            is Err,
{
}

/// A key that is set keeps its place, or comes last; the others keep theirs.
pub proof fn set_keys_keep_their_place(l: Layout, key: Seq<char>, other: Seq<char>, i: int)
    ensures
        0 <= i < l.keys.len() ==> l.with_value(key).keys[i] == l.keys[i],
        l.keys.contains(key) ==> l.with_value(key).keys == l.keys,
        !l.keys.contains(key) ==> l.with_value(key).keys == l.keys.push(key),
        other != key ==> manifest_edit::same_line(l.lines, l.with_value(key).lines, other),
        l.with_value(key).header == l.header,
        other != key ==> manifest_edit::same_line(l.lines, l.without(key).lines, other),
        l.without(key).keys.contains(other) <==> l.keys.contains(other) && other != key,
        l.without(key).header == l.header,
{
    let p = data::other_than(key);
    let left = l.without(key).keys;
    assert(left == l.keys.filter(p));
    if left.contains(other) {
        let k = choose|k: int| 0 <= k < left.len() && left[k] == other;
        l.keys.lemma_filter_pred(p, k);
        l.keys.lemma_filter_contains_rev(p, other);
    }
    if l.keys.contains(other) && other != key {
        let k = choose|k: int| 0 <= k < l.keys.len() && l.keys[k] == other;
        l.keys.lemma_filter_contains(p, k);
    }
}

} // verus!
