//! Laws on scaffolding: which versions are read from a project's own files, and what a new manifest
//! holds.

use crate::commands::profile;
use crate::commands::scaffold;
use crate::data::Node;
use crate::laws::strings;
use crate::laws::strings::all_of;
use crate::plain_toml;
use crate::text;
use crate::text::Class;
use vstd::prelude::*;

verus! {

/// The white space at the end of a text, apart from the rest.
proof fn end_apart(s: Seq<char>) -> (n: int)
    ensures
        0 <= n <= s.len(),
        all_of(s.skip(n), Class::White),
        n > 0 ==> !Class::White.has(s[n - 1]),
    decreases s.len(),
{
    if s.len() > 0 && Class::White.has(s.last()) {
        let n = end_apart(s.drop_last());
        let run = s.skip(n);
        assert forall|i: int| 0 <= i < run.len() implies Class::White.has(#[trigger] run[i]) by {
            if i < run.len() - 1 {
                assert(run[i] == s.drop_last().skip(n)[i]);
            } else {
                assert(run[i] == s.last());
            }
        }
        if n > 0 {
            assert(s.drop_last()[n - 1] == s[n - 1]);
        }
        n
    } else {
        s.len() as int
    }
}

/// Trimming, dropping the operators and trimming again leaves what follows them.
proof fn past_the_operators(
    space: Seq<char>,
    operators: Seq<char>,
    gap: Seq<char>,
    kept: Seq<char>,
    end: Seq<char>,
)
    requires
        all_of(space, Class::White),
        all_of(operators, Class::Operator),
        all_of(gap, Class::White),
        all_of(end, Class::White),
        kept.len() > 0,
        !Class::White.has(kept[0]),
        !Class::Operator.has(kept[0]),
        !Class::White.has(kept.last()),
    ensures
        text::trimmed(
            text::drop_leading(
                text::trimmed(space + operators + gap + kept + end),
                Class::Operator,
            ),
        ) == kept,
{
    let raw = space + operators + gap + kept + end;
    if operators.len() == 0 {
        let front = space + gap;
        assert(raw =~= front + kept + end);
        assert forall|i: int| 0 <= i < front.len() implies Class::White.has(#[trigger] front[i]) by {
            if i < space.len() {
                assert(front[i] == space[i]);
            } else {
                assert(front[i] == gap[i - space.len()]);
            }
        }
        strings::trimming_gives_the_text_within(front, kept, end);
        strings::leading_runs_end_at_the_first_other(operators, kept, Class::Operator);
        assert(operators + kept =~= kept);
        strings::trimming_gives_the_text_within(Seq::empty(), kept, Seq::empty());
        assert(Seq::empty() + kept + Seq::empty() =~= kept);
    } else {
        let core = operators + gap + kept;
        assert(raw =~= space + core + end);
        assert(Class::Operator.has(operators[0]));
        assert(core[0] == operators[0]);
        assert(core.last() == kept.last());
        strings::trimming_gives_the_text_within(space, core, end);
        let behind = gap + kept;
        assert(core =~= operators + behind);
        if gap.len() > 0 {
            assert(Class::White.has(gap[0]));
            assert(behind[0] == gap[0]);
        } else {
            assert(behind[0] == kept[0]);
        }
        strings::leading_runs_end_at_the_first_other(operators, behind, Class::Operator);
        strings::trimming_gives_the_text_within(gap, kept, Seq::empty());
        assert(gap + kept + Seq::empty() =~= behind);
    }
}

/// The digits and dots at the front, without dots at their end.
proof fn digits_in_front(version: Seq<char>, dots: Seq<char>, tail: Seq<char>)
    requires
        all_of(version, Class::Version),
        version.len() > 0,
        version.last() != '.',
        all_of(dots, Class::Dot),
        tail.len() > 0 ==> !Class::Version.has(tail[0]),
    ensures
        text::drop_trailing(text::leading(version + dots + tail, Class::Version), Class::Dot)
            == version,
{
    let run = version + dots;
    assert forall|i: int| 0 <= i < run.len() implies Class::Version.has(#[trigger] run[i]) by {
        if i < version.len() {
            assert(run[i] == version[i]);
        } else {
            assert(run[i] == dots[i - version.len()]);
            assert(Class::Dot.has(dots[i - version.len()]));
        }
    }
    strings::leading_runs_end_at_the_first_other(run, tail, Class::Version);
    strings::trailing_runs_begin_behind_the_last_other(version, dots, Class::Dot);
}

/// A constraint is read past its operators and past the white space around them: the version is the
/// digits and dots that come next, without dots at their end.
pub proof fn constraints_are_read_past_their_operators(
    space: Seq<char>,
    operators: Seq<char>,
    gap: Seq<char>,
    version: Seq<char>,
    dots: Seq<char>,
    rest: Seq<char>,
)
    requires
        all_of(space, Class::White),
        all_of(operators, Class::Operator),
        all_of(gap, Class::White),
        all_of(version, Class::Version),
        version.len() > 0,
        version.last() != '.',
        all_of(dots, Class::Dot),
        rest.len() > 0 ==> !Class::Version.has(rest[0]),
    ensures
        scaffold::constraint_version(space + operators + gap + version + dots + rest) == Some(
            version,
        ),
{
    let raw = space + operators + gap + version + dots + rest;
    let run = version + dots;
    let n = end_apart(rest);
    let tail = rest.take(n);
    let end = rest.skip(n);
    let kept = run + tail;
    assert(Class::Version.has(version[0]));
    assert(Class::Version.has(version[version.len() - 1]));
    assert(kept[0] == version[0]);
    if tail.len() > 0 {
        assert(kept.last() == rest[n - 1]);
        assert(tail[0] == rest[0]);
    } else if dots.len() > 0 {
        assert(kept.last() == dots[dots.len() - 1]);
        assert(Class::Dot.has(dots[dots.len() - 1]));
    } else {
        assert(kept.last() == version[version.len() - 1]);
    }
    assert(raw =~= space + operators + gap + kept + end);
    past_the_operators(space, operators, gap, kept, end);
    digits_in_front(version, dots, tail);
}

/// Where neither a digit nor a dot follows the operators, there is no version.
pub proof fn constraints_without_digits_give_none(
    space: Seq<char>,
    operators: Seq<char>,
    gap: Seq<char>,
    rest: Seq<char>,
)
    requires
        all_of(space, Class::White),
        all_of(operators, Class::Operator),
        operators.len() > 0,
        all_of(gap, Class::White),
        rest.len() > 0,
        !Class::Version.has(rest[0]),
        !Class::White.has(rest[0]),
        !Class::Operator.has(rest[0]),
    ensures
        scaffold::constraint_version(space + operators + gap + rest) is None,
{
    let raw = space + operators + gap + rest;
    let n = end_apart(rest);
    if n == 0 {
        assert(rest.skip(0)[0] == rest[0]);
        assert(Class::White.has(rest.skip(0)[0]));
    }
    let kept = rest.take(n);
    let end = rest.skip(n);
    let core = operators + gap + kept;
    assert(raw =~= space + core + end);
    assert(Class::Operator.has(operators[0]));
    assert(core[0] == operators[0]);
    assert(core.last() == kept.last());
    strings::trimming_gives_the_text_within(space, core, end);
    let behind = gap + kept;
    assert(core =~= operators + behind);
    if gap.len() > 0 {
        assert(Class::White.has(gap[0]));
        assert(behind[0] == gap[0]);
    } else {
        assert(behind[0] == rest[0]);
    }
    strings::leading_runs_end_at_the_first_other(operators, behind, Class::Operator);
    assert(kept[0] == rest[0]);
    strings::trimming_gives_the_text_within(gap, kept, Seq::empty());
    assert(gap + kept + Seq::empty() =~= behind);
    strings::leading_runs_end_at_the_first_other(Seq::empty(), kept, Class::Version);
    assert(Seq::empty() + kept =~= kept);
    strings::trailing_runs_begin_behind_the_last_other(Seq::empty(), Seq::empty(), Class::Dot);
    assert(Seq::<char>::empty() + Seq::<char>::empty() =~= Seq::empty());
}

/// A value with one member.
pub open spec fn holding(key: Seq<char>, value: Node, others: Map<Seq<char>, Node>) -> Node {
    Node::Table(others.insert(key, value))
}

/// The constraint of each language is the string at its place in the project's own file, whatever
/// else the file holds. Python's stands in the project's own table, or, where that has none, in
/// poetry's.
pub proof fn constraints_stand_in_their_places(
    c: Seq<char>,
    inner: Map<Seq<char>, Node>,
    outer: Map<Seq<char>, Node>,
    deps: Map<Seq<char>, Node>,
    poetry: Map<Seq<char>, Node>,
    tool: Map<Seq<char>, Node>,
)
    ensures
        scaffold::php_constraint(
            holding("require"@, holding("php"@, Node::Text(c), inner), outer),
        ) == Some(c),
        scaffold::node_constraint(
            holding("engines"@, holding("node"@, Node::Text(c), inner), outer),
        ) == Some(c),
        scaffold::python_constraint(
            holding("project"@, holding("requires-python"@, Node::Text(c), inner), outer),
        ) == Some(c),
        !outer.contains_key("project"@) ==> scaffold::python_constraint(
            holding(
                "tool"@,
                holding(
                    "poetry"@,
                    holding("dependencies"@, holding("python"@, Node::Text(c), deps), poetry),
                    tool,
                ),
                outer,
            ),
        ) == Some(c),
        !outer.contains_key("require"@) ==> scaffold::php_constraint(Node::Table(outer)) is None,
        !outer.contains_key("engines"@) ==> scaffold::node_constraint(Node::Table(outer)) is None,
        !outer.contains_key("project"@) && !outer.contains_key("tool"@)
            ==> scaffold::python_constraint(Node::Table(outer)) is None,
{
    reveal_strlit("project");
    reveal_strlit("tool");
    assert("project"@.len() != "tool"@.len());
}

/// A new manifest holds the project's name and domain, one table of the languages and one of the
/// services, each only where some were given, and nothing else.
pub proof fn new_manifests_hold_what_was_given(
    name: Seq<char>,
    domain: Seq<char>,
    languages: Seq<(Seq<char>, Seq<char>)>,
    services: Seq<(Seq<char>, Seq<char>)>,
    key: Seq<char>,
    i: int,
)
    requires
        plain_toml::are_plain(languages),
        plain_toml::are_plain(services),
    ensures
        ({
            let m = scaffold::manifest_items(name, domain, languages, services);
            let project = m["project"@]->Table_0;
            &&& m["project"@] is Table
            &&& project.contains_key("name"@) && project["name"@] == Node::Text(name)
            &&& project.contains_key("domain"@) && project["domain"@] == Node::Text(domain)
            &&& project.contains_key(key) ==> key == "name"@ || key == "domain"@
            &&& m.contains_key(key) <==> key == "project"@ || (key == "language"@ && languages.len()
                > 0) || (key == "service"@ && services.len() > 0)
            &&& 0 <= i < languages.len() ==> m["language"@] is Table
                && m["language"@]->Table_0.contains_key(languages[i].0)
                && m["language"@]->Table_0[languages[i].0] == Node::Text(languages[i].1)
            &&& languages.len() > 0 && m["language"@]->Table_0.contains_key(key) ==> exists|j: int|
                0 <= j < languages.len() && (#[trigger] languages[j]).0 == key
            &&& 0 <= i < services.len() ==> m["service"@] is Table
                && m["service"@]->Table_0.contains_key(services[i].0)
                && m["service"@]->Table_0[services[i].0] == Node::Table(
                Map::empty().insert("version"@, Node::Text(services[i].1)),
            )
            &&& services.len() > 0 && m["service"@]->Table_0.contains_key(key) ==> exists|j: int|
                0 <= j < services.len() && (#[trigger] services[j]).0 == key
        }),
{
    reveal_strlit("project");
    reveal_strlit("language");
    reveal_strlit("service");
    reveal_strlit("name");
    reveal_strlit("domain");
    assert("project"@.len() == 7 && "service"@.len() == 7 && "project"@[0] != "service"@[0]);
    assert("language"@.len() == 8);
    assert("name"@.len() != "domain"@.len());
    plain_toml::items_are_the_pairs(languages);
    scaffold::services_are_held(services);
}

/// A saved profile holds the languages that it pins, and nothing else.
pub proof fn saved_profiles_hold_their_pins(
    languages: Seq<(Seq<char>, Seq<char>)>,
    key: Seq<char>,
    i: int,
)
    requires
        plain_toml::are_plain(languages),
    ensures
        ({
            let m = profile::profile_items(languages);
            &&& m.contains_key(key) <==> key == "language"@ && languages.len() > 0
            &&& 0 <= i < languages.len() ==> m["language"@] is Table
                && m["language"@]->Table_0.contains_key(languages[i].0)
                && m["language"@]->Table_0[languages[i].0] == Node::Text(languages[i].1)
            &&& languages.len() > 0 && m["language"@]->Table_0.contains_key(key) ==> exists|j: int|
                0 <= j < languages.len() && (#[trigger] languages[j]).0 == key
        }),
{
    plain_toml::items_are_the_pairs(languages);
}

/// Only `localhost` and what ends in `.localhost` resolves by itself.
pub proof fn only_localhost_resolves_by_itself(domain: Seq<char>, name: Seq<char>)
    ensures
        !scaffold::needs_dns("localhost"@),
        !scaffold::needs_dns(name + ".localhost"@),
        domain != "localhost"@ && (forall|n: Seq<char>| domain != #[trigger] (n + ".localhost"@))
            ==> scaffold::needs_dns(domain),
{
    strings::suffixes_are_endings(name, ".localhost"@, name + ".localhost"@);
    if text::has_suffix(domain, ".localhost"@) {
        let n = domain.take(domain.len() - ".localhost"@.len());
        assert(domain =~= n + ".localhost"@);
    }
}

/// What can stand in a new manifest as it is: a name or version without quotation marks,
/// backslashes and control characters, and a key of letters, digits, `_` and `-`, given once.
pub proof fn plain_choices_are_these(
    name: Seq<char>,
    domain: Seq<char>,
    languages: Seq<(Seq<char>, Seq<char>)>,
    services: Seq<(Seq<char>, Seq<char>)>,
)
    requires
        forall|i: int| 0 <= i < name.len() ==> stands_as_it_is(#[trigger] name[i]),
        forall|i: int| 0 <= i < domain.len() ==> stands_as_it_is(#[trigger] domain[i]),
        forall|i: int| 0 <= i < languages.len() ==> good_pair(#[trigger] languages[i]),
        forall|i: int| 0 <= i < services.len() ==> good_pair(#[trigger] services[i]),
        forall|i: int, j: int|
            0 <= i < j < languages.len() ==> (#[trigger] languages[i]).0 != (
            #[trigger] languages[j]).0,
        forall|i: int, j: int|
            0 <= i < j < services.len() ==> (#[trigger] services[i]).0 != (
            #[trigger] services[j]).0,
    ensures
        scaffold::plain_choices(name, domain, languages, services),
{
    assert forall|i: int| 0 <= i < name.len() implies plain_toml::is_printable(#[trigger] name[i])
        && name[i] != '"' && name[i] != '\\' by {
        assert(stands_as_it_is(name[i]));
    }
    assert forall|i: int| 0 <= i < domain.len() implies plain_toml::is_printable(
        #[trigger] domain[i],
    ) && domain[i] != '"' && domain[i] != '\\' by {
        assert(stands_as_it_is(domain[i]));
    }
    assert forall|i: int| 0 <= i < languages.len() implies plain_toml::is_bare(
        (#[trigger] languages[i]).0,
    ) && plain_toml::is_plain_string(languages[i].1) by {
        good_pairs_are_plain(languages[i]);
    }
    assert forall|i: int| 0 <= i < services.len() implies plain_toml::is_bare(
        (#[trigger] services[i]).0,
    ) && plain_toml::is_plain_string(services[i].1) by {
        good_pairs_are_plain(services[i]);
    }
}

proof fn good_pairs_are_plain(p: (Seq<char>, Seq<char>))
    requires
        good_pair(p),
    ensures
        plain_toml::is_bare(p.0),
        plain_toml::is_plain_string(p.1),
{
    let (key, value) = p;
    assert forall|i: int| 0 <= i < key.len() implies plain_toml::is_bare_char(
        #[trigger] key[i],
    ) by {
        assert(may_stand_bare(p.0[i]));
    }
    assert forall|i: int| 0 <= i < value.len() implies plain_toml::is_printable(#[trigger] value[i])
        && value[i] != '"' && value[i] != '\\' by {
        assert(stands_as_it_is(p.1[i]));
    }
}

/// A character that needs no escape between quotation marks.
pub open spec fn stands_as_it_is(c: char) -> bool {
    c as u32 >= 0x20 && c as u32 != 0x7f && c != '"' && c != '\\'
}

/// A character that a key without quotation marks may hold.
pub open spec fn may_stand_bare(c: char) -> bool {
    'a' <= c <= 'z' || 'A' <= c <= 'Z' || '0' <= c <= '9' || c == '_' || c == '-'
}

/// A key that needs no quotation marks, with a value that needs no escape.
pub open spec fn good_pair(p: (Seq<char>, Seq<char>)) -> bool {
    &&& p.0.len() > 0
    &&& forall|i: int| 0 <= i < p.0.len() ==> may_stand_bare(#[trigger] p.0[i])
    &&& forall|i: int| 0 <= i < p.1.len() ==> stands_as_it_is(#[trigger] p.1[i])
}

proof fn line_of_pair(pairs: Seq<(Seq<char>, Seq<char>)>, i: int)
    requires
        0 <= i < pairs.len(),
    ensures
        text::occurs_in(
            plain_toml::pair_lines(pairs),
            pairs[i].0 + " = \""@ + pairs[i].1 + "\"\n"@,
        ),
    decreases pairs.len(),
{
    let front = pairs.drop_last();
    let part = plain_toml::pair_lines(front);
    let whole = plain_toml::pair_lines(pairs);
    let last = pairs.last().0 + " = \""@ + pairs.last().1 + "\"\n"@;
    assert(whole =~= part + last);
    let x = pairs[i].0 + " = \""@ + pairs[i].1 + "\"\n"@;
    if i < front.len() {
        line_of_pair(front, i);
        assert(front[i] == pairs[i]);
        strings::occurrences_have_a_before_and_a_behind(Seq::empty(), x, Seq::empty(), part);
        let k = choose|k: int|
            0 <= k <= part.len() - x.len() && part == #[trigger] part.take(k) + x + part.skip(
                k + x.len(),
            );
        let behind = part.skip(k + x.len()) + last;
        assert(whole =~= part.take(k) + x + behind);
        strings::occurrences_have_a_before_and_a_behind(part.take(k), x, behind, whole);
    } else {
        assert(whole =~= part + x + Seq::empty());
        strings::occurrences_have_a_before_and_a_behind(part, x, Seq::empty(), whole);
    }
}

/// Whatever is given, the table of the languages has a line for each, under one header; without
/// languages there is none.
pub proof fn every_language_has_its_line(languages: Seq<(Seq<char>, Seq<char>)>, i: int)
    ensures
        languages.len() == 0 ==> scaffold::language_table(languages).len() == 0,
        languages.len() > 0 ==> text::has_prefix(
            scaffold::language_table(languages),
            "\n[language]\n"@,
        ),
        0 <= i < languages.len() ==> text::occurs_in(
            plain_toml::pair_lines(languages),
            languages[i].0 + " = \""@ + languages[i].1 + "\"\n"@,
        ),
{
    if languages.len() > 0 {
        let head = "\n[language]\n"@;
        strings::prefixes_are_beginnings(
            head,
            plain_toml::pair_lines(languages),
            scaffold::language_table(languages),
        );
    }
    if 0 <= i < languages.len() {
        line_of_pair(languages, i);
    }
}

} // verus!
