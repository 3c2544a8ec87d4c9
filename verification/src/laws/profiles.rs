//! Laws on profiles: their names, their pins, the search path, and which pin counts.

use crate::commands::profile;
use crate::commands::profile::{ArgsFault, InvocationText, NameError, Pinned};
use crate::laws::strings;
use crate::manifest::Manifest;
use crate::text;
use vstd::prelude::*;

verus! {

/// A profile can have any name of letters, digits, `-`, `_` and `.` that no subcommand has.
pub proof fn profile_names_are_plain_and_free(name: Seq<char>)
    ensures
        ({
            let reserved = seq!["list"@, "describe"@, "edit"@, "rm"@, "add"@, "remove"@];
            let plain = name.len() > 0 && forall|i: int|
                0 <= i < name.len() ==> {
                    let c = #[trigger] name[i];
                    'a' <= c <= 'z' || 'A' <= c <= 'Z' || '0' <= c <= '9' || seq![
                        '-',
                        '_',
                        '.',
                    ].contains(c)
                };
            &&& profile::name_fault(name) == Some(NameError::Malformed) <==> !plain
            &&& profile::name_fault(name) == Some(NameError::Reserved) <==> plain
                && reserved.contains(name)
            &&& profile::name_fault(name) is None <==> plain && !reserved.contains(name)
        }),
{
    let marks = seq!['-', '_', '.'];
    assert(marks[0] == '-' && marks[1] == '_' && marks[2] == '.');
    let reserved = seq!["list"@, "describe"@, "edit"@, "rm"@, "add"@, "remove"@];
    assert(reserved[0] == "list"@ && reserved[1] == "describe"@ && reserved[2] == "edit"@
        && reserved[3] == "rm"@ && reserved[4] == "add"@ && reserved[5] == "remove"@);
    if reserved.contains(name) {
        let i = choose|i: int| 0 <= i < reserved.len() && reserved[i] == name;
        assert(i == 0 || i == 1 || i == 2 || i == 3 || i == 4 || i == 5);
    }
    assert forall|c: char| #[trigger] profile::is_name_char(c) == ('a' <= c <= 'z' || 'A' <= c <= 'Z'
        || '0' <= c <= '9' || marks.contains(c)) by {
        if marks.contains(c) {
            let i = choose|i: int| 0 <= i < marks.len() && marks[i] == c;
            assert(i == 0 || i == 1 || i == 2);
        }
    }
    if profile::is_well_formed(name) {
        assert forall|i: int| 0 <= i < name.len() implies {
            let c = #[trigger] name[i];
            'a' <= c <= 'z' || 'A' <= c <= 'Z' || '0' <= c <= '9' || marks.contains(c)
        } by {
            assert(profile::is_name_char(name[i]));
        }
    }
    if name.len() > 0 && forall|i: int|
        0 <= i < name.len() ==> {
            let c = #[trigger] name[i];
            'a' <= c <= 'z' || 'A' <= c <= 'Z' || '0' <= c <= '9' || marks.contains(c)
        } {
        assert forall|i: int| 0 <= i < name.len() implies profile::is_name_char(
            #[trigger] name[i],
        ) by {
            let c = name[i];
            assert('a' <= c <= 'z' || 'A' <= c <= 'Z' || '0' <= c <= '9' || marks.contains(c));
        }
    }
}

/// A file is a saved profile exactly where it is called like one, with `.toml` behind the name.
pub proof fn profiles_are_files_of_their_name(file: Seq<char>, name: Seq<char>)
    ensures
        profile::profile_of_file(file) == Some(name) <==> name.len() > 0 && file == name + ".toml"@,
        (forall|n: Seq<char>| n.len() > 0 ==> file != #[trigger] (n + ".toml"@))
            ==> profile::profile_of_file(file) is None,
{
    strings::suffixes_are_endings(name, ".toml"@, file);
    if text::has_suffix(file, ".toml"@) {
        let n = file.take(file.len() - ".toml"@.len());
        assert(file =~= n + ".toml"@);
        assert(n.len() > 0 <==> file.len() > ".toml"@.len());
    }
}

proof fn filtered_holds(list: Seq<Seq<char>>, gone: Seq<Seq<char>>, d: Seq<char>)
    ensures
        profile::without(list, gone).contains(d) <==> list.contains(d) && !gone.contains(d),
{
    let p = profile::outside(gone);
    let left = profile::without(list, gone);
    if left.contains(d) {
        let i = choose|i: int| 0 <= i < left.len() && left[i] == d;
        list.lemma_filter_pred(p, i);
        list.lemma_filter_contains_rev(p, d);
    }
    if list.contains(d) && !gone.contains(d) {
        let i = choose|i: int| 0 <= i < list.len() && list[i] == d;
        list.lemma_filter_contains(p, i);
    }
}

/// A change of the default profile takes just the old directories off the search path and puts the
/// new ones in front, in their order; the user's own stay.
pub proof fn the_users_own_directories_stay(
    path: Seq<Seq<char>>,
    remove: Seq<Seq<char>>,
    add: Seq<Seq<char>>,
    d: Seq<char>,
    i: int,
)
    ensures
        ({
            let after = profile::moved(path, remove, add);
            &&& 0 <= i < add.len() ==> after[i] == add[i]
            &&& path.contains(d) && !remove.contains(d) ==> after.contains(d)
            &&& after.contains(d) ==> add.contains(d) || (path.contains(d) && !remove.contains(d))
            &&& add.contains(d) ==> after.contains(d)
            &&& (forall|k: int| 0 <= k < path.len() ==> !remove.contains(#[trigger] path[k]))
                ==> after == add + path
        }),
{
    let after = profile::moved(path, remove, add);
    let kept = profile::without(path, remove);
    filtered_holds(path, remove, d);
    if kept.contains(d) {
        let k = choose|k: int| 0 <= k < kept.len() && kept[k] == d;
        assert(after[add.len() + k] == d);
    }
    if add.contains(d) {
        let k = choose|k: int| 0 <= k < add.len() && add[k] == d;
        assert(after[k] == d);
    }
    if after.contains(d) {
        let k = choose|k: int| 0 <= k < after.len() && after[k] == d;
        if k < add.len() {
            assert(add[k] == d);
        } else {
            assert(kept[k - add.len()] == d);
        }
    }
    if forall|k: int| 0 <= k < path.len() ==> !remove.contains(#[trigger] path[k]) {
        nothing_to_remove(path, remove);
    }
}

proof fn nothing_to_remove(path: Seq<Seq<char>>, remove: Seq<Seq<char>>)
    requires
        forall|k: int| 0 <= k < path.len() ==> !remove.contains(#[trigger] path[k]),
    ensures
        profile::without(path, remove) == path,
    decreases path.len(),
{
    reveal(Seq::filter);
    if path.len() > 0 {
        let front = path.drop_last();
        assert forall|k: int| 0 <= k < front.len() implies !remove.contains(#[trigger] front[k]) by {
            assert(front[k] == path[k]);
        }
        nothing_to_remove(front, remove);
        assert(!remove.contains(path[path.len() - 1]));
        assert(front.push(path.last()) =~= path);
    } else {
        assert(profile::without(path, remove) =~= path);
    }
}

/// A default profile is remembered by its name with the directories it put on the search path; to
/// have none is to have no directories.
pub proof fn defaults_are_remembered_with_their_directories(
    name: Seq<char>,
    dirs: Seq<Seq<char>>,
)
    ensures
        profile::new_default(Some(name), dirs).name == Some(name),
        profile::new_default(Some(name), dirs).dirs == dirs,
        profile::new_default(None, dirs).name is None,
        profile::new_default(None, dirs).dirs.len() == 0,
{
}

proof fn first_place_is(args: Seq<Seq<char>>, arg: Seq<char>, i: int)
    requires
        0 <= i <= args.len(),
        forall|j: int| 0 <= j < i ==> (#[trigger] args[j]) != arg,
        i < args.len() ==> args[i] == arg,
    ensures
        profile::first_place(args, arg) == i,
    decreases args.len(),
{
    if i > 0 {
        let rest = args.skip(1);
        assert(args[0] != arg);
        assert forall|j: int| 0 <= j < i - 1 implies (#[trigger] rest[j]) != arg by {
            assert(rest[j] == args[j + 1]);
        }
        if i < args.len() {
            assert(rest[i - 1] == args[i]);
        }
        first_place_is(rest, arg, i - 1);
    }
}

/// A profile alone is activated; with `--exec` behind it, the argument behind that is run with it.
/// Without a name, without a command behind `--exec`, or with anything else behind the name, the
/// call is refused.
pub proof fn profiles_are_activated_or_run_with(
    args: Seq<Seq<char>>,
    i: int,
)
    ensures
        args.len() == 0 ==> profile::activation(args) == Err::<InvocationText, _>(
            ArgsFault::NoName,
        ),
        args.len() == 1 && args[0] != "--exec"@ ==> profile::activation(args) == Ok::<_, ArgsFault>(
            InvocationText::Activate(args[0]),
        ),
        0 <= i < args.len() && args[i] == "--exec"@ && (forall|j: int|
            0 <= j < i ==> (#[trigger] args[j]) != "--exec"@) ==> profile::activation(args) == if i
            + 1 < args.len() {
            Ok::<_, ArgsFault>(InvocationText::Exec(args[0], args[i + 1]))
        } else {
            Err(ArgsFault::NoCommand)
        },
        args.len() > 1 && (forall|j: int|
            0 <= j < args.len() ==> (#[trigger] args[j]) != "--exec"@) ==> profile::activation(args)
            == Err::<InvocationText, _>(ArgsFault::Extra(args.skip(1))),
{
    if args.len() == 1 && args[0] != "--exec"@ {
        first_place_is(args, "--exec"@, 1);
    }
    if 0 <= i < args.len() && args[i] == "--exec"@ && (forall|j: int|
        0 <= j < i ==> (#[trigger] args[j]) != "--exec"@) {
        first_place_is(args, "--exec"@, i);
    }
    if forall|j: int| 0 <= j < args.len() ==> (#[trigger] args[j]) != "--exec"@ {
        first_place_is(args, "--exec"@, args.len() as int);
    }
}

/// A profile is only ever activated, or run with, under a name that it can have.
pub proof fn bad_names_are_refused(args: Seq<Seq<char>>)
    ensures
        profile::checked_activation(args) matches Ok(i) ==> profile::activation(args) == Ok::<
            _,
            ArgsFault,
        >(i) && match i {
            InvocationText::Activate(n) => profile::name_fault(n) is None,
            InvocationText::Exec(n, _) => profile::name_fault(n) is None,
        },
        profile::activation(args) is Err ==> profile::checked_activation(args)
            == profile::activation(args),
        args.len() > 0 && profile::name_fault(args[0]) is None ==> profile::checked_activation(args)
            == profile::activation(args),
{
}

/// A pin is a name and a version with `@` between them; the version may hold further ones.
pub proof fn pins_are_names_at_versions(name: Seq<char>, version: Seq<char>)
    requires
        !name.contains('@'),
    ensures
        profile::pin_of(name + seq!['@'] + version) == Some((name, version)),
        profile::pin_of(name) is None,
{
    let s = name + seq!['@'] + version;
    strings::first_places_are_first(name, '@', version);
    assert(s.take(name.len() as int) =~= name);
    assert(s.skip(name.len() + 1int) =~= version);
}

/// Pins are read in order, each without the white space around it, up to the first that is none,
/// which is told.
pub proof fn pins_are_read_up_to_the_first_bad_one(specs: Seq<Seq<char>>, k: int)
    requires
        0 <= k <= specs.len(),
        forall|i: int| 0 <= i < k ==> profile::pin_of(text::trimmed(#[trigger] specs[i])) is Some,
        k < specs.len() ==> profile::pin_of(text::trimmed(specs[k])) is None,
    ensures
        profile::pins_of(specs).0.len() == k,
        forall|i: int|
            0 <= i < k ==> Some(#[trigger] profile::pins_of(specs).0[i]) == profile::pin_of(
                text::trimmed(specs[i]),
            ),
        profile::pins_of(specs).1 == if k < specs.len() {
            Some(text::trimmed(specs[k]))
        } else {
            None
        },
    decreases specs.len(),
{
    if specs.len() > 0 {
        let front = specs.drop_last();
        let n = if k <= front.len() {
            k
        } else {
            k - 1
        };
        assert forall|i: int| 0 <= i < n implies profile::pin_of(text::trimmed(#[trigger] front[i]))
            is Some by {
            assert(front[i] == specs[i]);
        }
        if n < front.len() {
            assert(front[n] == specs[n]);
        }
        pins_are_read_up_to_the_first_bad_one(front, n);
        assert(specs.last() == specs[specs.len() - 1]);
        let before = profile::pins_of(front).0;
        let all = profile::pins_of(specs).0;
        assert forall|i: int| 0 <= i < k implies Some(#[trigger] all[i]) == profile::pin_of(
            text::trimmed(specs[i]),
        ) by {
            if i < before.len() {
                assert(all[i] == before[i]);
                assert(front[i] == specs[i]);
            }
        }
    }
}

/// Activating a profile tells the shell its name, or, for pins without one, their directories; and
/// where there are directories they come in front of the search path.
pub proof fn activation_puts_the_directories_in_front(
    cmd: bool,
    name: Option<Seq<char>>,
    joined: Seq<char>,
    has_dirs: bool,
    current: Seq<char>,
)
    ensures
        ({
            let shown = profile::activation_text(cmd, name, joined, has_dirs, current);
            &&& shown.len() == (if cmd {
                1int
            } else {
                2
            }) + (if has_dirs {
                1int
            } else {
                0
            })
            &&& name matches Some(n) ==> text::occurs_in(shown[0], n) && text::occurs_in(
                shown[0],
                "STACK_ACTIVE_PROFILE"@,
            )
            &&& name is None ==> text::occurs_in(shown[0], joined)
            &&& has_dirs && cmd ==> shown.last() == "SET PATH="@ + joined + ";"@ + current
            &&& has_dirs && !cmd ==> shown.last() == "$env:PATH = \""@ + joined
                + ";\" + $env:PATH"@
        }),
{
    let shown = profile::activation_text(cmd, name, joined, has_dirs, current);
    let var = "STACK_ACTIVE_PROFILE"@;
    match name {
        Some(n) => {
            if cmd {
                let head = "SET STACK_ACTIVE_PROFILE="@;
                strings::occurrences_have_a_before_and_a_behind(head, n, Seq::empty(), shown[0]);
                assert(head + n + Seq::empty() =~= shown[0]);
                reveal_strlit("SET STACK_ACTIVE_PROFILE=");
                reveal_strlit("STACK_ACTIVE_PROFILE");
                reveal_strlit("SET ");
                reveal_strlit("=");
                assert(head =~= "SET "@ + var + "="@);
                assert(shown[0] =~= "SET "@ + var + ("="@ + n));
                strings::occurrences_have_a_before_and_a_behind("SET "@, var, "="@ + n, shown[0]);
            } else {
                let head = "$env:STACK_ACTIVE_PROFILE = \""@;
                strings::occurrences_have_a_before_and_a_behind(head, n, "\""@, shown[0]);
                reveal_strlit("$env:STACK_ACTIVE_PROFILE = \"");
                reveal_strlit("STACK_ACTIVE_PROFILE");
                reveal_strlit("$env:");
                reveal_strlit(" = \"");
                assert(head =~= "$env:"@ + var + " = \""@);
                assert(shown[0] =~= "$env:"@ + var + (" = \""@ + n + "\""@));
                strings::occurrences_have_a_before_and_a_behind(
                    "$env:"@,
                    var,
                    " = \""@ + n + "\""@,
                    shown[0],
                );
            }
        },
        None => {
            if cmd {
                let head = "SET STACK_ACTIVE_PROFILE_PATHS="@;
                strings::occurrences_have_a_before_and_a_behind(
                    head,
                    joined,
                    Seq::empty(),
                    shown[0],
                );
                assert(head + joined + Seq::empty() =~= shown[0]);
            } else {
                let head = "$env:STACK_ACTIVE_PROFILE_PATHS = \""@;
                strings::occurrences_have_a_before_and_a_behind(head, joined, "\""@, shown[0]);
            }
        },
    }
}

/// A language of the current project counts first, then a tool of it that is installed, then a
/// language of the profile; nothing else pins.
pub proof fn the_nearest_pin_counts(
    name: Seq<char>,
    project: Option<Manifest>,
    tool_binary: Option<Seq<char>>,
    profile: Option<(Seq<char>, Manifest)>,
)
    ensures
        ({
            let language = project is Some && project->0.language@.contains_key(name);
            let tool = project is Some && project->0.tool@.contains_key(name) && tool_binary is Some;
            let by_profile = profile is Some && (profile->0).1.language@.contains_key(name);
            let pinned = profile::pinned_by(name, project, tool_binary, profile);
            &&& language ==> pinned == Pinned::ByProject(project->0.project.name@)
            &&& !language && tool ==> pinned == Pinned::ProjectTool(project->0.project.name@)
            &&& !language && !tool && by_profile ==> pinned == Pinned::ByProfile((profile->0).0)
            &&& !language && !tool && !by_profile ==> pinned == Pinned::Nothing
        }),
{
}

/// What a name resolves to is shown with the binary, where there is one, and with whose pin it is.
pub proof fn which_shows_the_binary_and_whose_pin_it_is(
    name: Seq<char>,
    owner: Seq<char>,
    version: Option<Seq<char>>,
    language: Option<Seq<char>>,
    tool: Seq<char>,
    profile: Option<Seq<char>>,
)
    ensures
        language matches Some(b) ==> profile::which_text(
            name,
            Pinned::ByProject(owner),
            version,
            language,
            Some(tool),
            profile,
        ) == name + ": "@ + b + " (project '"@ + owner + "')"@,
        profile::which_text(
            name,
            Pinned::ProjectTool(owner),
            version,
            language,
            Some(tool),
            profile,
        ) == name + ": "@ + tool + " (tool, project '"@ + owner + "')"@,
        profile matches Some(b) ==> profile::which_text(
            name,
            Pinned::ByProfile(owner),
            version,
            language,
            Some(tool),
            profile,
        ) == name + ": "@ + b + " (profile '"@ + owner + "')"@,
        language is None ==> {
            let shown = profile::which_text(
                name,
                Pinned::ByProject(owner),
                version,
                language,
                Some(tool),
                profile,
            );
            &&& text::has_suffix(shown, ") but not installed yet"@)
            &&& version matches Some(v) ==> text::occurs_in(shown, v)
            &&& text::occurs_in(shown, owner)
        },
{
    if language is None {
        let v = match version {
            Some(v) => v,
            None => "?"@,
        };
        let a = name + ": pinned by project '"@;
        let shown = a + owner + "' ("@ + v + ") but not installed yet"@;
        strings::suffixes_are_endings(a + owner + "' ("@ + v, ") but not installed yet"@, shown);
        strings::occurrences_have_a_before_and_a_behind(
            a + owner + "' ("@,
            v,
            ") but not installed yet"@,
            shown,
        );
        let behind = "' ("@ + v + ") but not installed yet"@;
        assert(shown =~= a + owner + behind);
        strings::occurrences_have_a_before_and_a_behind(a, owner, behind, shown);
    }
}

/// The version that a manifest pins a name to is that of its language entry.
pub proof fn pinned_versions_are_those_declared(m: Manifest, name: Seq<char>)
    ensures
        m.language@.contains_key(name) ==> profile::pinned_version(Some(m), name)
            == m.language@[name].version_text(),
        !m.language@.contains_key(name) ==> profile::pinned_version(Some(m), name) is None,
        profile::pinned_version(None, name) is None,
{
}

} // verus!
