//! Profiles: named sets of pinned languages and tools that a shell can be put into without a
//! project.

use crate::commands::scaffold;
use crate::data;
use crate::data::Node;
use crate::location;
use crate::location::JoinedPath;
use crate::manifest::Manifest;
use crate::ordered_map;
use crate::ordered_map::OrderedMap;
use crate::plain_toml;
use crate::plain_toml::{Document, Section};
use crate::process;
use crate::process::{CommandError, Invocation};
use crate::projects;
use crate::text;
use crate::words;
use vstd::prelude::*;

verus! {

/// The names that are subcommands of `stack profile`.
pub const RESERVED_PROFILE_NAMES: [&'static str; 6] = [
    "list",
    "describe",
    "edit",
    "rm",
    "add",
    "remove",
];

/// A character that a profile's name may hold.
pub open spec fn is_name_char(c: char) -> bool {
    ||| 'a' <= c <= 'z'
    ||| 'A' <= c <= 'Z'
    ||| '0' <= c <= '9'
    ||| c == '-'
    ||| c == '_'
    ||| c == '.'
}

/// A name that is not empty and holds nothing but letters, digits, dashes, underscores and dots.
pub open spec fn is_well_formed(name: Seq<char>) -> bool {
    name.len() > 0 && forall|i: int| 0 <= i < name.len() ==> is_name_char(#[trigger] name[i])
}

/// A name that is a subcommand.
pub open spec fn is_reserved(name: Seq<char>) -> bool {
    name == "list"@ || name == "describe"@ || name == "edit"@ || name == "rm"@ || name == "add"@
        || name == "remove"@
}

/// Why a name is no name for a profile.
#[derive(Debug, PartialEq, Eq, Structural)]
pub enum NameError {
    Malformed,
    Reserved,
}

impl NameError {
    /// What is reported to the user.
    pub open spec fn report(self, name: Seq<char>) -> Seq<char> {
        match self {
            NameError::Malformed => "profile name '"@ + name
                + "' isn't valid — use letters, digits, '-', '_', or '.' only"@,
            NameError::Reserved => "'"@ + name + "' is reserved for `stack profile "@ + name
                + " <...>` — pick a different profile name"@,
        }
    }

    /// What is reported to the user.
    pub fn message(&self, name: &str) -> (r: String)
        ensures
            r@ == self.report(name@),
    {
        match self {
            NameError::Malformed => {
                let mut r = "profile name '".to_owned();
                r.append(name);
                r.append("' isn't valid — use letters, digits, '-', '_', or '.' only");
                r
            },
            NameError::Reserved => {
                let mut r = "'".to_owned();
                r.append(name);
                r.append("' is reserved for `stack profile ");
                r.append(name);
                r.append(" <...>` — pick a different profile name");
                r
            },
        }
    }
}

/// What is wrong with a profile's name, if anything is.
pub open spec fn name_fault(name: Seq<char>) -> Option<NameError> {
    if !is_well_formed(name) {
        Some(NameError::Malformed)
    } else if is_reserved(name) {
        Some(NameError::Reserved)
    } else {
        None
    }
}

/// Refuses what is no name for a profile.
pub fn validate_profile_name(name: &str) -> (r: Result<(), NameError>)
    ensures
        match r {
            Ok(_) => name_fault(name@) is None,
            Err(e) => name_fault(name@) == Some(e),
        },
{
    let v = text::chars_of(name);
    if v.len() == 0 {
        return Err(NameError::Malformed);
    }
    let mut i: usize = 0;
    while i < v.len()
        invariant
            i <= v@.len(),
            v@ == name@,
            forall|j: int| 0 <= j < i ==> is_name_char(#[trigger] v@[j]),
        decreases v@.len() - i,
    {
        let c = v[i];
        let n: u32 = text::code_point(c);
        let ok = (0x61 <= n && n <= 0x7a) || (0x41 <= n && n <= 0x5a) || (0x30 <= n && n <= 0x39)
            || c == '-' || c == '_' || c == '.';
        if !ok {
            assert(!is_name_char(v@[i as int]));
            return Err(NameError::Malformed);
        }
        i += 1;
    }
    if text::same(name, "list") || text::same(name, "describe") || text::same(name, "edit")
        || text::same(name, "rm") || text::same(name, "add") || text::same(name, "remove") {
        return Err(NameError::Reserved);
    }
    Ok(())
}

/// The file of a valid profile lies in the directory of the profiles: its name holds no path
/// separator and no drive, and is neither the directory itself nor its parent.
pub proof fn profiles_stay_in_their_directory(name: Seq<char>)
    requires
        name_fault(name) is None,
    ensures
        ({
            let file = name + ".toml"@;
            &&& !file.contains('/')
            &&& !file.contains('\\')
            &&& !file.contains(':')
            &&& file != "."@
            &&& file != ".."@
        }),
{
    reveal_strlit(".toml");
    reveal_strlit(".");
    reveal_strlit("..");
    let file = name + ".toml"@;
    assert forall|i: int| 0 <= i < file.len() implies file[i] != '/' && file[i] != '\\' && file[i]
        != ':' by {
        if i < name.len() {
            assert(file[i] == name[i]);
            assert(is_name_char(name[i]));
        } else {
            assert(file[i] == ".toml"@[i - name.len()]);
        }
    }
    assert(file.len() > 5);
}

/// Where profiles are kept.
pub open spec fn profiles(home: Seq<char>) -> location::PathText {
    location::stack_dir(home).join("profiles"@)
}

/// Where profiles are kept: `~/.stack/profiles`.
pub fn profiles_dir(home: &str) -> (r: JoinedPath)
    ensures
        r@ == profiles(home@),
{
    location::stack_directory(home).join("profiles")
}

/// Where a profile is kept.
pub fn profile_file_path(home: &str, name: &str) -> (r: JoinedPath)
    ensures
        r@ == profiles(home@).join(name@ + ".toml"@),
{
    let mut file = name.to_owned();
    file.append(".toml");
    profiles_dir(home).join(file.as_str())
}

/// Where the default profile is recorded.
pub fn default_profile_record_path(home: &str) -> (r: JoinedPath)
    ensures
        r@ == location::stack_dir(home@).join("default_profile.json"@),
{
    location::stack_directory(home).join("default_profile.json")
}

/// What is wanted with a profile that does not exist.
#[derive(Debug, PartialEq, Eq, Structural)]
pub enum Purpose {
    Load,
    Edit,
    Remove,
    Add,
}

/// What is reported where a profile does not exist.
pub fn no_profile_message(name: &str, purpose: Purpose) -> (r: String)
    ensures
        r@ == "no saved profile named '"@ + name@ + match purpose {
            Purpose::Load => "' — run `stack profile` to create one, or `stack profile list` to see what exists"@,
            Purpose::Edit => "' — run `stack profile` to create one"@,
            Purpose::Remove => "'"@,
            Purpose::Add => "' — run `stack profile` to create one first"@,
        },
{
    let mut r = "no saved profile named '".to_owned();
    r.append(name);
    match purpose {
        Purpose::Load => {
            r.append(
                "' — run `stack profile` to create one, or `stack profile list` to see what exists",
            );
        },
        Purpose::Edit => {
            r.append("' — run `stack profile` to create one");
        },
        Purpose::Remove => {
            r.append("'");
        },
        Purpose::Add => {
            r.append("' — run `stack profile` to create one first");
        },
    }
    r
}

/// The profile that a file stands for: its name without `.toml`. A file that is called nothing but
/// that stands for none.
pub open spec fn profile_of_file(file: Seq<char>) -> Option<Seq<char>> {
    if text::has_suffix(file, ".toml"@) && file.len() > ".toml"@.len() {
        Some(text::without_suffix(file, ".toml"@))
    } else {
        None
    }
}

/// Some file stands for the profile.
pub open spec fn is_saved(files: Seq<Seq<char>>, name: Seq<char>) -> bool {
    exists|i: int| #![trigger files[i]] 0 <= i < files.len() && profile_of_file(files[i]) == Some(name)
}

/// The saved profiles, by the files of their directory, in ascending order.
pub fn list_names(files: &Vec<String>) -> (r: Vec<String>)
    ensures
        ordered_map::ascending_texts(text::texts(r@)),
        forall|w: Seq<char>| #[trigger]
            text::texts(r@).contains(w) == is_saved(text::texts(files@), w),
{
    proof {
        reveal_strlit(".toml");
    }
    let ghost all = text::texts(files@);
    let mut found: OrderedMap<()> = OrderedMap::new();
    let mut i: usize = 0;
    while i < files.len()
        invariant
            i <= files@.len(),
            all == text::texts(files@),
            forall|w: Seq<char>| #[trigger]
                found@.contains_key(w) == is_saved(all.take(i as int), w),
        decreases files@.len() - i,
    {
        let ghost before = found@;
        let stem = file_profile(files[i].as_str());
        let ghost said = text::opt_text(stem);
        match stem {
            Some(s) => {
                found.insert(s, ());
            },
            None => {},
        }
        proof {
            assert(all[i as int] == files@[i as int]@);
            assert forall|w: Seq<char>| #[trigger]
                found@.contains_key(w) == is_saved(all.take(i + 1), w) by {
                let part = all.take(i as int);
                let whole = all.take(i + 1);
                if is_saved(part, w) {
                    let k = choose|k: int|
                        #![trigger part[k]]
                        0 <= k < part.len() && profile_of_file(part[k]) == Some(w);
                    assert(whole[k] == part[k]);
                }
                if is_saved(whole, w) {
                    let k = choose|k: int|
                        #![trigger whole[k]]
                        0 <= k < whole.len() && profile_of_file(whole[k]) == Some(w);
                    if k < i {
                        assert(part[k] == whole[k]);
                    }
                }
                assert(whole[i as int] == all[i as int]);
                assert(before.contains_key(w) == is_saved(part, w));
            }
        }
        i += 1;
    }
    assert(all.take(i as int) =~= all);
    let r = found.members();
    proof {
        assert forall|w: Seq<char>| #[trigger] text::texts(r@).contains(w) == is_saved(all, w) by {
            assert(found@.contains_key(w) == is_saved(all, w));
        }
    }
    r
}

/// The profile that a file stands for.
fn file_profile(file: &str) -> (r: Option<String>)
    ensures
        text::opt_text(r) == profile_of_file(file@),
{
    proof {
        reveal_strlit(".toml");
        if text::has_suffix(file@, ".toml"@) && file@.len() == 5 {
            assert(file@.skip(0) =~= file@);
        }
    }
    if text::ends_with(file, ".toml") && !text::same(file, ".toml") {
        Some(text::strip_suffix(file, ".toml"))
    } else {
        None
    }
}

/// A saved profile is listed: its own file stands for it.
pub proof fn saved_profiles_are_listed(name: Seq<char>)
    requires
        name_fault(name) is None,
    ensures
        profile_of_file(name + ".toml"@) == Some(name),
{
    let file = name + ".toml"@;
    assert(file.skip(name.len() as int) =~= ".toml"@);
    assert(file.take(name.len() as int) =~= name);
}

/// What a saved profile begins with.
pub const PROFILE_HEAD: &'static str = "# stack profile — managed by `stack profile`, hand-editable via `stack profile edit <name>`\n";

/// A profile that pins languages.
pub fn build_profile_toml(languages: &Vec<(String, String)>) -> (r: String)
    ensures
        r@ == PROFILE_HEAD@ + scaffold::language_table(projects::pair_texts(languages@)),
{
    let mut r = PROFILE_HEAD.to_owned();
    r.append(scaffold::write_languages(languages).as_str());
    r
}

/// What a saved profile holds: the languages that it pins, and nothing else.
pub open spec fn profile_items(languages: Seq<(Seq<char>, Seq<char>)>) -> Map<Seq<char>, Node> {
    if languages.len() == 0 {
        Map::empty()
    } else {
        Map::empty().insert("language"@, Node::Table(plain_toml::pair_items(languages)))
    }
}

proof fn head_is_filler()
    ensures
        plain_toml::is_filler(PROFILE_HEAD@),
        plain_toml::is_filler(PROFILE_HEAD@ + "\n"@),
{
    reveal_strlit("\n");
    reveal_strlit("# stack profile — managed by `stack profile`, hand-editable via `stack profile edit <name>`\n");
    let c = PROFILE_HEAD@;
    assert(c.len() == 92);
    reveal_with_fuel(plain_toml::goes_on_from, 26);
    assert(plain_toml::goes_on_from(c, 75));
    assert(plain_toml::goes_on_from(c, 50));
    assert(plain_toml::goes_on_from(c, 25));
    assert(plain_toml::goes_on_from(c, 0));
    assert forall|k: int| 0 <= k < c.len() implies #[trigger] plain_toml::goes_on(c, k) by {
        plain_toml::goes_on_throughout(c, 0, k);
    }
    let d = c + "\n"@;
    assert forall|k: int| 0 <= k < d.len() implies #[trigger] plain_toml::goes_on(d, k) by {
        if k < c.len() {
            assert(plain_toml::goes_on(c, k));
            assert(d[k] == c[k]);
            if k + 1 < c.len() {
                assert(d[k + 1] == c[k + 1]);
            }
        }
    }
    assert(d.last() == '\n');
}

/// A saved profile is a plain document of the languages that it pins.
proof fn profile_is_plain(languages: Seq<(Seq<char>, Seq<char>)>) -> (doc: Document)
    requires
        plain_toml::are_plain(languages),
    ensures
        doc.is_plain(),
        doc.text() == PROFILE_HEAD@ + scaffold::language_table(languages),
        plain_toml::section_items(doc.sections) == profile_items(languages),
{
    head_is_filler();
    if languages.len() == 0 {
        let doc = Document { before: PROFILE_HEAD@, sections: Seq::empty(), after: Seq::empty() };
        assert(doc.text() =~= PROFILE_HEAD@ + scaffold::language_table(languages));
        doc
    } else {
        let only = Section { key: "language"@, below: None, pairs: languages };
        let doc = Document {
            before: PROFILE_HEAD@ + "\n"@,
            sections: seq![only],
            after: Seq::empty(),
        };
        reveal_strlit("\n");
        reveal_strlit("[");
        reveal_strlit("language");
        reveal_strlit("]\n");
        reveal_strlit("\n[language]\n");
        assert("\n[language]\n"@ =~= "\n"@ + "["@ + "language"@ + "]\n"@);
        assert(plain_toml::is_bare("language"@));
        assert(only.is_plain());
        assert(scaffold::language_table(languages) =~= "\n"@ + only.text());
        assert(doc.text() =~= PROFILE_HEAD@ + scaffold::language_table(languages));
        assert(doc.sections.drop_last() =~= Seq::empty());
        assert(plain_toml::section_items(doc.sections.drop_last()) =~= Map::empty());
        doc
    }
}

/// A profile that pins languages, and whether it can be read. Where the names are bare keys, each
/// given once, and the versions can stand in quotation marks as they are, it is read as just what
/// was given.
pub fn new_profile(languages: &Vec<(String, String)>) -> (r: (String, bool))
    ensures
        r.0@ == PROFILE_HEAD@ + scaffold::language_table(projects::pair_texts(languages@)),
        r.1 == (data::toml_parsed(r.0@) is Some),
        plain_toml::are_plain(projects::pair_texts(languages@)) ==> data::toml_parsed(r.0@) == Some(
            Node::Table(profile_items(projects::pair_texts(languages@))),
        ),
{
    let text = build_profile_toml(languages);
    let readable = data::parse_toml(text.as_str()).is_some();
    proof {
        let all = projects::pair_texts(languages@);
        if plain_toml::are_plain(all) {
            let doc = profile_is_plain(all);
            assert(doc.text() == text@);
        }
    }
    (text, readable)
}

/// The default profile, and the directories that stack put on the user's search path for it.
#[derive(Debug)]
pub struct DefaultProfileRecord {
    pub name: Option<String>,
    /// Kept so that a later change takes away exactly these, and nothing of the user's own.
    pub injected_dirs: Vec<String>,
}

/// The characters of a default profile and of its directories.
#[verifier::ext_equal]
pub struct DefaultText {
    pub name: Option<Seq<char>>,
    pub dirs: Seq<Seq<char>>,
}

impl View for DefaultProfileRecord {
    type V = DefaultText;

    open spec fn view(&self) -> DefaultText {
        DefaultText { name: text::opt_text(self.name), dirs: text::texts(self.injected_dirs@) }
    }
}

impl Default for DefaultProfileRecord {
    /// There is no default profile.
    fn default() -> (r: DefaultProfileRecord)
        ensures
            r@ == (DefaultText { name: None, dirs: Seq::empty() }),
    {
        let r = DefaultProfileRecord { name: None, injected_dirs: Vec::new() };
        assert(r@ =~= DefaultText { name: None, dirs: Seq::empty() });
        r
    }
}

/// What has to change on the user's search path.
#[derive(Debug)]
pub struct PathChange {
    pub remove: Vec<String>,
    pub add: Vec<String>,
}

/// The record of a default profile whose binaries stand in some directories, or of there being
/// none.
pub open spec fn new_default(name: Option<Seq<char>>, dirs: Seq<Seq<char>>) -> DefaultText {
    DefaultText {
        name,
        dirs: if name is Some {
            dirs
        } else {
            Seq::empty()
        },
    }
}

/// Makes a profile the default one, with the directories of its binaries, or makes that there is
/// none. What was put on the search path for the old one goes. Where the name is not valid,
/// nothing changes.
pub fn set_default_profile(
    record: &mut DefaultProfileRecord,
    name: Option<&str>,
    dirs: Vec<String>,
) -> (r: Result<PathChange, NameError>)
    ensures
        match r {
            Err(e) => name is Some && name_fault(name->0@) == Some(e) && *final(record) == *old(
                record,
            ),
            Ok(change) => {
                &&& name matches Some(n) ==> name_fault(n@) is None
                &&& final(record)@ == new_default(text::opt_str(name), text::texts(dirs@))
                &&& text::texts(change.remove@) == old(record)@.dirs
                &&& text::texts(change.add@) == final(record)@.dirs
            },
        },
{
    match name {
        Some(n) => match validate_profile_name(n) {
            Err(e) => {
                return Err(e);
            },
            Ok(_) => {},
        },
        None => {},
    }
    let mut old_dirs: Vec<String> = Vec::new();
    std::mem::swap(&mut old_dirs, &mut record.injected_dirs);
    let added = match name {
        Some(_) => dirs,
        None => Vec::new(),
    };
    proof {
        if name is None {
            assert(text::texts(added@) =~= Seq::empty());
        }
    }
    record.name = match name {
        Some(n) => Some(n.to_owned()),
        None => None,
    };
    record.injected_dirs = text::copy_list(&added);
    Ok(PathChange { remove: old_dirs, add: added })
}

/// What is not in a list.
pub open spec fn outside(list: Seq<Seq<char>>) -> spec_fn(Seq<char>) -> bool {
    |d: Seq<char>| !list.contains(d)
}

/// A list without the members of another.
pub open spec fn without(list: Seq<Seq<char>>, gone: Seq<Seq<char>>) -> Seq<Seq<char>> {
    list.filter(outside(gone))
}

/// A search path after a change: what is added comes first, and what is removed is left out.
pub open spec fn moved(path: Seq<Seq<char>>, remove: Seq<Seq<char>>, add: Seq<Seq<char>>) -> Seq<
    Seq<char>,
> {
    add + without(path, remove)
}

/// A search path after a change.
pub fn changed_path(path: &Vec<String>, change: &PathChange) -> (r: Vec<String>)
    ensures
        text::texts(r@) == moved(
            text::texts(path@),
            text::texts(change.remove@),
            text::texts(change.add@),
        ),
{
    let mut r = text::copy_list(&change.add);
    let ghost add = text::texts(change.add@);
    let ghost gone = text::texts(change.remove@);
    let ghost all = text::texts(path@);
    proof {
        reveal(Seq::filter);
        assert(without(all.take(0), gone) =~= Seq::empty());
        assert(add + without(all.take(0), gone) =~= add);
    }
    let mut i: usize = 0;
    while i < path.len()
        invariant
            i <= path@.len(),
            all == text::texts(path@),
            gone == text::texts(change.remove@),
            text::texts(r@) == add + without(all.take(i as int), gone),
        decreases path@.len() - i,
    {
        let ghost before = r@;
        proof {
            reveal(Seq::filter);
            assert(all.take(i + 1).drop_last() =~= all.take(i as int));
            assert(all.take(i + 1).last() == path@[i as int]@);
        }
        if !text::is_among(&change.remove, path[i].as_str()) {
            r.push(path[i].clone());
            assert(text::texts(r@) =~= text::texts(before).push(path@[i as int]@));
            assert(text::texts(r@) =~= add + without(all.take(i + 1), gone));
        }
        i += 1;
    }
    assert(all.take(all.len() as int) =~= all);
    r
}

/// Making a profile the default and clearing that again leaves on the search path what the user
/// had there, and nothing that stack put there. A directory that the user has there already is
/// not told apart from one of the profile's.
pub proof fn clearing_undoes_setting(
    path: Seq<Seq<char>>,
    before: DefaultText,
    name: Seq<char>,
    dirs: Seq<Seq<char>>,
    ignored: Seq<Seq<char>>,
)
    requires
        forall|i: int| 0 <= i < path.len() ==> !dirs.contains(#[trigger] path[i]),
    ensures
        ({
            let set = new_default(Some(name), dirs);
            let cleared = new_default(None, ignored);
            &&& cleared.dirs.len() == 0
            &&& moved(moved(path, before.dirs, set.dirs), set.dirs, cleared.dirs) == without(
                path,
                before.dirs,
            )
        }),
{
    let left = without(path, before.dirs);
    assert forall|i: int| 0 <= i < left.len() implies !dirs.contains(#[trigger] left[i]) by {
        path.lemma_filter_contains_rev(outside(before.dirs), left[i]);
        let j = choose|j: int| 0 <= j < path.len() && path[j] == left[i];
        assert(!dirs.contains(path[j]));
    }
    without_itself(dirs, dirs);
    without_strangers(left, dirs);
    Seq::filter_distributes_over_add(dirs, left, outside(dirs));
    assert(moved(moved(path, before.dirs, dirs), dirs, Seq::empty()) =~= left);
}

/// Nothing is left of a list without its own members.
proof fn without_itself(list: Seq<Seq<char>>, gone: Seq<Seq<char>>)
    requires
        forall|i: int| 0 <= i < list.len() ==> gone.contains(#[trigger] list[i]),
    ensures
        without(list, gone) == Seq::<Seq<char>>::empty(),
    decreases list.len(),
{
    reveal(Seq::filter);
    if list.len() > 0 {
        assert forall|i: int| 0 <= i < list.drop_last().len() implies gone.contains(
            #[trigger] list.drop_last()[i],
        ) by {
            assert(list[i] == list.drop_last()[i]);
        }
        without_itself(list.drop_last(), gone);
        assert(gone.contains(list[list.len() - 1]));
    }
}

/// A list stays as it is without what is not in it.
proof fn without_strangers(list: Seq<Seq<char>>, gone: Seq<Seq<char>>)
    requires
        forall|i: int| 0 <= i < list.len() ==> !gone.contains(#[trigger] list[i]),
    ensures
        without(list, gone) == list,
    decreases list.len(),
{
    reveal(Seq::filter);
    if list.len() > 0 {
        assert forall|i: int| 0 <= i < list.drop_last().len() implies !gone.contains(
            #[trigger] list.drop_last()[i],
        ) by {
            assert(list[i] == list.drop_last()[i]);
        }
        without_strangers(list.drop_last(), gone);
        assert(!gone.contains(list[list.len() - 1]));
        assert(list.drop_last().push(list.last()) =~= list);
    }
}

/// Whether a profile is the default one, so that a change of it has to reach the search path too.
pub fn is_default(record: &DefaultProfileRecord, name: &str) -> (r: bool)
    ensures
        r == (text::opt_text(record.name) == Some(name@)),
{
    match &record.name {
        Some(n) => text::same(n.as_str(), name),
        None => false,
    }
}

/// The shell code that puts directories on the search path for a profile, or, where there is no
/// name, for a set of pins that is not saved.
pub open spec fn activation_text(
    cmd: bool,
    name: Option<Seq<char>>,
    joined: Seq<char>,
    has_dirs: bool,
    current_path: Seq<char>,
) -> Seq<Seq<char>> {
    if cmd {
        seq![
            match name {
                Some(n) => "SET STACK_ACTIVE_PROFILE="@ + n,
                None => "SET STACK_ACTIVE_PROFILE_PATHS="@ + joined,
            },
        ] + (if has_dirs {
            seq!["SET PATH="@ + joined + ";"@ + current_path]
        } else {
            Seq::empty()
        })
    } else {
        seq![
            match name {
                Some(n) => "$env:STACK_ACTIVE_PROFILE = \""@ + n + "\""@,
                None => "$env:STACK_ACTIVE_PROFILE_PATHS = \""@ + joined + "\""@,
            },
            match name {
                Some(_) => "Remove-Item Env:\\STACK_ACTIVE_PROFILE_PATHS -ErrorAction SilentlyContinue"@,
                None => "Remove-Item Env:\\STACK_ACTIVE_PROFILE -ErrorAction SilentlyContinue"@,
            },
        ] + (if has_dirs {
            seq!["$env:PATH = \""@ + joined + ";\" + $env:PATH"@]
        } else {
            Seq::empty()
        })
    }
}

/// The shell code that puts directories on the search path. PowerShell is assumed of every shell
/// that is not the command prompt.
pub fn emit_activation_script(
    shell: &str,
    name: Option<&str>,
    joined: &str,
    has_dirs: bool,
    current_path: &str,
) -> (r: Vec<String>)
    ensures
        text::texts(r@) == activation_text(
            shell@ == "cmd"@,
            text::opt_str(name),
            joined@,
            has_dirs,
            current_path@,
        ),
{
    let mut r: Vec<String> = Vec::new();
    if text::same(shell, "cmd") {
        let first = match name {
            Some(n) => {
                let mut s = "SET STACK_ACTIVE_PROFILE=".to_owned();
                s.append(n);
                s
            },
            None => {
                let mut s = "SET STACK_ACTIVE_PROFILE_PATHS=".to_owned();
                s.append(joined);
                s
            },
        };
        let ghost a = first@;
        r.push(first);
        if has_dirs {
            let mut s = "SET PATH=".to_owned();
            s.append(joined);
            s.append(";");
            s.append(current_path);
            let ghost b = s@;
            r.push(s);
            assert(text::texts(r@) =~= seq![a] + seq![b]);
        } else {
            assert(text::texts(r@) =~= seq![a] + Seq::<Seq<char>>::empty());
        }
    } else {
        let first = match name {
            Some(n) => {
                let mut s = "$env:STACK_ACTIVE_PROFILE = \"".to_owned();
                s.append(n);
                s.append("\"");
                s
            },
            None => {
                let mut s = "$env:STACK_ACTIVE_PROFILE_PATHS = \"".to_owned();
                s.append(joined);
                s.append("\"");
                s
            },
        };
        let second = match name {
            Some(_) =>
                "Remove-Item Env:\\STACK_ACTIVE_PROFILE_PATHS -ErrorAction SilentlyContinue".to_owned(),
            None =>
                "Remove-Item Env:\\STACK_ACTIVE_PROFILE -ErrorAction SilentlyContinue".to_owned(),
        };
        let ghost a = first@;
        let ghost b = second@;
        r.push(first);
        r.push(second);
        if has_dirs {
            let mut s = "$env:PATH = \"".to_owned();
            s.append(joined);
            s.append(";\" + $env:PATH");
            let ghost c = s@;
            r.push(s);
            assert(text::texts(r@) =~= seq![a, b] + seq![c]);
        } else {
            assert(text::texts(r@) =~= seq![a, b] + Seq::<Seq<char>>::empty());
        }
    }
    r
}

/// What is said of a pinned language that is not installed when its profile is activated.
pub fn not_installed_warning(profile: &str, language: &str, version: Option<&str>) -> (r: String)
    ensures
        r@ == "warning: profile '"@ + profile@ + "': "@ + language@ + " "@ + (match version {
            Some(v) => v@,
            None => "?"@,
        }) + " not installed yet — run `stack doctor --fix` or `stack profile "@ + profile@
            + " --exec \""@ + language@ + " --version\"` to install on demand"@,
{
    let mut r = "warning: profile '".to_owned();
    r.append(profile);
    r.append("': ");
    r.append(language);
    r.append(" ");
    match version {
        Some(v) => {
            r.append(v);
        },
        None => {
            r.append("?");
        },
    }
    r.append(" not installed yet — run `stack doctor --fix` or `stack profile ");
    r.append(profile);
    r.append(" --exec \"");
    r.append(language);
    r.append(" --version\"` to install on demand");
    r
}

/// What `stack profile <name>` is to do.
#[derive(Debug)]
pub enum ProfileInvocation {
    Activate(String),
    Exec(String, String),
}

/// What a `ProfileInvocation` says.
pub enum InvocationText {
    Activate(Seq<char>),
    Exec(Seq<char>, Seq<char>),
}

impl View for ProfileInvocation {
    type V = InvocationText;

    open spec fn view(&self) -> InvocationText {
        match *self {
            ProfileInvocation::Activate(n) => InvocationText::Activate(n@),
            ProfileInvocation::Exec(n, c) => InvocationText::Exec(n@, c@),
        }
    }
}

/// What is wrong with the arguments of `stack profile <name>`.
#[derive(Debug)]
pub enum ArgsError {
    /// There is no name.
    NoName,
    /// `--exec` has no command.
    NoCommand,
    /// There is more than a name, and no `--exec`.
    Extra(Vec<String>),
    /// The name is no name for a profile.
    BadName { name: String, why: NameError },
}

/// What an `ArgsError` says.
pub enum ArgsFault {
    NoName,
    NoCommand,
    Extra(Seq<Seq<char>>),
    BadName { name: Seq<char>, why: NameError },
}

impl View for ArgsError {
    type V = ArgsFault;

    open spec fn view(&self) -> ArgsFault {
        match *self {
            ArgsError::NoName => ArgsFault::NoName,
            ArgsError::NoCommand => ArgsFault::NoCommand,
            ArgsError::Extra(args) => ArgsFault::Extra(text::texts(args@)),
            ArgsError::BadName { name, why } => ArgsFault::BadName { name: name@, why },
        }
    }
}

impl ArgsFault {
    /// What is reported to the user.
    pub open spec fn report(self) -> Seq<char> {
        match self {
            ArgsFault::NoName => "stack profile <name> (or `stack profile` alone for the wizard)"@,
            ArgsFault::NoCommand => "--exec requires a command string, e.g. --exec \"php script.php\""@,
            ArgsFault::Extra(args) => "unexpected extra argument(s) after profile name: "@
                + text::joined(args, " "@),
            ArgsFault::BadName { name, why } => why.report(name),
        }
    }
}

impl ArgsError {
    /// What is reported to the user.
    pub fn message(&self) -> (r: String)
        ensures
            r@ == self@.report(),
    {
        match self {
            ArgsError::NoName =>
                "stack profile <name> (or `stack profile` alone for the wizard)".to_owned(),
            ArgsError::NoCommand =>
                "--exec requires a command string, e.g. --exec \"php script.php\"".to_owned(),
            ArgsError::Extra(args) => {
                let mut r = "unexpected extra argument(s) after profile name: ".to_owned();
                r.append(text::join(args, " ").as_str());
                r
            },
            ArgsError::BadName { name, why } => why.message(name.as_str()),
        }
    }
}

/// Where an argument first stands, or the number of arguments if it does not.
pub open spec fn first_place(args: Seq<Seq<char>>, arg: Seq<char>) -> int
    decreases args.len(),
{
    if args.len() == 0 {
        0
    } else if args[0] == arg {
        0
    } else {
        1 + first_place(args.skip(1), arg)
    }
}

proof fn first_place_from(args: Seq<Seq<char>>, arg: Seq<char>, at: int)
    requires
        0 <= at <= args.len(),
        forall|i: int| 0 <= i < at ==> #[trigger] args[i] != arg,
        at < args.len() ==> args[at] == arg,
    ensures
        first_place(args, arg) == at,
    decreases args.len(),
{
    if args.len() > 0 && at > 0 {
        let rest = args.skip(1);
        assert forall|i: int| 0 <= i < at - 1 implies #[trigger] rest[i] != arg by {
            assert(rest[i] == args[i + 1]);
        }
        assert(at < args.len() ==> rest[at - 1] == args[at]);
        first_place_from(rest, arg, at - 1);
        assert(args[0] != arg);
    }
}

/// What the arguments of `stack profile <name>` ask for: with `--exec` anywhere, to run the argument
/// behind it, and otherwise to activate.
pub open spec fn activation(args: Seq<Seq<char>>) -> Result<InvocationText, ArgsFault> {
    let at = first_place(args, "--exec"@);
    if args.len() == 0 {
        Err(ArgsFault::NoName)
    } else if at < args.len() {
        if at + 1 < args.len() {
            Ok(InvocationText::Exec(args[0], args[at + 1]))
        } else {
            Err(ArgsFault::NoCommand)
        }
    } else if args.len() > 1 {
        Err(ArgsFault::Extra(args.skip(1)))
    } else {
        Ok(InvocationText::Activate(args[0]))
    }
}

/// What the arguments of `stack profile <name>` ask for.
pub fn parse_activation_args(raw_args: &Vec<String>) -> (r: Result<ProfileInvocation, ArgsError>)
    ensures
        match r {
            Ok(i) => activation(text::texts(raw_args@)) == Ok::<_, ArgsFault>(i@),
            Err(e) => activation(text::texts(raw_args@)) == Err::<InvocationText, _>(e@),
        },
{
    let ghost all = text::texts(raw_args@);
    if raw_args.len() == 0 {
        return Err(ArgsError::NoName);
    }
    let n: usize = raw_args.len();
    let mut at: usize = 0;
    while at < n && !text::same(raw_args[at].as_str(), "--exec")
        invariant
            at <= n,
            n == raw_args@.len(),
            all == text::texts(raw_args@),
            forall|i: int| 0 <= i < at ==> #[trigger] all[i] != "--exec"@,
        decreases n - at,
    {
        assert(all[at as int] == raw_args@[at as int]@);
        at += 1;
    }
    proof {
        first_place_from(all, "--exec"@, at as int);
        assert(all[0] == raw_args@[0]@);
    }
    if at < n {
        if n - at > 1 {
            assert(all[at + 1] == raw_args@[at + 1]@);
            return Ok(ProfileInvocation::Exec(raw_args[0].clone(), raw_args[at + 1].clone()));
        }
        return Err(ArgsError::NoCommand);
    }
    if n > 1 {
        let mut extra = text::copy_list(raw_args);
        let _ = extra.remove(0);
        assert(text::texts(extra@) =~= all.skip(1));
        return Err(ArgsError::Extra(extra));
    }
    Ok(ProfileInvocation::Activate(raw_args[0].clone()))
}

/// The profile that an invocation is about.
pub open spec fn profile_named(i: InvocationText) -> Seq<char> {
    match i {
        InvocationText::Activate(n) => n,
        InvocationText::Exec(n, _) => n,
    }
}

/// What the arguments of `stack profile <name>` ask for, about a profile whose name is valid.
pub open spec fn checked_activation(args: Seq<Seq<char>>) -> Result<InvocationText, ArgsFault> {
    match activation(args) {
        Err(e) => Err(e),
        Ok(i) => match name_fault(profile_named(i)) {
            Some(why) => Err(ArgsFault::BadName { name: profile_named(i), why }),
            None => Ok(i),
        },
    }
}

/// What the arguments of `stack profile <name>` ask for: to activate the profile, or to run a
/// command in it. The profile's name is checked either way.
pub fn activate_or_exec(raw_args: &Vec<String>) -> (r: Result<ProfileInvocation, ArgsError>)
    ensures
        match r {
            Ok(i) => checked_activation(text::texts(raw_args@)) == Ok::<_, ArgsFault>(i@),
            Err(e) => checked_activation(text::texts(raw_args@)) == Err::<InvocationText, _>(e@),
        },
{
    match parse_activation_args(raw_args) {
        Err(e) => Err(e),
        Ok(i) => {
            let name = match &i {
                ProfileInvocation::Activate(n) => n.clone(),
                ProfileInvocation::Exec(n, _) => n.clone(),
            };
            match validate_profile_name(name.as_str()) {
                Err(why) => Err(ArgsError::BadName { name, why }),
                Ok(_) => Ok(i),
            }
        },
    }
}

/// The program and the arguments that `--exec` runs.
pub fn exec_words(command: &str) -> (r: Result<Invocation, String>)
    ensures
        match words::split_words(command@) {
            None => r matches Err(why) && why@ == "could not parse command '"@ + command@
                + "': missing closing quote"@,
            Some(ws) => if ws.len() == 0 {
                r matches Err(why) && why@ == "--exec command is empty"@
            } else {
                r matches Ok(i) && i.words() == ws
            },
        },
{
    match process::command_words(command) {
        Ok(i) => Ok(i),
        Err(CommandError::Empty) => Err("--exec command is empty".to_owned()),
        Err(e) => Err(e.message()),
    }
}

/// What `stack exec --with` is to do: resolve these pins in order, and then run the program, or, where
/// a pin is malformed, report it.
#[derive(Debug)]
pub struct ExecPlan {
    pub pins: Vec<(String, String)>,
    /// The first pin that is not in name@version form. Those before it are resolved all the same.
    pub malformed: Option<String>,
    pub program: String,
    pub args: Vec<String>,
}

/// A pin in name@version form: the name ends at the first "@".
pub open spec fn pin_of(spec_text: Seq<char>) -> Option<(Seq<char>, Seq<char>)> {
    let at = text::first_index(spec_text, '@');
    if 0 <= at < spec_text.len() {
        Some((spec_text.take(at), spec_text.skip(at + 1)))
    } else {
        None
    }
}

/// The pins of a list, up to the first that is malformed, and that one.
pub open spec fn pins_of(specs: Seq<Seq<char>>) -> (Seq<(Seq<char>, Seq<char>)>, Option<Seq<char>>)
    decreases specs.len(),
{
    if specs.len() == 0 {
        (Seq::empty(), None)
    } else {
        let before = pins_of(specs.drop_last());
        if before.1 is Some {
            before
        } else {
            let s = text::trimmed(specs.last());
            match pin_of(s) {
                Some(p) => (before.0.push(p), None),
                None => (before.0, Some(s)),
            }
        }
    }
}

/// A pin in name@version form.
fn parse_pin(spec_text: &str) -> (r: Option<(String, String)>)
    ensures
        match r {
            Some((name, version)) => pin_of(spec_text@) == Some((name@, version@)),
            None => pin_of(spec_text@) is None,
        },
{
    let v = text::chars_of(spec_text);
    let n: usize = v.len();
    let at = text::find_char(&v, 0, '@');
    assert(v@.skip(0) =~= v@);
    if at >= n {
        return None;
    }
    let name = text::text_of(&v, 0, at);
    let version = text::text_of(&v, at + 1, n);
    assert(v@.subrange(0, at as int) =~= v@.take(at as int));
    assert(v@.subrange(at + 1, n as int) =~= v@.skip(at + 1));
    Some((name, version))
}

proof fn malformed_stays(specs: Seq<Seq<char>>, n: int)
    requires
        0 <= n <= specs.len(),
        pins_of(specs.take(n)).1 is Some,
    ensures
        pins_of(specs) == pins_of(specs.take(n)),
    decreases specs.len() - n,
{
    if n == specs.len() {
        assert(specs.take(n) =~= specs);
    } else {
        assert(specs.take(n + 1).drop_last() =~= specs.take(n));
        malformed_stays(specs, n + 1);
    }
}

/// What `stack exec --with` is to do; what is reported where there is nothing to run.
pub fn exec_with(with: &str, command: &Vec<String>) -> (r: Result<ExecPlan, String>)
    ensures
        match r {
            Err(why) => command@.len() == 0 && why@
                == "stack exec --with <name@version,...> -- <command> [args...]"@,
            Ok(plan) => {
                let found = pins_of(text::pieces(with@, ','));
                &&& command@.len() > 0
                &&& seq![plan.program@] + text::texts(plan.args@) == text::texts(command@)
                &&& projects::pair_texts(plan.pins@) == found.0
                &&& text::opt_text(plan.malformed) == found.1
            },
        },
{
    let parts = text::copy_list(command);
    let (program, args) = match process::invocation_of(parts) {
        None => {
            assert(text::texts(command@).len() == 0);
            return Err("stack exec --with <name@version,...> -- <command> [args...]".to_owned());
        },
        Some(i) => (i.program, i.args),
    };
    assert(text::texts(command@).len() > 0);
    let specs = text::split(with, ',');
    let ghost all = text::pieces(with@, ',');
    let mut pins: Vec<(String, String)> = Vec::new();
    let mut i: usize = 0;
    assert(projects::pair_texts(pins@) =~= pins_of(all.take(0)).0);
    while i < specs.len()
        invariant
            i <= specs@.len(),
            all == text::texts(specs@),
            all == text::pieces(with@, ','),
            command@.len() > 0,
            seq![program@] + text::texts(args@) == text::texts(command@),
            projects::pair_texts(pins@) == pins_of(all.take(i as int)).0,
            pins_of(all.take(i as int)).1 is None,
        decreases specs@.len() - i,
    {
        let spec_text = text::trim(specs[i].as_str());
        proof {
            assert(all[i as int] == specs@[i as int]@);
            assert(all.take(i + 1).drop_last() =~= all.take(i as int));
            assert(all.take(i + 1).last() == all[i as int]);
        }
        match parse_pin(spec_text.as_str()) {
            None => {
                proof {
                    malformed_stays(all, i + 1);
                }
                return Ok(ExecPlan { pins, malformed: Some(spec_text), program, args });
            },
            Some((name, version)) => {
                let ghost before = pins@;
                let ghost added = (name@, version@);
                pins.push((name, version));
                assert(projects::pair_texts(pins@) =~= projects::pair_texts(before).push(added));
            },
        }
        i += 1;
    }
    assert(all.take(i as int) =~= all);
    Ok(ExecPlan { pins, malformed: None, program, args })
}

/// What is reported of a pin that is malformed.
pub fn malformed_pin(spec_text: &str) -> (r: String)
    ensures
        r@ == "'"@ + spec_text@ + "' isn't in name@version form"@,
{
    let mut r = "'".to_owned();
    r.append(spec_text);
    r.append("' isn't in name@version form");
    r
}

/// What is shown of a profile: its name, and whether it is the active and the default one.
pub fn list_line(name: &str, active: Option<&str>, default: Option<&str>) -> (r: String)
    ensures
        ({
            let a = text::opt_str(active) == Some(name@);
            let d = text::opt_str(default) == Some(name@);
            r@ == "  "@ + name@ + (if a && d {
                " (active, default)"@
            } else if a {
                " (active)"@
            } else if d {
                " (default)"@
            } else {
                ""@
            })
        }),
{
    let a = match active {
        Some(n) => text::same(n, name),
        None => false,
    };
    let d = match default {
        Some(n) => text::same(n, name),
        None => false,
    };
    let mut r = "  ".to_owned();
    r.append(name);
    if a && d {
        r.append(" (active, default)");
    } else if a {
        r.append(" (active)");
    } else if d {
        r.append(" (default)");
    } else {
        r.append("");
    }
    r
}

/// What is shown of a language of a profile.
pub fn describe_language(language: &str, version: Option<&str>, binary: Option<&str>) -> (r: String)
    ensures
        r@ == "  language."@ + language@ + ": "@ + (match version {
            Some(v) => v@,
            None => "?"@,
        }) + " -> "@ + (match binary {
            Some(b) => b@,
            None => "not installed yet"@,
        }),
{
    let mut r = "  language.".to_owned();
    r.append(language);
    r.append(": ");
    match version {
        Some(v) => {
            r.append(v);
        },
        None => {
            r.append("?");
        },
    }
    r.append(" -> ");
    match binary {
        Some(b) => {
            r.append(b);
        },
        None => {
            r.append("not installed yet");
        },
    }
    r
}

/// The program and the arguments of an editor: what does not split into words is the program.
pub open spec fn editor_call(editor: Seq<char>) -> Seq<Seq<char>> {
    match words::split_words(editor) {
        Some(ws) => if ws.len() > 0 {
            ws
        } else {
            seq![editor]
        },
        None => seq![editor],
    }
}

/// The editor that is used: the one for screens, else the one for lines, else the system's own.
pub fn choose_editor(visual: Option<String>, editor: Option<String>, windows: bool) -> (r: String)
    ensures
        r@ == match (visual, editor) {
            (Some(v), _) => v@,
            (None, Some(e)) => e@,
            (None, None) => if windows {
                "notepad.exe"@
            } else {
                "vi"@
            },
        },
{
    match visual {
        Some(v) => v,
        None => match editor {
            Some(e) => e,
            None => if windows {
                "notepad.exe".to_owned()
            } else {
                "vi".to_owned()
            },
        },
    }
}

/// The program and the arguments of an editor.
pub fn editor_words(editor: &str) -> (r: Invocation)
    ensures
        r.words() == editor_call(editor@),
{
    match process::command_words(editor) {
        Ok(i) => i,
        Err(_) => {
            let r = Invocation { program: editor.to_owned(), args: Vec::new() };
            assert(r.words() =~= seq![editor@]);
            r
        },
    }
}

/// The kinds of entries that a profile has.
pub fn profile_kind(kind: &str) -> (r: bool)
    ensures
        r == (kind@ == "language"@ || kind@ == "tool"@),
{
    text::same(kind, "language") || text::same(kind, "tool")
}

/// What is reported of a kind that a profile does not have.
pub fn not_in_a_profile(adding: bool) -> (r: String)
    ensures
        r@ == if adding {
            "stack profile add only supports 'language' or 'tool' — a profile has no [service.*]/[run]/[[clone]]"@
        } else {
            "stack profile remove only supports 'language' or 'tool'"@
        },
{
    if adding {
        "stack profile add only supports 'language' or 'tool' — a profile has no [service.*]/[run]/[[clone]]".to_owned()
    } else {
        "stack profile remove only supports 'language' or 'tool'".to_owned()
    }
}

/// The shell code that ends the active profile; nothing where none is active.
pub fn deactivate(shell: &str, had_profile: bool, had_paths: bool) -> (r: Option<Vec<String>>)
    ensures
        match r {
            None => !had_profile && !had_paths,
            Some(lines) => {
                &&& had_profile || had_paths
                &&& text::texts(lines@) == if shell@ == "cmd"@ {
                    seq!["SET STACK_ACTIVE_PROFILE="@, "SET STACK_ACTIVE_PROFILE_PATHS="@]
                } else {
                    seq![
                        "Remove-Item Env:\\STACK_ACTIVE_PROFILE -ErrorAction SilentlyContinue"@,
                        "Remove-Item Env:\\STACK_ACTIVE_PROFILE_PATHS -ErrorAction SilentlyContinue"@,
                    ]
                }
            },
        },
{
    if !had_profile && !had_paths {
        return None;
    }
    let mut r: Vec<String> = Vec::new();
    if text::same(shell, "cmd") {
        r.push("SET STACK_ACTIVE_PROFILE=".to_owned());
        r.push("SET STACK_ACTIVE_PROFILE_PATHS=".to_owned());
        assert(text::texts(r@) =~= seq![
            "SET STACK_ACTIVE_PROFILE="@,
            "SET STACK_ACTIVE_PROFILE_PATHS="@,
        ]);
    } else {
        r.push("Remove-Item Env:\\STACK_ACTIVE_PROFILE -ErrorAction SilentlyContinue".to_owned());
        r.push(
            "Remove-Item Env:\\STACK_ACTIVE_PROFILE_PATHS -ErrorAction SilentlyContinue".to_owned(),
        );
        assert(text::texts(r@) =~= seq![
            "Remove-Item Env:\\STACK_ACTIVE_PROFILE -ErrorAction SilentlyContinue"@,
            "Remove-Item Env:\\STACK_ACTIVE_PROFILE_PATHS -ErrorAction SilentlyContinue"@,
        ]);
    }
    Some(r)
}

/// The profile that counts outside a project: the active one, else one called "default", where there
/// is one.
pub fn effective_profile_context(active: Option<String>, default_exists: bool) -> (r: Option<String>)
    ensures
        text::opt_text(r) == match active {
            Some(a) => Some(a@),
            None => if default_exists {
                Some("default"@)
            } else {
                None
            },
        },
{
    match active {
        Some(a) => Some(a),
        None => if default_exists {
            Some("default".to_owned())
        } else {
            None
        },
    }
}

/// What `stack which` shows without a name: the project with the path of its manifest, the active
/// profile, and the default one.
pub fn which_summary(
    project: Option<(&str, &str)>,
    active: Option<&str>,
    unsaved: bool,
    default: Option<&str>,
) -> (r: Vec<String>)
    ensures
        text::texts(r@) == seq![
            match project {
                Some((name, path)) => "project: "@ + name@ + " ("@ + path@ + ")"@,
                None => "project: (none — not inside a stack-managed directory)"@,
            },
            match active {
                Some(n) => "active profile: "@ + n@,
                None => if unsaved {
                    "active profile: (ad hoc, unsaved)"@
                } else {
                    "active profile: (none explicitly activated in this shell)"@
                },
            },
            match default {
                Some(d) => "default profile: '"@ + d@
                    + "' — its tools are on PATH globally (set via `stack setup --default-profile`)"@,
                None => "default profile: (none)"@,
            },
        ],
{
    let first = match project {
        Some((name, path)) => {
            let mut s = "project: ".to_owned();
            s.append(name);
            s.append(" (");
            s.append(path);
            s.append(")");
            s
        },
        None => "project: (none — not inside a stack-managed directory)".to_owned(),
    };
    let second = match active {
        Some(n) => {
            let mut s = "active profile: ".to_owned();
            s.append(n);
            s
        },
        None => if unsaved {
            "active profile: (ad hoc, unsaved)".to_owned()
        } else {
            "active profile: (none explicitly activated in this shell)".to_owned()
        },
    };
    let third = match default {
        Some(d) => {
            let mut s = "default profile: '".to_owned();
            s.append(d);
            s.append(
                "' — its tools are on PATH globally (set via `stack setup --default-profile`)",
            );
            s
        },
        None => "default profile: (none)".to_owned(),
    };
    let ghost shown = seq![first@, second@, third@];
    let mut r: Vec<String> = Vec::new();
    r.push(first);
    r.push(second);
    r.push(third);
    assert(text::texts(r@) =~= shown);
    r
}

/// What decides which binary a name stands for.
pub enum Pinned {
    ByProject(Seq<char>),
    ProjectTool(Seq<char>),
    ByProfile(Seq<char>),
    Nothing,
}

/// What decides which binary a name stands for: a language of the project comes first, then a tool
/// of it that is there, then a language of the profile.
pub open spec fn pinned_by(
    name: Seq<char>,
    project: Option<Manifest>,
    tool_binary: Option<Seq<char>>,
    profile: Option<(Seq<char>, Manifest)>,
) -> Pinned {
    if project is Some && project->0.language@.contains_key(name) {
        Pinned::ByProject(project->0.project.name@)
    } else if project is Some && project->0.tool@.contains_key(name) && tool_binary is Some {
        Pinned::ProjectTool(project->0.project.name@)
    } else {
        match profile {
            Some((pname, m)) => if m.language@.contains_key(name) {
                Pinned::ByProfile(pname)
            } else {
                Pinned::Nothing
            },
            None => Pinned::Nothing,
        }
    }
}

/// What is shown of a name.
pub open spec fn which_text(
    name: Seq<char>,
    pinned: Pinned,
    version: Option<Seq<char>>,
    language_binary: Option<Seq<char>>,
    tool_binary: Option<Seq<char>>,
    profile_binary: Option<Seq<char>>,
) -> Seq<char> {
    match pinned {
        Pinned::ByProject(project) => match language_binary {
            Some(b) => name + ": "@ + b + " (project '"@ + project + "')"@,
            None => name + ": pinned by project '"@ + project + "' ("@ + (match version {
                Some(v) => v,
                None => "?"@,
            }) + ") but not installed yet"@,
        },
        Pinned::ProjectTool(project) => name + ": "@ + tool_binary->0 + " (tool, project '"@
            + project + "')"@,
        Pinned::ByProfile(profile) => match profile_binary {
            Some(b) => name + ": "@ + b + " (profile '"@ + profile + "')"@,
            None => name + ": pinned by profile '"@ + profile + "' but not installed yet"@,
        },
        Pinned::Nothing => name
            + ": not pinned by the current project or any active/default profile"@,
    }
}

/// A manifest, by value.
pub open spec fn opt_manifest(m: Option<&Manifest>) -> Option<Manifest> {
    match m {
        Some(m) => Some(*m),
        None => None,
    }
}

/// A profile's name and manifest, by value.
pub open spec fn opt_profile(p: Option<(&str, &Manifest)>) -> Option<(Seq<char>, Manifest)> {
    match p {
        Some((n, m)) => Some((n@, *m)),
        None => None,
    }
}

/// The version that a manifest pins a language to.
pub open spec fn pinned_version(m: Option<Manifest>, name: Seq<char>) -> Option<Seq<char>> {
    match m {
        Some(m) => if m.language@.contains_key(name) {
            m.language@[name].version_text()
        } else {
            None
        },
        None => None,
    }
}

/// What `stack which` shows of a name, given what the project and the profile pin and which of the
/// binaries are there.
pub fn which(
    name: &str,
    project: Option<&Manifest>,
    language_binary: Option<&str>,
    tool_binary: Option<&str>,
    profile: Option<(&str, &Manifest)>,
    profile_binary: Option<&str>,
) -> (r: String)
    ensures
        r@ == which_text(
            name@,
            pinned_by(
                name@,
                opt_manifest(project),
                text::opt_str(tool_binary),
                opt_profile(profile),
            ),
            pinned_version(opt_manifest(project), name@),
            text::opt_str(language_binary),
            text::opt_str(tool_binary),
            text::opt_str(profile_binary),
        ),
{
    let mut r = name.to_owned();
    match project {
        Some(m) => {
            match m.language.get(name) {
                Some(entry) => {
                    match language_binary {
                        Some(b) => {
                            r.append(": ");
                            r.append(b);
                            r.append(" (project '");
                            r.append(m.project.name.as_str());
                            r.append("')");
                        },
                        None => {
                            r.append(": pinned by project '");
                            r.append(m.project.name.as_str());
                            r.append("' (");
                            match entry.version() {
                                Some(v) => {
                                    r.append(v);
                                },
                                None => {
                                    r.append("?");
                                },
                            }
                            r.append(") but not installed yet");
                        },
                    }
                    return r;
                },
                None => {},
            }
            if m.tool.contains_key(name) {
                match tool_binary {
                    Some(b) => {
                        r.append(": ");
                        r.append(b);
                        r.append(" (tool, project '");
                        r.append(m.project.name.as_str());
                        r.append("')");
                        return r;
                    },
                    None => {},
                }
            }
        },
        None => {},
    }
    match profile {
        Some((pname, m)) => {
            if m.language.contains_key(name) {
                match profile_binary {
                    Some(b) => {
                        r.append(": ");
                        r.append(b);
                        r.append(" (profile '");
                        r.append(pname);
                        r.append("')");
                    },
                    None => {
                        r.append(": pinned by profile '");
                        r.append(pname);
                        r.append("' but not installed yet");
                    },
                }
                return r;
            }
        },
        None => {},
    }
    r.append(": not pinned by the current project or any active/default profile");
    r
}

/// What the project pins counts, whatever the profile says of the same name.
pub proof fn projects_come_before_profiles(
    name: Seq<char>,
    project: Manifest,
    tool_binary: Option<Seq<char>>,
    profile: Option<(Seq<char>, Manifest)>,
)
    requires
        project.language@.contains_key(name),
    ensures
        pinned_by(name, Some(project), tool_binary, profile) == Pinned::ByProject(
            project.project.name@,
        ),
{
}

} // verus!
