//! What each known project declared when it was last started: the contents of `projects.json`.

use crate::location;
use crate::location::JoinedPath;
use crate::ordered_map::OrderedMap;
use crate::text;
use vstd::prelude::*;

verus! {

/// The known projects, by directory.
#[derive(Debug)]
pub struct ProjectsFile {
    pub projects: OrderedMap<ProjectRecord>,
}

/// The languages and services of a project, each with its version.
#[derive(Debug)]
pub struct ProjectRecord {
    pub languages: Vec<(String, String)>,
    pub services: Vec<(String, String)>,
}

/// The characters of a list of name and version pairs.
pub open spec fn pair_texts(v: Seq<(String, String)>) -> Seq<(Seq<char>, Seq<char>)> {
    v.map_values(|p: (String, String)| (p.0@, p.1@))
}

/// A known project as it is found now: its directory, and the name that its manifest gives it,
/// where that can be read.
#[derive(Debug)]
pub struct KnownProject {
    pub dir: String,
    pub name: Option<String>,
}

/// The directory of the first project of a name.
pub open spec fn first_named(known: Seq<KnownProject>, name: Seq<char>) -> Option<Seq<char>>
    decreases known.len(),
{
    if known.len() == 0 {
        None
    } else if text::opt_text(known[0].name) == Some(name) {
        Some(known[0].dir@)
    } else {
        first_named(known.drop_first(), name)
    }
}

/// Where the search for a manifest starts: in the directory that is given, else in that of the
/// known project of that name.
pub open spec fn start_of(target: Seq<char>, is_dir: bool, known: Seq<KnownProject>) -> Seq<char> {
    match first_named(known, target) {
        Some(dir) if !is_dir => dir,
        _ => target,
    }
}

/// Where the search for a manifest starts.
pub fn start_directory(target: &str, is_dir: bool, known: &Vec<KnownProject>) -> (r: String)
    ensures
        r@ == start_of(target@, is_dir, known@),
{
    if is_dir {
        return target.to_owned();
    }
    let mut i: usize = 0;
    assert(known@.skip(0) =~= known@);
    while i < known.len()
        invariant
            i <= known@.len(),
            !is_dir,
            first_named(known@.skip(i as int), target@) == first_named(known@, target@),
        decreases known@.len() - i,
    {
        assert(known@.skip(i as int)[0] == known@[i as int]);
        assert(known@.skip(i as int).drop_first() =~= known@.skip(i + 1));
        match &known[i].name {
            Some(n) if text::same(n.as_str(), target) => {
                return known[i].dir.clone();
            },
            _ => {},
        }
        i += 1;
    }
    target.to_owned()
}

impl Default for ProjectsFile {
    /// No project is known.
    fn default() -> (r: ProjectsFile)
        ensures
            r.projects@ == Map::<Seq<char>, ProjectRecord>::empty(),
    {
        ProjectsFile { projects: OrderedMap::new() }
    }
}

impl Default for ProjectRecord {
    /// No language and no service.
    fn default() -> (r: ProjectRecord)
        ensures
            r.languages@.len() == 0,
            r.services@.len() == 0,
    {
        ProjectRecord { languages: Vec::new(), services: Vec::new() }
    }
}

impl ProjectsFile {
    /// Where the projects are kept: `~/.stack/projects.json`.
    pub fn projects_path(home: &str) -> (r: JoinedPath)
        ensures
            r@ == location::stack_dir(home@).join("projects.json"@),
    {
        location::stack_directory(home).join("projects.json")
    }
}

} // verus!
