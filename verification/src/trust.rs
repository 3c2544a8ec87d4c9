//! Consent to the commands of a manifest, once per project and set of commands: the contents of
//! `trust.json`.

use crate::location;
use crate::location::JoinedPath;
use crate::manifest::{Manifest, Service};
use crate::ordered_map::OrderedMap;
use crate::placeholder;
use crate::text;
use vstd::prelude::*;

verus! {

/// The commands that were approved last, by project directory.
#[derive(Debug)]
pub struct TrustFile {
    pub approved: OrderedMap<String>,
}

impl Default for TrustFile {
    /// Nothing is approved.
    fn default() -> (r: TrustFile)
        ensures
            r.approved@ == Map::<Seq<char>, String>::empty(),
    {
        TrustFile { approved: OrderedMap::new() }
    }
}

impl TrustFile {
    /// Where approvals are kept: `~/.stack/trust.json`.
    pub fn trust_path(home: &str) -> (r: JoinedPath)
        ensures
            r@ == location::stack_dir(home@).join("trust.json"@),
    {
        location::stack_directory(home).join("trust.json")
    }
}

/// The lines of the services that name a command.
pub open spec fn service_commands(s: Seq<(Seq<char>, Service)>) -> Seq<Seq<char>>
    decreases s.len(),
{
    if s.len() == 0 {
        Seq::empty()
    } else {
        let front = service_commands(s.drop_last());
        match s.last().1.command {
            Some(c) => front.push("[service."@ + s.last().0 + "] "@ + c@),
            None => front,
        }
    }
}

/// The lines of the commands that a manifest would have executed.
pub open spec fn risky_lines(manifest: Manifest) -> Seq<Seq<char>> {
    (match manifest.run {
        Some(run) => match run.command {
            Some(c) => seq!["[run] "@ + c@],
            None => Seq::empty(),
        },
        None => Seq::empty(),
    }) + service_commands(manifest.service.pairs())
}

/// The commands that a manifest would have executed, one per line.
pub open spec fn risky_text(manifest: Manifest) -> Seq<char> {
    text::joined(risky_lines(manifest), "\n"@)
}

/// `[run].command` and the command of every service, one per line.
pub fn risky_fields(manifest: &Manifest) -> (r: String)
    ensures
        r@ == risky_text(*manifest),
{
    let mut lines: Vec<String> = Vec::new();
    let ghost mut first: Seq<Seq<char>> = Seq::empty();
    match &manifest.run {
        Some(run) => match &run.command {
            Some(c) => {
                let mut line = "[run] ".to_owned();
                line.append(c.as_str());
                proof {
                    first = seq![line@];
                }
                lines.push(line);
            },
            None => {},
        },
        None => {},
    }
    let ghost declared = manifest.service.pairs();
    let n: usize = manifest.service.len();
    let mut i: usize = 0;
    assert(text::texts(lines@) =~= first + service_commands(declared.take(0)));
    while i < n
        invariant
            i <= n,
            n == declared.len(),
            declared == manifest.service.pairs(),
            text::texts(lines@) == first + service_commands(declared.take(i as int)),
        decreases n - i,
    {
        assert(declared.take(i + 1).drop_last() =~= declared.take(i as int));
        match &manifest.service.value_at(i).command {
            Some(c) => {
                let mut line = "[service.".to_owned();
                line.append(manifest.service.key_at(i).as_str());
                line.append("] ");
                line.append(c.as_str());
                let ghost before = lines@;
                let ghost added = line@;
                lines.push(line);
                assert(text::texts(lines@) =~= text::texts(before).push(added));
                assert(text::texts(lines@) =~= first + service_commands(declared.take(i + 1)));
            },
            None => {},
        }
        i += 1;
    }
    assert(declared.take(i as int) =~= declared);
    text::join(&lines, "\n")
}

/// Consent is needed: there are commands, and they are not the ones that were approved last for
/// the project.
pub open spec fn needs_consent(
    approved: Map<Seq<char>, String>,
    project_dir: Seq<char>,
    risky: Seq<char>,
) -> bool {
    risky.len() > 0 && placeholder::text_at(approved, project_dir) != Some(risky)
}

/// What is shown before consent is asked for: what the commands were and what they are, or, the
/// first time, what they are.
pub open spec fn consent_text(previous: Option<Seq<char>>, risky: Seq<char>) -> Seq<Seq<char>> {
    match previous {
        Some(prev) => seq![
            "stack.toml's commands changed since you last approved them for this project:"@,
        ] + marked(text::lines_of(prev), "  - "@) + marked(text::lines_of(risky), "  + "@),
        None => seq!["first run for this project — stack.toml will execute:"@] + marked(
            text::lines_of(risky),
            "  "@,
        ),
    }
}

/// Lines with a mark in front of each.
pub open spec fn marked(lines: Seq<Seq<char>>, mark: Seq<char>) -> Seq<Seq<char>> {
    lines.map_values(|l: Seq<char>| mark + l)
}

/// The lines of a text with a mark in front of each.
fn mark_lines(s: &str, mark: &str) -> (r: Vec<String>)
    ensures
        text::texts(r@) == marked(text::lines_of(s@), mark@),
{
    let lines = text::lines(s);
    let ghost all = text::lines_of(s@);
    let mut r: Vec<String> = Vec::new();
    let mut i: usize = 0;
    while i < lines.len()
        invariant
            i <= lines@.len(),
            all == text::texts(lines@),
            text::texts(r@) == marked(all.take(i as int), mark@),
        decreases lines@.len() - i,
    {
        let mut line = mark.to_owned();
        line.append(lines[i].as_str());
        let ghost before = r@;
        let ghost added = line@;
        r.push(line);
        assert(text::texts(r@) =~= text::texts(before).push(added));
        assert(marked(all.take(i + 1), mark@) =~= marked(all.take(i as int), mark@).push(added));
        i += 1;
    }
    assert(all.take(i as int) =~= all);
    r
}

/// What is shown before consent is asked for.
fn consent_lines(previous: Option<&str>, risky: &str) -> (r: Vec<String>)
    ensures
        text::texts(r@) == consent_text(text::opt_str(previous), risky@),
{
    let mut r: Vec<String> = Vec::new();
    match previous {
        Some(prev) => {
            r.push(
                "stack.toml's commands changed since you last approved them for this project:".to_owned(),
            );
            let ghost head = r@;
            let mut was = mark_lines(prev, "  - ");
            let ghost a = was@;
            let mut is = mark_lines(risky, "  + ");
            let ghost b = is@;
            r.append(&mut was);
            r.append(&mut is);
            assert(text::texts(r@) =~= text::texts(head) + text::texts(a) + text::texts(b));
            assert(text::texts(head) =~= seq![
                "stack.toml's commands changed since you last approved them for this project:"@,
            ]);
        },
        None => {
            r.push("first run for this project — stack.toml will execute:".to_owned());
            let ghost head = r@;
            let mut is = mark_lines(risky, "  ");
            let ghost b = is@;
            r.append(&mut is);
            assert(text::texts(r@) =~= text::texts(head) + text::texts(b));
            assert(text::texts(head) =~= seq![
                "first run for this project — stack.toml will execute:"@,
            ]);
        },
    }
    r
}

/// Why the commands of a manifest may not be executed.
#[derive(Debug)]
pub enum TrustError {
    /// Nobody has been asked yet: these lines are shown first.
    Ask(Vec<String>),
    /// The user said no.
    Refused,
}

impl TrustError {
    /// What is reported to the user.
    pub fn message(&self) -> (r: String)
        ensures
            r@ == match *self {
                TrustError::Ask(_) => "Trust and run these commands?"@,
                TrustError::Refused => "not trusted — aborted, nothing started"@,
            },
    {
        match self {
            TrustError::Ask(_) => "Trust and run these commands?".to_owned(),
            TrustError::Refused => "not trusted — aborted, nothing started".to_owned(),
        }
    }
}

/// What was consented to now, to be shown and kept.
#[derive(Debug)]
pub enum Consent {
    /// There was nothing to consent to, or it had been before.
    Standing,
    /// The approval is new: these lines say of what.
    Given(Vec<String>),
}

/// Makes sure that the commands of a manifest were consented to. `answer` is what the user said,
/// where there was a chance to ask; `auto_yes` stands for a yes. A new approval takes the place
/// of the project's old one.
pub fn ensure_trusted(
    trust: &mut TrustFile,
    project_dir: &str,
    manifest: &Manifest,
    auto_yes: bool,
    answer: Option<bool>,
) -> (r: Result<Consent, TrustError>)
    ensures
        ({
            let risky = risky_text(*manifest);
            let before = old(trust).approved@;
            let shown = consent_text(placeholder::text_at(before, project_dir@), risky);
            if !needs_consent(before, project_dir@, risky) {
                r == Ok::<_, TrustError>(Consent::Standing) && *final(trust) == *old(trust)
            } else if auto_yes || answer == Some(true) {
                &&& r matches Ok(Consent::Given(lines)) && text::texts(lines@) == shown
                &&& placeholder::text_at(final(trust).approved@, project_dir@) == Some(risky)
                &&& final(trust).approved@.remove(project_dir@) == before.remove(project_dir@)
            } else if answer is None {
                &&& r matches Err(TrustError::Ask(lines)) && text::texts(lines@) == shown
                &&& *final(trust) == *old(trust)
            } else {
                r == Err::<Consent, _>(TrustError::Refused) && *final(trust) == *old(trust)
            }
        }),
{
    let risky = risky_fields(manifest);
    proof {
        reveal_strlit("");
        if risky@.len() == 0 {
            assert(risky@ =~= ""@);
        }
    }
    if text::same(risky.as_str(), "") {
        return Ok(Consent::Standing);
    }
    let previous: Option<&str> = match trust.approved.get(project_dir) {
        Some(p) => Some(p.as_str()),
        None => None,
    };
    match previous {
        Some(p) => {
            if text::same(p, risky.as_str()) {
                return Ok(Consent::Standing);
            }
        },
        None => {},
    }
    let lines = consent_lines(previous, risky.as_str());
    let confirmed = if auto_yes {
        true
    } else {
        match answer {
            Some(yes) => yes,
            None => {
                return Err(TrustError::Ask(lines));
            },
        }
    };
    if !confirmed {
        return Err(TrustError::Refused);
    }
    trust.approved.insert(project_dir.to_owned(), risky);
    Ok(Consent::Given(lines))
}

/// A project is asked once per set of commands: what was approved last needs no consent, other
/// commands do, and what was approved for one project says nothing of another.
pub proof fn consent_is_asked_once(
    before: Map<Seq<char>, String>,
    after: Map<Seq<char>, String>,
    project_dir: Seq<char>,
    risky: Seq<char>,
    other_dir: Seq<char>,
    other_risky: Seq<char>,
)
    requires
        placeholder::text_at(after, project_dir) == Some(risky),
        after.remove(project_dir) == before.remove(project_dir),
    ensures
        !needs_consent(after, project_dir, risky),
        other_risky != risky && other_risky.len() > 0 ==> needs_consent(
            after,
            project_dir,
            other_risky,
        ),
        other_dir != project_dir ==> needs_consent(after, other_dir, other_risky) == needs_consent(
            before,
            other_dir,
            other_risky,
        ),
{
    if other_dir != project_dir {
        assert(after.contains_key(other_dir) == after.remove(project_dir).contains_key(other_dir));
        assert(before.contains_key(other_dir) == before.remove(project_dir).contains_key(
            other_dir,
        ));
        if after.contains_key(other_dir) {
            assert(after[other_dir] == after.remove(project_dir)[other_dir]);
            assert(before[other_dir] == before.remove(project_dir)[other_dir]);
        }
    }
}

/// A manifest without commands never needs consent.
pub proof fn harmless_manifests_need_no_consent(
    approved: Map<Seq<char>, String>,
    project_dir: Seq<char>,
    manifest: Manifest,
)
    requires
        risky_lines(manifest).len() == 0,
    ensures
        !needs_consent(approved, project_dir, risky_text(manifest)),
{
}

} // verus!
