//! Spawned processes: the command that is run, where its output goes, and the record of it.

use crate::location;
use crate::location::JoinedPath;
use crate::ordered_map::OrderedMap;
use crate::state::{ExternalRunEntry, ProcessEntry, State};
use crate::text;
use crate::words;
use vstd::prelude::*;

verus! {

/// A command whose placeholders are filled in, to be spawned as a child process that is tracked
/// by its process id.
#[derive(Debug)]
pub struct Runnable<'a> {
    pub resolved_command: &'a str,
    pub cwd: &'a str,
    pub extra_env: &'a OrderedMap<String>,
    /// Names the log file of the process.
    pub name: &'a str,
}

/// Why a command cannot be spawned.
#[derive(Debug)]
pub enum CommandError {
    /// A quote is left open.
    Unparsable { command: String },
    /// There is no word in it.
    Empty,
}

impl CommandError {
    /// What is reported to the user.
    pub fn message(&self) -> (r: String)
        ensures
            r@ == match *self {
                CommandError::Unparsable { command } => "could not parse command '"@ + command@
                    + "': missing closing quote"@,
                CommandError::Empty => "command is empty"@,
            },
    {
        match self {
            CommandError::Unparsable { command } => {
                let mut r = "could not parse command '".to_owned();
                r.append(command.as_str());
                r.append("': missing closing quote");
                r
            },
            CommandError::Empty => "command is empty".to_owned(),
        }
    }
}

/// A program and its arguments.
#[derive(Debug)]
pub struct Invocation {
    pub program: String,
    pub args: Vec<String>,
}

impl Invocation {
    /// The program, then its arguments.
    pub open spec fn words(self) -> Seq<Seq<char>> {
        seq![self.program@] + text::texts(self.args@)
    }
}

/// The program and the arguments that the words of a command come to.
pub fn invocation_of(words: Vec<String>) -> (r: Option<Invocation>)
    ensures
        match r {
            Some(i) => i.words() == text::texts(words@),
            None => words@.len() == 0,
        },
{
    if words.len() == 0 {
        return None;
    }
    let mut args = words;
    let program = args.remove(0);
    let r = Invocation { program, args };
    assert(r.words() =~= text::texts(words@));
    Some(r)
}

/// The program and the arguments of a command.
pub fn command_words(command: &str) -> (r: Result<Invocation, CommandError>)
    ensures
        match r {
            Ok(i) => words::split_words(command@) == Some(i.words()),
            Err(CommandError::Unparsable { command: c }) => c@ == command@ && words::split_words(
                command@,
            ) is None,
            Err(CommandError::Empty) => words::split_words(command@) matches Some(ws)
                && ws.len() == 0,
        },
        forall|list: Seq<Seq<char>>| #[trigger]
            words::is_plain_list(command@, list) && list.len() > 0 ==> r is Ok
                && r->Ok_0.words() == list,
        forall|word: Seq<char>, rest: Seq<Seq<char>>| #[trigger]
            words::is_quoted_list(command@, word, rest) ==> r is Ok && r->Ok_0.words()
                == seq![word] + rest,
{
    match words::split(command) {
        Ok(parts) => match invocation_of(parts) {
            Some(i) => Ok(i),
            None => Err(CommandError::Empty),
        },
        Err(_) => Err(CommandError::Unparsable { command: command.to_owned() }),
    }
}

/// Where the output of a process goes: `~/.stack/logs/<name>.log`.
pub fn log_path(home: &str, name: &str) -> (r: JoinedPath)
    ensures
        r@ == location::stack_dir(home@).join("logs"@).join(name@ + ".log"@),
{
    let mut file = name.to_owned();
    file.append(".log");
    location::stack_directory(home).join("logs").join(file.as_str())
}

/// Records a project that was started at `started_at`, with the services that it runs with.
pub fn record_project(
    state: &mut State,
    name: &str,
    pid: u32,
    port: Option<u16>,
    services: Vec<String>,
    started_at: String,
)
    ensures
        final(state).projects@.remove(name@) == old(state).projects@.remove(name@),
        final(state).projects@.contains_key(name@),
        final(state).projects@[name@].holds(
            pid,
            port,
            started_at@,
            None,
            text::texts(services@),
        ),
        final(state).services == old(state).services,
        final(state).external_runs == old(state).external_runs,
        final(state).caddy_pid == old(state).caddy_pid,
{
    let entry = ProcessEntry { pid, port, started_at, data_dir: None, services };
    state.projects.insert(name.to_owned(), entry);
}

/// Records a service that was started at `started_at`.
pub fn record_service(
    state: &mut State,
    key: &str,
    pid: u32,
    port: Option<u16>,
    data_dir: Option<String>,
    started_at: String,
)
    ensures
        final(state).services@.remove(key@) == old(state).services@.remove(key@),
        final(state).services@.contains_key(key@),
        final(state).services@[key@].holds(
            pid,
            port,
            started_at@,
            text::opt_text(data_dir),
            Seq::empty(),
        ),
        final(state).projects == old(state).projects,
        final(state).external_runs == old(state).external_runs,
        final(state).caddy_pid == old(state).caddy_pid,
{
    let entry = ProcessEntry { pid, port, started_at, data_dir, services: Vec::new() };
    assert(text::texts(entry.services@) =~= Seq::empty());
    state.services.insert(key.to_owned(), entry);
}

/// Records a process that stack only routes to.
pub fn record_external_run(
    state: &mut State,
    name: &str,
    port: u16,
    domain: Option<String>,
    registered_at: String,
)
    ensures
        final(state).external_runs@ == old(state).external_runs@.insert(
            name@,
            (ExternalRunEntry { port, domain, registered_at }),
        ),
        final(state).projects == old(state).projects,
        final(state).services == old(state).services,
        final(state).caddy_pid == old(state).caddy_pid,
{
    state.external_runs.insert(name.to_owned(), ExternalRunEntry { port, domain, registered_at });
}

} // verus!
