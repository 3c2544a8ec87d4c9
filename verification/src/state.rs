//! What stack has started and still keeps track of: the contents of `state.json`.

use crate::location;
use crate::location::JoinedPath;
use crate::ordered_map::OrderedMap;
use crate::text;
use vstd::prelude::*;

verus! {

/// Everything that is running, by name.
#[derive(Debug)]
pub struct State {
    pub projects: OrderedMap<ProcessEntry>,
    /// Keyed by "engine@version".
    pub services: OrderedMap<ProcessEntry>,
    pub external_runs: OrderedMap<ExternalRunEntry>,
    pub caddy_pid: Option<u32>,
}

/// A process that stack started.
#[derive(Debug)]
pub struct ProcessEntry {
    pub pid: u32,
    pub port: Option<u16>,
    pub started_at: String,
    pub data_dir: Option<String>,
    /// The "engine@version" keys of the services that a project runs with. Always empty on the
    /// entry of a service. Whether a service is still needed is found by looking through the
    /// projects, so there is no count to keep.
    pub services: Vec<String>,
}

/// A process that stack only routes to.
#[derive(Debug)]
pub struct ExternalRunEntry {
    pub port: u16,
    pub domain: Option<String>,
    pub registered_at: String,
}

impl ProcessEntry {
    /// The entry holds exactly this.
    pub open spec fn holds(
        self,
        pid: u32,
        port: Option<u16>,
        started_at: Seq<char>,
        data_dir: Option<Seq<char>>,
        services: Seq<Seq<char>>,
    ) -> bool {
        &&& self.pid == pid
        &&& self.port == port
        &&& self.started_at@ == started_at
        &&& text::opt_text(self.data_dir) == data_dir
        &&& text::texts(self.services@) == services
    }
}

impl Default for State {
    /// Nothing is running.
    fn default() -> (r: State)
        ensures
            r.is_empty(),
    {
        State {
            projects: OrderedMap::new(),
            services: OrderedMap::new(),
            external_runs: OrderedMap::new(),
            caddy_pid: None,
        }
    }
}

impl State {
    /// Nothing is kept track of.
    pub open spec fn is_empty(self) -> bool {
        &&& self.projects@ == Map::<Seq<char>, ProcessEntry>::empty()
        &&& self.services@ == Map::<Seq<char>, ProcessEntry>::empty()
        &&& self.external_runs@ == Map::<Seq<char>, ExternalRunEntry>::empty()
        &&& self.caddy_pid is None
    }

    /// Where the state is kept: `~/.stack/state.json`.
    pub fn state_path(home: &str) -> (r: JoinedPath)
        ensures
            r@ == location::stack_dir(home@).join("state.json"@),
    {
        location::stack_directory(home).join("state.json")
    }
}

} // verus!
