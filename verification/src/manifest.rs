//! `stack.toml`: what a project declares, and the values that follow from it.

use crate::location;
use crate::location::JoinedPath;
use crate::ordered_map::OrderedMap;
use crate::placeholder;
use crate::placeholder::Sources;
use crate::text;
use vstd::prelude::*;

verus! {

/// Everything that a `stack.toml` declares.
#[derive(Debug)]
pub struct Manifest {
    pub project: Project,
    pub clones: Vec<CloneEntry>,
    pub language: OrderedMap<Language>,
    pub service: OrderedMap<Service>,
    pub run: Option<Run>,
    pub tool: OrderedMap<Tool>,
}

/// `[project]`.
#[derive(Debug)]
pub struct Project {
    pub name: String,
    pub domain: Option<String>,
}

/// One `[[clone]]` entry.
#[derive(Debug)]
pub struct CloneEntry {
    pub repo: String,
    pub path: Option<String>,
    pub git_ref: Option<String>,
}

/// One `[language]` entry: a version alone, or a table.
#[derive(Debug)]
pub enum Language {
    Simple(String),
    Detailed {
        version: Option<String>,
        manager: Option<String>,
        plugin: Option<String>,
        binary: Option<String>,
        path: Option<String>,
        workers: Option<u32>,
    },
}

/// A port: a number, or a template that resolves to one.
#[derive(Debug)]
pub enum PortValue {
    Literal(u16),
    Template(String),
}

/// One `[service.*]` table.
#[derive(Debug)]
pub struct Service {
    pub version: String,
    pub schema: Option<String>,
    pub port: Option<PortValue>,
    pub command: Option<String>,
    pub path: Option<String>,
    pub external: bool,
}

/// `[run]`.
#[derive(Debug)]
pub struct Run {
    pub command: Option<String>,
    pub port: Option<PortValue>,
    pub cwd: String,
    pub external: bool,
}

/// One `[tool.*]` table.
#[derive(Debug)]
pub struct Tool {
    pub path: Option<String>,
    pub version: Option<String>,
}

impl Default for Project {
    /// No name and no domain.
    fn default() -> (r: Project)
        ensures
            r.name@ == ""@,
            r.domain is None,
    {
        Project { name: "".to_owned(), domain: None }
    }
}

/// An optional string, borrowed.
pub fn borrowed(o: &Option<String>) -> (r: Option<&str>)
    ensures
        text::opt_str(r) == text::opt_text(*o),
{
    match o {
        Some(s) => Some(s.as_str()),
        None => None,
    }
}

/// The characters that part the segments of a repository's address.
pub open spec fn parts_address(c: char) -> bool {
    c == '/' || c == ':'
}

/// What stands behind the last separator of an address.
pub open spec fn last_segment(s: Seq<char>) -> Seq<char>
    decreases s.len(),
{
    if s.len() == 0 || parts_address(s.last()) {
        Seq::empty()
    } else {
        last_segment(s.drop_last()).push(s.last())
    }
}

/// A suffix without separators, behind a separator or the start, is the last segment.
proof fn last_segment_from(s: Seq<char>, at: int)
    requires
        0 <= at <= s.len(),
        at == 0 || parts_address(s[at - 1]),
        forall|i: int| at <= i < s.len() ==> !parts_address(#[trigger] s[i]),
    ensures
        last_segment(s) == s.skip(at),
    decreases s.len(),
{
    if at == s.len() {
        assert(s.skip(at) =~= Seq::empty());
    } else {
        last_segment_from(s.drop_last(), at);
        assert(s.skip(at) =~= s.drop_last().skip(at).push(s.last()));
    }
}

/// The last segment of an address, trailing slashes aside.
pub open spec fn address_tail(repo: Seq<char>) -> Seq<char> {
    last_segment(text::drop_trailing(repo, text::Class::Slash))
}

/// No folder name can be derived from a repository's address.
#[derive(Debug)]
pub struct NoFolderName {
    pub repo: String,
}

impl NoFolderName {
    /// What is reported to the user.
    pub fn message(&self) -> (r: String)
        ensures
            r@ == "could not derive a folder name from repo URL '"@ + self.repo@ + "'"@,
    {
        let mut r = "could not derive a folder name from repo URL '".to_owned();
        r.append(self.repo.as_str());
        r.append("'");
        r
    }
}

impl CloneEntry {
    /// The folder that the entry is cloned into where it names none.
    pub open spec fn folder(self) -> Option<Seq<char>> {
        let tail = address_tail(self.repo@);
        if tail.len() == 0 {
            None
        } else {
            Some(text::without_suffix(tail, ".git"@))
        }
    }

    /// The last segment of `repo`, with a trailing `.git` stripped.
    pub fn derived_folder_name(&self) -> (r: Result<String, NoFolderName>)
        ensures
            match r {
                Ok(name) => self.folder() == Some(name@),
                Err(e) => self.folder() is None && e.repo@ == self.repo@,
            },
    {
        let trimmed = text::trim_trailing(self.repo.as_str(), text::Class::Slash);
        let v = text::chars_of(trimmed.as_str());
        let mut at: usize = v.len();
        while at > 0 && v[at - 1] != '/' && v[at - 1] != ':'
            invariant
                at <= v@.len(),
                forall|i: int| at <= i < v@.len() ==> !parts_address(#[trigger] v@[i]),
            decreases at,
        {
            at -= 1;
        }
        proof {
            last_segment_from(v@, at as int);
            assert(v@.subrange(at as int, v@.len() as int) =~= v@.skip(at as int));
        }
        if at == v.len() {
            return Err(NoFolderName { repo: self.repo.clone() });
        }
        let name = text::text_of(&v, at, v.len());
        Ok(text::strip_suffix(name.as_str(), ".git"))
    }

    /// The directory this entry clones into, under `project_dir`.
    pub fn target_dir(&self, project_dir: &str) -> (r: Result<JoinedPath, NoFolderName>)
        ensures
            match r {
                Ok(dir) => match self.path {
                    Some(path) => dir@ == location::plain(project_dir@).join(path@),
                    None => self.folder() is Some && dir@ == location::plain(project_dir@).join(
                        self.folder()->0,
                    ),
                },
                Err(e) => self.path is None && self.folder() is None && e.repo@ == self.repo@,
            },
    {
        match &self.path {
            Some(path) => Ok(JoinedPath::new(project_dir).join(path.as_str())),
            None => match self.derived_folder_name() {
                Ok(name) => Ok(JoinedPath::new(project_dir).join(name.as_str())),
                Err(e) => Err(e),
            },
        }
    }
}

impl Language {
    /// The declared version.
    pub open spec fn version_text(self) -> Option<Seq<char>> {
        match self {
            Language::Simple(v) => Some(v@),
            Language::Detailed { version, .. } => text::opt_text(version),
        }
    }

    /// The declared manager.
    pub open spec fn manager_text(self) -> Option<Seq<char>> {
        match self {
            Language::Simple(_) => None,
            Language::Detailed { manager, .. } => text::opt_text(manager),
        }
    }

    /// The declared plugin.
    pub open spec fn plugin_text(self) -> Option<Seq<char>> {
        match self {
            Language::Simple(_) => None,
            Language::Detailed { plugin, .. } => text::opt_text(plugin),
        }
    }

    /// The declared binary name.
    pub open spec fn binary_text(self) -> Option<Seq<char>> {
        match self {
            Language::Simple(_) => None,
            Language::Detailed { binary, .. } => text::opt_text(binary),
        }
    }

    /// The declared path.
    pub open spec fn path_text(self) -> Option<Seq<char>> {
        match self {
            Language::Simple(_) => None,
            Language::Detailed { path, .. } => text::opt_text(path),
        }
    }

    /// The declared version.
    pub fn version(&self) -> (r: Option<&str>)
        ensures
            text::opt_str(r) == self.version_text(),
    {
        match self {
            Language::Simple(v) => Some(v.as_str()),
            Language::Detailed { version, .. } => borrowed(version),
        }
    }

    /// The declared manager.
    pub fn manager(&self) -> (r: Option<&str>)
        ensures
            text::opt_str(r) == self.manager_text(),
    {
        match self {
            Language::Simple(_) => None,
            Language::Detailed { manager, .. } => borrowed(manager),
        }
    }

    /// The declared plugin.
    pub fn plugin(&self) -> (r: Option<&str>)
        ensures
            text::opt_str(r) == self.plugin_text(),
    {
        match self {
            Language::Simple(_) => None,
            Language::Detailed { plugin, .. } => borrowed(plugin),
        }
    }

    /// The declared binary name.
    pub fn binary(&self) -> (r: Option<&str>)
        ensures
            text::opt_str(r) == self.binary_text(),
    {
        match self {
            Language::Simple(_) => None,
            Language::Detailed { binary, .. } => borrowed(binary),
        }
    }

    /// The declared path.
    pub fn path(&self) -> (r: Option<&str>)
        ensures
            text::opt_str(r) == self.path_text(),
    {
        match self {
            Language::Simple(_) => None,
            Language::Detailed { path, .. } => borrowed(path),
        }
    }

    /// How many workers serve requests, where that is said.
    pub open spec fn worker_count(self) -> Option<u32> {
        match self {
            Language::Simple(_) => None,
            Language::Detailed { workers, .. } => workers,
        }
    }

    /// The declared number of workers.
    pub fn workers(&self) -> (r: Option<u32>)
        ensures
            r == self.worker_count(),
    {
        match self {
            Language::Simple(_) => None,
            Language::Detailed { workers, .. } => *workers,
        }
    }
}

/// Why a port did not resolve.
#[derive(Debug)]
pub enum PortError {
    /// The template mentions names that have no value.
    Missing(Vec<String>),
    /// The template resolved to something that is no port number.
    NotAPort { template: String, resolved: String, fault: text::NumberFault },
}

/// Why a port did not resolve, as text.
pub enum PortFault {
    Missing(Seq<Seq<char>>),
    NotAPort { template: Seq<char>, resolved: Seq<char>, fault: text::NumberFault },
}

impl View for PortError {
    type V = PortFault;

    open spec fn view(&self) -> PortFault {
        match *self {
            PortError::Missing(names) => PortFault::Missing(text::texts(names@)),
            PortError::NotAPort { template, resolved, fault } => PortFault::NotAPort {
                template: template@,
                resolved: resolved@,
                fault,
            },
        }
    }
}

impl PortFault {
    /// What is reported to the user.
    pub open spec fn report(self) -> Seq<char> {
        match self {
            PortFault::Missing(names) => "missing required value(s): "@ + text::joined(
                names,
                ", "@,
            ),
            PortFault::NotAPort { template, resolved, .. } => "'"@ + template + "' resolved to '"@
                + resolved + "', which isn't a valid port number"@,
        }
    }

    /// What is reported to the user, with the cause.
    pub open spec fn full_report(self) -> Seq<char> {
        match self {
            PortFault::Missing(_) => self.report(),
            PortFault::NotAPort { fault, .. } => self.report() + ": "@ + fault.spec_message(),
        }
    }
}

impl PortError {
    /// What is reported to the user.
    pub fn message(&self) -> (r: String)
        ensures
            r@ == self@.report(),
    {
        match self {
            PortError::Missing(names) => {
                let mut r = "missing required value(s): ".to_owned();
                r.append(text::join(names, ", ").as_str());
                r
            },
            PortError::NotAPort { template, resolved, .. } => {
                let mut r = "'".to_owned();
                r.append(template.as_str());
                r.append("' resolved to '");
                r.append(resolved.as_str());
                r.append("', which isn't a valid port number");
                r
            },
        }
    }

    /// What is reported to the user, with the cause.
    pub fn full_message(&self) -> (r: String)
        ensures
            r@ == self@.full_report(),
    {
        let mut r = self.message();
        match self {
            PortError::Missing(_) => {},
            PortError::NotAPort { fault, .. } => {
                r.append(": ");
                r.append(fault.message().as_str());
            },
        }
        r
    }
}

impl PortValue {
    /// The port, or why there is none.
    pub open spec fn outcome(self, sources: Sources) -> Result<nat, PortFault> {
        match self {
            PortValue::Literal(p) => Ok(p as nat),
            PortValue::Template(t) => match placeholder::resolution(t@, Map::empty(), sources) {
                Err(names) => Err(PortFault::Missing(names)),
                Ok(resolved) => match text::number_of(resolved) {
                    Ok(n) => Ok(n),
                    Err(fault) => Err(PortFault::NotAPort { template: t@, resolved, fault }),
                },
            },
        }
    }

    /// The port, with the placeholders of a template filled in.
    pub fn resolve(&self, sources: &Sources) -> (r: Result<u16, PortError>)
        ensures
            match r {
                Ok(p) => self.outcome(*sources) == Ok::<nat, PortFault>(p as nat),
                Err(e) => self.outcome(*sources) == Err::<nat, PortFault>(e@),
            },
    {
        match self {
            PortValue::Literal(p) => Ok(*p),
            PortValue::Template(template) => {
                let reserved: OrderedMap<String> = OrderedMap::new();
                match placeholder::resolve(template.as_str(), &reserved, sources) {
                    Err(missing) => Err(PortError::Missing(missing)),
                    Ok(resolved) => match text::parse_number(resolved.as_str()) {
                        Ok(p) => Ok(p),
                        Err(fault) => Err(
                            PortError::NotAPort { template: template.clone(), resolved, fault },
                        ),
                    },
                }
            },
        }
    }
}

/// The port that an engine listens on by convention.
pub open spec fn usual_port(engine: Seq<char>) -> Option<u16> {
    if engine == "mysql"@ {
        Some(3306)
    } else if engine == "postgres"@ || engine == "postgresql"@ {
        Some(5432)
    } else if engine == "mongo"@ || engine == "mongodb"@ {
        Some(27017)
    } else {
        None
    }
}

/// The port that an engine listens on by convention.
pub fn conventional_port(engine: &str) -> (r: Option<u16>)
    ensures
        r == usual_port(engine@),
{
    if text::same(engine, "mysql") {
        Some(3306)
    } else if text::same(engine, "postgres") || text::same(engine, "postgresql") {
        Some(5432)
    } else if text::same(engine, "mongo") || text::same(engine, "mongodb") {
        Some(27017)
    } else {
        None
    }
}

/// The command that starts an engine where the manifest gives none.
pub open spec fn usual_command(engine: Seq<char>) -> Option<Seq<char>> {
    if engine == "mysql"@ {
        Some("{path} --datadir={data_dir} --port={port}"@)
    } else if engine == "postgres"@ || engine == "postgresql"@ {
        Some("{path} -D {data_dir} -o \"-p {port}\""@)
    } else if engine == "mongo"@ || engine == "mongodb"@ {
        Some("{path} --dbpath {data_dir} --port {port}"@)
    } else {
        None
    }
}

/// The command that starts an engine where the manifest gives none.
pub fn default_command(engine: &str) -> (r: Option<&'static str>)
    ensures
        text::opt_str(r) == usual_command(engine@),
{
    if text::same(engine, "mysql") {
        Some("{path} --datadir={data_dir} --port={port}")
    } else if text::same(engine, "postgres") || text::same(engine, "postgresql") {
        Some("{path} -D {data_dir} -o \"-p {port}\"")
    } else if text::same(engine, "mongo") || text::same(engine, "mongodb") {
        Some("{path} --dbpath {data_dir} --port {port}")
    } else {
        None
    }
}

/// A template of three placeholders for the path, the data directory and the port mentions just
/// these.
proof fn launch_names(a: Seq<char>, b: Seq<char>, c: Seq<char>, d: Seq<char>)
    requires
        !a.contains('{'),
        !b.contains('{'),
        !c.contains('{'),
        !d.contains('{'),
    ensures
        placeholder::names(
            a + placeholder::mark("path"@) + (b + placeholder::mark("data_dir"@) + (c
                + placeholder::mark("port"@) + d)),
        ) == seq!["path"@, "data_dir"@, "port"@],
{
    reveal_strlit("path");
    reveal_strlit("data_dir");
    reveal_strlit("port");
    let third = c + placeholder::mark("port"@) + d;
    let second = b + placeholder::mark("data_dir"@) + third;
    placeholder::no_name(d);
    placeholder::first_name(c, "port"@, d);
    placeholder::first_name(b, "data_dir"@, third);
    placeholder::first_name(a, "path"@, second);
    let all = seq!["path"@, "data_dir"@, "port"@];
    assert(seq!["path"@] + (seq!["data_dir"@] + (seq!["port"@] + Seq::<Seq<char>>::empty()))
        =~= all);
    assert("path"@[1] != "port"@[1]);
    assert("path"@.len() != "data_dir"@.len());
    assert("port"@.len() != "data_dir"@.len());
    reveal_with_fuel(placeholder::distinct, 4);
    assert(all.drop_last() =~= seq!["path"@, "data_dir"@]);
    assert(all.drop_last().drop_last() =~= seq!["path"@]);
    assert(all.drop_last().drop_last().drop_last() =~= Seq::empty());
    assert(placeholder::distinct(all.drop_last().drop_last()) =~= seq!["path"@]);
    assert(placeholder::distinct(all.drop_last()) =~= seq!["path"@, "data_dir"@]);
    assert(placeholder::distinct(all) =~= all);
}

/// An engine has a default command exactly where it has a conventional port. The command mentions
/// the path, the data directory and the port, which are reserved, and nothing else, so that it
/// never needs the environment. An engine's two names mean the same.
pub proof fn default_commands_need_reserved_names_only(engine: Seq<char>)
    ensures
        usual_command(engine) is Some == usual_port(engine) is Some,
        usual_command(engine) matches Some(c) ==> placeholder::names(c) == seq![
            "path"@,
            "data_dir"@,
            "port"@,
        ],
        usual_command("postgresql"@) == usual_command("postgres"@),
        usual_port("postgresql"@) == usual_port("postgres"@),
        usual_command("mongodb"@) == usual_command("mongo"@),
        usual_port("mongodb"@) == usual_port("mongo"@),
{
    reveal_strlit("mysql");
    reveal_strlit("postgres");
    reveal_strlit("postgresql");
    reveal_strlit("mongo");
    reveal_strlit("mongodb");
    assert("mysql"@.len() == 5 && "mongo"@.len() == 5 && "mysql"@[1] != "mongo"@[1]);
    assert("postgres"@.len() == 8 && "postgresql"@.len() == 10 && "mongodb"@.len() == 7);
    reveal_strlit("path");
    reveal_strlit("data_dir");
    reveal_strlit("port");
    reveal_strlit("{");
    reveal_strlit("}");
    let mysql = "{path} --datadir={data_dir} --port={port}"@;
    let postgres = "{path} -D {data_dir} -o \"-p {port}\""@;
    let mongo = "{path} --dbpath {data_dir} --port {port}"@;
    reveal_strlit("{path} --datadir={data_dir} --port={port}");
    reveal_strlit(" --datadir=");
    reveal_strlit(" --port=");
    reveal_strlit("");
    launch_names(""@, " --datadir="@, " --port="@, ""@);
    assert(mysql =~= ""@ + placeholder::mark("path"@) + (" --datadir="@ + placeholder::mark(
        "data_dir"@,
    ) + (" --port="@ + placeholder::mark("port"@) + ""@)));
    reveal_strlit("{path} -D {data_dir} -o \"-p {port}\"");
    reveal_strlit(" -D ");
    reveal_strlit(" -o \"-p ");
    reveal_strlit("\"");
    launch_names(""@, " -D "@, " -o \"-p "@, "\""@);
    assert(postgres =~= ""@ + placeholder::mark("path"@) + (" -D "@ + placeholder::mark(
        "data_dir"@,
    ) + (" -o \"-p "@ + placeholder::mark("port"@) + "\""@)));
    reveal_strlit("{path} --dbpath {data_dir} --port {port}");
    reveal_strlit(" --dbpath ");
    reveal_strlit(" --port ");
    launch_names(""@, " --dbpath "@, " --port "@, ""@);
    assert(mongo =~= ""@ + placeholder::mark("path"@) + (" --dbpath "@ + placeholder::mark(
        "data_dir"@,
    ) + (" --port "@ + placeholder::mark("port"@) + ""@)));
}

/// An external service was given a command or a path.
#[derive(Debug)]
pub struct ExternalServiceStarted {
    pub engine: String,
}

impl ExternalServiceStarted {
    /// What is reported to the user.
    pub fn message(&self) -> (r: String)
        ensures
            r@ == "[service."@ + self.engine@
                + "] can't set path/command when external = true — stack only connects to it, never starts it"@,
    {
        let mut r = "[service.".to_owned();
        r.append(self.engine.as_str());
        r.append(
            "] can't set path/command when external = true — stack only connects to it, never starts it",
        );
        r
    }
}

impl Service {
    /// The schema, which is the project's name unless one is set.
    pub open spec fn schema_name(self, project_name: Seq<char>) -> Seq<char> {
        match self.schema {
            Some(s) => s@,
            None => project_name,
        }
    }

    /// The schema of a project in this service.
    pub fn resolve_schema(&self, project_name: &str) -> (r: String)
        ensures
            r@ == self.schema_name(project_name@),
    {
        match &self.schema {
            Some(s) => s.clone(),
            None => project_name.to_owned(),
        }
    }

    /// The port that the service is declared or known to listen on.
    pub open spec fn port_outcome(self, engine: Seq<char>, sources: Sources) -> Result<
        Option<nat>,
        PortFault,
    > {
        match self.port {
            Some(p) => match p.outcome(sources) {
                Ok(n) => Ok(Some(n)),
                Err(e) => Err(e),
            },
            None => match usual_port(engine) {
                Some(p) => Ok(Some(p as nat)),
                None => Ok(None),
            },
        }
    }

    /// The port that the service is declared or known to listen on.
    pub fn resolve_port(&self, engine: &str, sources: &Sources) -> (r: Result<
        Option<u16>,
        PortError,
    >)
        ensures
            port_is(self.port_outcome(engine@, *sources), r),
    {
        match &self.port {
            Some(spec) => match spec.resolve(sources) {
                Ok(p) => Ok(Some(p)),
                Err(e) => Err(e),
            },
            None => Ok(conventional_port(engine)),
        }
    }

    /// The command that starts the service.
    pub open spec fn command_text(self, engine: Seq<char>) -> Option<Seq<char>> {
        match self.command {
            Some(c) => Some(c@),
            None => usual_command(engine),
        }
    }

    /// The command that starts the service: the declared one, else the engine's own.
    pub fn resolve_command(&self, engine: &str) -> (r: Option<String>)
        ensures
            text::opt_text(r) == self.command_text(engine@),
    {
        match &self.command {
            Some(c) => Some(c.clone()),
            None => match default_command(engine) {
                Some(c) => Some(c.to_owned()),
                None => None,
            },
        }
    }

    /// An external service must not say how to start it.
    pub open spec fn is_valid(self) -> bool {
        self.external ==> self.path is None && self.command is None
    }

    /// Refuses an external service that says how to start it.
    pub fn validate(&self, engine: &str) -> (r: Result<(), ExternalServiceStarted>)
        ensures
            r is Ok == self.is_valid(),
            r matches Err(e) ==> e.engine@ == engine@,
    {
        if self.external && (self.path.is_some() || self.command.is_some()) {
            return Err(ExternalServiceStarted { engine: engine.to_owned() });
        }
        Ok(())
    }
}

/// A resolved optional port is the one that is stated.
pub open spec fn port_is(
    stated: Result<Option<nat>, PortFault>,
    r: Result<Option<u16>, PortError>,
) -> bool {
    match r {
        Ok(Some(p)) => stated == Ok::<Option<nat>, PortFault>(Some(p as nat)),
        Ok(None) => stated == Ok::<Option<nat>, PortFault>(None),
        Err(e) => stated == Err::<Option<nat>, PortFault>(e@),
    }
}

/// What is wrong with a `[run]` table.
#[derive(Debug, PartialEq, Eq, Structural)]
pub enum RunError {
    /// An external run has a command.
    CommandIgnored,
    /// An external run has no port.
    PortRequired,
    /// A run that is not external has no command, and no PHP to fall back to.
    CommandRequired,
}

impl RunError {
    /// What is reported to the user.
    pub open spec fn report(self) -> Seq<char> {
        match self {
            RunError::CommandIgnored => "[run].command is ignored when external = true — remove one or the other"@,
            RunError::PortRequired => "[run].port is required when external = true — stack has nothing to allocate for a process it isn't starting"@,
            RunError::CommandRequired => "[run].command is required unless external = true, or [language.php] is declared (defaults to stack's PHP FastCGI execution)"@,
        }
    }

    /// What is reported to the user.
    pub fn message(&self) -> (r: String)
        ensures
            r@ == self.report(),
    {
        match self {
            RunError::CommandIgnored =>
                "[run].command is ignored when external = true — remove one or the other".to_owned(),
            RunError::PortRequired =>
                "[run].port is required when external = true — stack has nothing to allocate for a process it isn't starting".to_owned(),
            RunError::CommandRequired =>
                "[run].command is required unless external = true, or [language.php] is declared (defaults to stack's PHP FastCGI execution)".to_owned(),
        }
    }
}

impl Run {
    /// The declared port, if one is declared.
    pub open spec fn port_outcome(self, sources: Sources) -> Result<Option<nat>, PortFault> {
        match self.port {
            Some(p) => match p.outcome(sources) {
                Ok(n) => Ok(Some(n)),
                Err(e) => Err(e),
            },
            None => Ok(None),
        }
    }

    /// The declared port, if one is declared.
    pub fn resolve_port(&self, sources: &Sources) -> (r: Result<Option<u16>, PortError>)
        ensures
            port_is(self.port_outcome(*sources), r),
    {
        match &self.port {
            Some(p) => match p.resolve(sources) {
                Ok(n) => Ok(Some(n)),
                Err(e) => Err(e),
            },
            None => Ok(None),
        }
    }

    /// What is wrong with the table, if anything is.
    pub open spec fn fault(self, has_php: bool) -> Option<RunError> {
        if self.external && self.command is Some {
            Some(RunError::CommandIgnored)
        } else if self.external && self.port is None {
            Some(RunError::PortRequired)
        } else if !self.external && self.command is None && !has_php {
            Some(RunError::CommandRequired)
        } else {
            None
        }
    }

    /// Refuses a table that contradicts itself. With `has_php`, which says that
    /// `[language.php]` is declared, an omitted command means the default PHP execution.
    pub fn validate(&self, has_php: bool) -> (r: Result<(), RunError>)
        ensures
            match r {
                Ok(_) => self.fault(has_php) is None,
                Err(e) => self.fault(has_php) == Some(e),
            },
    {
        if self.external {
            if self.command.is_some() {
                return Err(RunError::CommandIgnored);
            }
            if self.port.is_none() {
                return Err(RunError::PortRequired);
            }
        } else if self.command.is_none() && !has_php {
            return Err(RunError::CommandRequired);
        }
        Ok(())
    }
}

/// What a directory turned out to hold in place of a `stack.toml`.
#[derive(Debug)]
pub enum Lookup {
    /// There is none.
    Absent,
    /// There is one, and it cannot be read or parsed, for the reason given.
    Unreadable(String),
    /// There is one, and this is what it declares.
    Present(Manifest),
}

/// One directory, its own name where it has one, and what was found in it.
#[derive(Debug)]
pub struct Visited {
    pub dir: String,
    pub folder: Option<String>,
    pub found: Lookup,
}

/// Why no manifest was found.
#[derive(Debug)]
pub enum FindError {
    /// Neither the directory nor a parent of it has a manifest.
    NotFound,
    /// The nearest manifest cannot be read.
    Unreadable(String),
}

impl FindError {
    /// What is reported to the user.
    pub fn message(&self) -> (r: String)
        ensures
            r@ == match *self {
                FindError::NotFound => "no stack.toml found in this directory or any parent"@,
                FindError::Unreadable(why) => why@,
            },
    {
        match self {
            FindError::NotFound => "no stack.toml found in this directory or any parent".to_owned(),
            FindError::Unreadable(why) => why.clone(),
        }
    }
}

/// The name that a project goes by: its own, else that of its folder.
pub open spec fn project_name(declared: Seq<char>, folder: Option<Seq<char>>) -> Seq<char> {
    if declared.len() > 0 {
        declared
    } else {
        match folder {
            Some(f) => f,
            None => "project"@,
        }
    }
}

/// The domain that a project is reached at: its own, else its name under `.localhost`.
pub open spec fn project_domain(declared: Option<Seq<char>>, name: Seq<char>) -> Seq<char> {
    match declared {
        Some(d) => d,
        None => name + ".localhost"@,
    }
}

impl Manifest {
    /// `loaded` is `self` with the project's name and domain filled in.
    pub open spec fn completed(self, folder: Option<Seq<char>>, loaded: Manifest) -> bool {
        let name = project_name(self.project.name@, folder);
        &&& loaded.project.name@ == name
        &&& text::opt_text(loaded.project.domain) == Some(
            project_domain(text::opt_text(self.project.domain), name),
        )
        &&& loaded.clones == self.clones
        &&& loaded.language == self.language
        &&& loaded.service == self.service
        &&& loaded.run == self.run
        &&& loaded.tool == self.tool
    }

    /// Fills in what a parsed manifest leaves out: the project's name, which is that of its
    /// folder, and its domain.
    pub fn load(parsed: Manifest, folder: Option<&str>) -> (r: Manifest)
        ensures
            parsed.completed(text::opt_str(folder), r),
    {
        let mut manifest = parsed;
        if text::same(manifest.project.name.as_str(), "") {
            proof {
                reveal_strlit("");
            }
            manifest.project.name = match folder {
                Some(f) => f.to_owned(),
                None => "project".to_owned(),
            };
        } else {
            proof {
                reveal_strlit("");
                if parsed.project.name@.len() == 0 {
                    assert(parsed.project.name@ =~= ""@);
                }
            }
        }
        if manifest.project.domain.is_none() {
            let mut domain = manifest.project.name.clone();
            domain.append(".localhost");
            manifest.project.domain = Some(domain);
        }
        manifest
    }

    /// The nearest manifest, from a directory upwards: the first of the visited directories that
    /// has one decides.
    pub fn find_and_load(visited: Vec<Visited>) -> (r: Result<(JoinedPath, Manifest), FindError>)
        ensures
            match r {
                Ok((path, manifest)) => exists|i: int|
                    {
                        &&& nearest(visited@, i)
                        &&& path@ == location::plain(visited@[i].dir@).join("stack.toml"@)
                        &&& visited@[i].found matches Lookup::Present(parsed)
                            && parsed.completed(text::opt_text(visited@[i].folder), manifest)
                    },
                Err(FindError::Unreadable(why)) => exists|i: int|
                    {
                        &&& nearest(visited@, i)
                        &&& visited@[i].found == Lookup::Unreadable(why)
                    },
                Err(FindError::NotFound) => forall|i: int|
                    0 <= i < visited@.len() ==> (#[trigger] visited@[i]).found is Absent,
            },
    {
        let mut rest = visited;
        let ghost mut passed: int = 0;
        assert(visited@.skip(0) =~= visited@);
        while rest.len() > 0
            invariant
                0 <= passed <= visited@.len(),
                rest@ == visited@.skip(passed),
                forall|i: int| 0 <= i < passed ==> (#[trigger] visited@[i]).found is Absent,
            decreases rest@.len(),
        {
            let here = rest.remove(0);
            assert(here == visited@[passed]);
            match here.found {
                Lookup::Absent => {},
                Lookup::Unreadable(why) => {
                    assert(nearest(visited@, passed));
                    return Err(FindError::Unreadable(why));
                },
                Lookup::Present(parsed) => {
                    assert(nearest(visited@, passed));
                    let path = JoinedPath::new(here.dir.as_str()).join("stack.toml");
                    return Ok((path, Manifest::load(parsed, borrowed(&here.folder))));
                },
            }
            proof {
                assert(rest@ =~= visited@.skip(passed + 1));
                passed = passed + 1;
            }
        }
        Err(FindError::NotFound)
    }
}

/// The directory at `i` is the first that has a manifest.
pub open spec fn nearest(visited: Seq<Visited>, i: int) -> bool {
    &&& 0 <= i < visited.len()
    &&& !(visited[i].found is Absent)
    &&& forall|j: int| 0 <= j < i ==> (#[trigger] visited[j]).found is Absent
}

/// Which manifest is found depends on nothing beyond the first directory that has one.
pub proof fn nearest_is_unique(visited: Seq<Visited>, i: int, j: int)
    requires
        nearest(visited, i),
        nearest(visited, j),
    ensures
        i == j,
{
}

/// Filling in a manifest that was filled in before changes nothing.
pub proof fn loading_twice_changes_nothing(
    parsed: Manifest,
    once: Manifest,
    twice: Manifest,
    folder: Option<Seq<char>>,
)
    requires
        parsed.completed(folder, once),
        once.completed(folder, twice),
    ensures
        twice.project.name@ == once.project.name@,
        text::opt_text(twice.project.domain) == text::opt_text(once.project.domain),
{
}

} // verus!
