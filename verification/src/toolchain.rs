//! Finding the binary of a language: a path of the user's own, a registered one, or one that a
//! version manager installs.

use crate::location;
use crate::location::JoinedPath;
use crate::manifest::Language;
use crate::registry::Registry;
use crate::text;
use vstd::prelude::*;

verus! {

/// The version manager that a language goes with by default.
pub open spec fn usual_manager(name: Seq<char>) -> Option<Seq<char>> {
    if name == "php"@ || name == "node"@ {
        Some("vfox"@)
    } else if name == "python"@ {
        Some("uv"@)
    } else {
        None
    }
}

/// The version manager that a language goes with by default.
fn default_manager(name: &str) -> (r: Option<&'static str>)
    ensures
        text::opt_str(r) == usual_manager(name@),
{
    if text::same(name, "php") || text::same(name, "node") {
        Some("vfox")
    } else if text::same(name, "python") {
        Some("uv")
    } else {
        None
    }
}

/// The vfox plugin of a language, where it is not called like the language.
pub open spec fn usual_plugin(name: Seq<char>) -> Option<Seq<char>> {
    if name == "node"@ {
        Some("nodejs"@)
    } else {
        None
    }
}

/// The vfox plugin of a language, where it is not called like the language.
fn default_vfox_plugin(name: &str) -> (r: Option<&'static str>)
    ensures
        text::opt_str(r) == usual_plugin(name@),
{
    if text::same(name, "node") {
        Some("nodejs")
    } else {
        None
    }
}

/// The vfox plugin of a language by default.
pub open spec fn plugin_named(name: Seq<char>) -> Seq<char> {
    match usual_plugin(name) {
        Some(p) => p,
        None => name,
    }
}

/// The vfox plugin of a language by default.
pub fn default_plugin(name: &str) -> (r: String)
    ensures
        r@ == plugin_named(name@),
{
    match default_vfox_plugin(name) {
        Some(p) => p.to_owned(),
        None => name.to_owned(),
    }
}

/// The manager that a language's entry asks for.
pub open spec fn manager_of(name: Seq<char>, entry: Language) -> Option<Seq<char>> {
    match entry.manager_text() {
        Some(m) => Some(m),
        None => usual_manager(name),
    }
}

/// The vfox plugin of a language's entry.
pub open spec fn plugin_of(name: Seq<char>, entry: Language) -> Seq<char> {
    match entry.plugin_text() {
        Some(p) => p,
        None => plugin_named(name),
    }
}

/// The binary of a language's entry: the one it names, else one called like the language.
pub open spec fn binary_of(name: Seq<char>, entry: Language, exe_suffix: Seq<char>) -> Seq<char> {
    match entry.binary_text() {
        Some(b) => b,
        None => name + exe_suffix,
    }
}

/// The vfox plugin and the binary of a language's entry.
pub fn vfox_plugin_and_binary(name: &str, entry: &Language, exe_suffix: &str) -> (r: (
    String,
    String,
))
    ensures
        r.0@ == plugin_of(name@, *entry),
        r.1@ == binary_of(name@, *entry, exe_suffix@),
{
    let plugin = match entry.plugin() {
        Some(p) => p.to_owned(),
        None => default_plugin(name),
    };
    let binary = match entry.binary() {
        Some(b) => b.to_owned(),
        None => {
            let mut b = name.to_owned();
            b.append(exe_suffix);
            b
        },
    };
    (plugin, binary)
}

/// Where the binary of a language is to be had from.
#[derive(Debug)]
pub enum Source {
    /// From a path of the user's own.
    OwnPath(String),
    /// From a registered path.
    Registered(String),
    /// From vfox.
    Vfox { plugin: String, version: String, binary: String },
    /// From uv.
    Uv { version: String },
}

/// What a `Source` says.
pub enum SourceText {
    OwnPath(Seq<char>),
    Registered(Seq<char>),
    Vfox { plugin: Seq<char>, version: Seq<char>, binary: Seq<char> },
    Uv { version: Seq<char> },
}

impl View for Source {
    type V = SourceText;

    open spec fn view(&self) -> SourceText {
        match *self {
            Source::OwnPath(p) => SourceText::OwnPath(p@),
            Source::Registered(p) => SourceText::Registered(p@),
            Source::Vfox { plugin, version, binary } => SourceText::Vfox {
                plugin: plugin@,
                version: version@,
                binary: binary@,
            },
            Source::Uv { version } => SourceText::Uv { version: version@ },
        }
    }
}

/// Why a language has no binary.
#[derive(Debug)]
pub enum SourceError {
    /// It names neither a version nor a path.
    NoVersion,
    /// It names no manager, none is known, and no path is registered.
    NoManager,
    /// It names a manager that is not known.
    UnknownManager(String),
}

/// What a `SourceError` says.
pub enum SourceFault {
    NoVersion,
    NoManager,
    UnknownManager(Seq<char>),
}

impl View for SourceError {
    type V = SourceFault;

    open spec fn view(&self) -> SourceFault {
        match *self {
            SourceError::NoVersion => SourceFault::NoVersion,
            SourceError::NoManager => SourceFault::NoManager,
            SourceError::UnknownManager(m) => SourceFault::UnknownManager(m@),
        }
    }
}

/// Where the binary of a language is to be had from, or why nowhere. A path of the user's own
/// comes before everything else, and a registered path only where no manager is known.
pub open spec fn source_of(
    name: Seq<char>,
    entry: Language,
    registry: Registry,
    exe_suffix: Seq<char>,
) -> Result<SourceText, SourceFault> {
    match (entry.path_text(), entry.version_text()) {
        (Some(path), _) => Ok(SourceText::OwnPath(path)),
        (None, None) => Err(SourceFault::NoVersion),
        (None, Some(version)) => match manager_of(name, entry) {
            None => match registry.path_of("language"@, name, version) {
                Some(path) => Ok(SourceText::Registered(path)),
                None => Err(SourceFault::NoManager),
            },
            Some(manager) => if manager == "vfox"@ {
                Ok(
                    SourceText::Vfox {
                        plugin: plugin_of(name, entry),
                        version,
                        binary: binary_of(name, entry, exe_suffix),
                    },
                )
            } else if manager == "uv"@ {
                Ok(SourceText::Uv { version })
            } else {
                Err(SourceFault::UnknownManager(manager))
            },
        },
    }
}

/// Where the binary of a language is to be had from, or why nowhere.
pub fn resolve(name: &str, entry: &Language, registry: &Registry, exe_suffix: &str) -> (r: Result<
    Source,
    SourceError,
>)
    ensures
        match r {
            Ok(s) => source_of(name@, *entry, *registry, exe_suffix@) == Ok::<_, SourceFault>(s@),
            Err(e) => source_of(name@, *entry, *registry, exe_suffix@) == Err::<SourceText, _>(e@),
        },
{
    match entry.path() {
        Some(path) => {
            return Ok(Source::OwnPath(path.to_owned()));
        },
        None => {},
    }
    let version = match entry.version() {
        Some(v) => v,
        None => {
            return Err(SourceError::NoVersion);
        },
    };
    let manager = match entry.manager() {
        Some(m) => m,
        None => match default_manager(name) {
            Some(m) => m,
            None => {
                return match registry.lookup_path("language", name, version) {
                    Some(path) => Ok(Source::Registered(path)),
                    None => Err(SourceError::NoManager),
                };
            },
        },
    };
    if text::same(manager, "vfox") {
        let (plugin, binary) = vfox_plugin_and_binary(name, entry, exe_suffix);
        Ok(Source::Vfox { plugin, version: version.to_owned(), binary })
    } else if text::same(manager, "uv") {
        Ok(Source::Uv { version: version.to_owned() })
    } else {
        Err(SourceError::UnknownManager(manager.to_owned()))
    }
}

/// Where the binary of a language would be had from if it is there already; nothing is installed
/// and nothing is reported.
pub fn lookup(name: &str, entry: &Language, registry: &Registry, exe_suffix: &str) -> (r: Option<
    Source,
>)
    ensures
        match r {
            Some(s) => source_of(name@, *entry, *registry, exe_suffix@) == Ok::<_, SourceFault>(
                s@,
            ),
            None => source_of(name@, *entry, *registry, exe_suffix@) is Err,
        },
{
    match resolve(name, entry, registry, exe_suffix) {
        Ok(s) => Some(s),
        Err(_) => None,
    }
}

impl SourceFault {
    /// What is reported to the user.
    pub open spec fn report(self, name: Seq<char>, version: Seq<char>) -> Seq<char> {
        match self {
            SourceFault::NoVersion => "[language."@ + name
                + "] needs either `version` or `path`"@,
            SourceFault::NoManager => "[language."@ + name
                + "] has no known default manager — set `manager` explicitly (supported: vfox, uv), or register a BYO path via `stack register language "@
                + name + " "@ + version + " <path>`"@,
            SourceFault::UnknownManager(m) => "[language."@ + name + "]: unknown manager '"@ + m
                + "' (supported: vfox, uv)"@,
        }
    }
}

impl SourceError {
    /// What is reported of a language, whose version is empty where none is declared.
    pub fn message(&self, name: &str, version: &str) -> (r: String)
        ensures
            r@ == self@.report(name@, version@),
    {
        let mut r = "[language.".to_owned();
        r.append(name);
        match self {
            SourceError::NoVersion => {
                r.append("] needs either `version` or `path`");
            },
            SourceError::NoManager => {
                r.append(
                    "] has no known default manager — set `manager` explicitly (supported: vfox, uv), or register a BYO path via `stack register language ",
                );
                r.append(name);
                r.append(" ");
                r.append(version);
                r.append(" <path>`");
            },
            SourceError::UnknownManager(m) => {
                r.append("]: unknown manager '");
                r.append(m.as_str());
                r.append("' (supported: vfox, uv)");
            },
        }
        r
    }
}

/// A path of the user's own, or a registered one, counts where it leads to a file; otherwise this
/// is what is reported.
pub fn existing_file(name: &str, path: String, registered: bool, is_file: bool) -> (r: Result<
    String,
    String,
>)
    ensures
        match r {
            Ok(p) => is_file && p == path,
            Err(why) => !is_file && why@ == missing_file_report(name@, path@, registered),
        },
{
    if is_file {
        Ok(path)
    } else {
        Err(missing_file_message(name, path.as_str(), registered))
    }
}

/// What is reported where a path of the user's own, or a registered one, leads to no file.
pub open spec fn missing_file_report(
    name: Seq<char>,
    path: Seq<char>,
    registered: bool,
) -> Seq<char> {
    if registered {
        "[language."@ + name + "] registered path no longer exists: "@ + path
    } else {
        "[language."@ + name + "].path does not exist: "@ + path
    }
}

/// What is reported where a path of the user's own, or a registered one, leads to no file.
pub fn missing_file_message(name: &str, path: &str, registered: bool) -> (r: String)
    ensures
        r@ == missing_file_report(name@, path@, registered),
{
    let mut r = "[language.".to_owned();
    r.append(name);
    if registered {
        r.append("] registered path no longer exists: ");
    } else {
        r.append("].path does not exist: ");
    }
    r.append(path);
    r
}

/// What running a version manager came to.
#[derive(Debug)]
pub enum Ran {
    /// There is no such program.
    NotFound,
    /// It could not be started, for the reason given.
    Failed(String),
    /// It ended.
    Ended { success: bool, stdout: String, stderr: String },
}

/// What a version manager says of an installation.
#[derive(Debug)]
pub enum Answer {
    /// It cannot be asked.
    NotRunnable(String),
    /// There is none.
    NotInstalled,
    /// It is here.
    At(String),
}

/// What an `Answer` says.
pub enum AnswerText {
    NotRunnable(Seq<char>),
    NotInstalled,
    At(Seq<char>),
}

impl View for Answer {
    type V = AnswerText;

    open spec fn view(&self) -> AnswerText {
        match *self {
            Answer::NotRunnable(m) => AnswerText::NotRunnable(m@),
            Answer::NotInstalled => AnswerText::NotInstalled,
            Answer::At(p) => AnswerText::At(p@),
        }
    }
}

/// What vfox says of an installation. It ends well and prints "notfound" where there is none, so
/// how it ended does not tell.
pub open spec fn vfox_says(plugin: Seq<char>, version: Seq<char>, ran: Ran) -> AnswerText {
    match ran {
        Ran::NotFound => AnswerText::NotRunnable("vfox is not installed or not on PATH"@),
        Ran::Failed(e) => AnswerText::NotRunnable("failed to run vfox: "@ + e@),
        Ran::Ended { success, stdout, stderr } => if !success {
            AnswerText::NotRunnable(
                "vfox info "@ + plugin + "@"@ + version + " failed: "@ + text::trimmed(stderr@),
            )
        } else {
            let path = text::trimmed(stdout@);
            if path.len() == 0 || path == "notfound"@ {
                AnswerText::NotInstalled
            } else {
                AnswerText::At(path)
            }
        },
    }
}

/// What vfox says of an installation. Where it gives a directory, that has yet to be looked for.
pub fn vfox_version_dir(plugin: &str, version: &str, ran: &Ran) -> (r: Answer)
    ensures
        r@ == vfox_says(plugin@, version@, *ran),
{
    match ran {
        Ran::NotFound => Answer::NotRunnable("vfox is not installed or not on PATH".to_owned()),
        Ran::Failed(e) => {
            let mut m = "failed to run vfox: ".to_owned();
            m.append(e.as_str());
            Answer::NotRunnable(m)
        },
        Ran::Ended { success, stdout, stderr } => {
            if !*success {
                let mut m = "vfox info ".to_owned();
                m.append(plugin);
                m.append("@");
                m.append(version);
                m.append(" failed: ");
                m.append(text::trim(stderr.as_str()).as_str());
                return Answer::NotRunnable(m);
            }
            let path = text::trim(stdout.as_str());
            proof {
                reveal_strlit("");
                if path@.len() == 0 {
                    assert(path@ =~= ""@);
                }
            }
            if text::same(path.as_str(), "") || text::same(path.as_str(), "notfound") {
                Answer::NotInstalled
            } else {
                Answer::At(path)
            }
        },
    }
}

/// What uv says of an installation.
pub open spec fn uv_says(ran: Ran) -> AnswerText {
    match ran {
        Ran::NotFound => AnswerText::NotRunnable("uv is not installed or not on PATH"@),
        Ran::Failed(e) => AnswerText::NotRunnable("failed to run uv: "@ + e@),
        Ran::Ended { success, stdout, .. } => {
            let path = text::trimmed(stdout@);
            if !success || path.len() == 0 {
                AnswerText::NotInstalled
            } else {
                AnswerText::At(path)
            }
        },
    }
}

/// What uv says of an installation.
pub fn uv_python_find(ran: &Ran) -> (r: Answer)
    ensures
        r@ == uv_says(*ran),
{
    match ran {
        Ran::NotFound => Answer::NotRunnable("uv is not installed or not on PATH".to_owned()),
        Ran::Failed(e) => {
            let mut m = "failed to run uv: ".to_owned();
            m.append(e.as_str());
            Answer::NotRunnable(m)
        },
        Ran::Ended { success, stdout, .. } => {
            if !*success {
                return Answer::NotInstalled;
            }
            let path = text::trim(stdout.as_str());
            proof {
                reveal_strlit("");
                if path@.len() == 0 {
                    assert(path@ =~= ""@);
                }
            }
            if text::same(path.as_str(), "") {
                Answer::NotInstalled
            } else {
                Answer::At(path)
            }
        },
    }
}

/// A directory that a manager gives counts only where it is there.
pub fn confirmed(answer: Answer, is_dir: bool) -> (r: Answer)
    ensures
        r@ == match answer@ {
            AnswerText::At(p) => if is_dir {
                AnswerText::At(p)
            } else {
                AnswerText::NotInstalled
            },
            other => other,
        },
{
    match answer {
        Answer::At(p) => if is_dir {
            Answer::At(p)
        } else {
            Answer::NotInstalled
        },
        other => other,
    }
}

/// A version that a manager can install.
#[derive(Debug)]
pub enum Wanted {
    Vfox { plugin: String, version: String },
    Python { version: String },
}

impl Wanted {
    /// What is said where the version is missing although it was just installed.
    pub open spec fn still_missing(self) -> Seq<char> {
        match self {
            Wanted::Vfox { plugin, version } => plugin@ + "@"@ + version@
                + " still not found after install"@,
            Wanted::Python { version } => "uv could not resolve python "@ + version@
                + " after install"@,
        }
    }

    /// What is shown before the version is installed.
    pub fn installing_line(&self) -> (r: String)
        ensures
            r@ == match *self {
                Wanted::Vfox { plugin, version } => "installing "@ + plugin@ + "@"@ + version@
                    + " via vfox..."@,
                Wanted::Python { version } => "installing python "@ + version@ + " via uv..."@,
            },
    {
        match self {
            Wanted::Vfox { plugin, version } => {
                let mut r = "installing ".to_owned();
                r.append(plugin.as_str());
                r.append("@");
                r.append(version.as_str());
                r.append(" via vfox...");
                r
            },
            Wanted::Python { version } => {
                let mut r = "installing python ".to_owned();
                r.append(version.as_str());
                r.append(" via uv...");
                r
            },
        }
    }

    /// What is reported where the installation fails.
    pub fn install_failed(&self) -> (r: String)
        ensures
            r@ == match *self {
                Wanted::Vfox { plugin, version } => "vfox install "@ + plugin@ + "@"@ + version@
                    + " failed"@,
                Wanted::Python { version } => "uv python install "@ + version@ + " failed"@,
            },
    {
        match self {
            Wanted::Vfox { plugin, version } => {
                let mut r = "vfox install ".to_owned();
                r.append(plugin.as_str());
                r.append("@");
                r.append(version.as_str());
                r.append(" failed");
                r
            },
            Wanted::Python { version } => {
                let mut r = "uv python install ".to_owned();
                r.append(version.as_str());
                r.append(" failed");
                r
            },
        }
    }
}

/// What follows an answer of a version manager.
#[derive(Debug)]
pub enum Next {
    /// Take what is there.
    Use(String),
    /// Install the version, and ask again.
    Install,
    /// Give up.
    Fail(String),
}

/// What follows an answer of a version manager: a version that is missing is installed once, and
/// a manager that cannot be run is never asked to install anything.
pub fn next_step(wanted: &Wanted, answer: Answer, installed: bool) -> (r: Next)
    ensures
        match (answer@, r) {
            (AnswerText::At(p), Next::Use(q)) => q@ == p,
            (AnswerText::NotRunnable(m), Next::Fail(w)) => w@ == m,
            (AnswerText::NotInstalled, Next::Install) => !installed,
            (AnswerText::NotInstalled, Next::Fail(w)) => installed && w@
                == wanted.still_missing(),
            _ => false,
        },
{
    match answer {
        Answer::At(p) => Next::Use(p),
        Answer::NotRunnable(m) => Next::Fail(m),
        Answer::NotInstalled => {
            if !installed {
                return Next::Install;
            }
            match wanted {
                Wanted::Vfox { plugin, version } => {
                    let mut m = plugin.clone();
                    m.append("@");
                    m.append(version.as_str());
                    m.append(" still not found after install");
                    Next::Fail(m)
                },
                Wanted::Python { version } => {
                    let mut m = "uv could not resolve python ".to_owned();
                    m.append(version.as_str());
                    m.append(" after install");
                    Next::Fail(m)
                },
            }
        },
    }
}

/// A directory below an installation, and whether the wanted binary is a file in it.
#[derive(Debug)]
pub struct Nested {
    pub dir: String,
    pub has_binary: bool,
}

/// The directory at `i` is the first that has the binary.
pub open spec fn first_with_binary(nested: Seq<Nested>, i: int) -> bool {
    &&& 0 <= i < nested.len()
    &&& nested[i].has_binary
    &&& forall|j: int| 0 <= j < i ==> !(#[trigger] nested[j]).has_binary
}

/// The binary of an installation: in its directory itself, else in the first directory below it
/// that has it, in the order in which they are listed.
pub fn find_binary(dir: &str, binary: &str, direct: bool, nested: &Vec<Nested>) -> (r: Option<
    JoinedPath,
>)
    ensures
        match r {
            Some(p) => if direct {
                p@ == location::plain(dir@).join(binary@)
            } else {
                exists|i: int| #[trigger]
                    first_with_binary(nested@, i) && p@ == location::plain(nested@[i].dir@).join(
                        binary@,
                    )
            },
            None => !direct && forall|i: int|
                0 <= i < nested@.len() ==> !(#[trigger] nested@[i]).has_binary,
        },
{
    if direct {
        return Some(JoinedPath::new(dir).join(binary));
    }
    let mut i: usize = 0;
    while i < nested.len()
        invariant
            i <= nested@.len(),
            !direct,
            forall|j: int| 0 <= j < i ==> !(#[trigger] nested@[j]).has_binary,
        decreases nested@.len() - i,
    {
        if nested[i].has_binary {
            assert(first_with_binary(nested@, i as int));
            return Some(JoinedPath::new(nested[i].dir.as_str()).join(binary));
        }
        i += 1;
    }
    None
}

/// What is reported where an installation does not have its binary.
pub fn no_binary_message(binary: &str, dir: &str) -> (r: String)
    ensures
        r@ == binary@ + " not found under "@ + dir@,
{
    let mut r = binary.to_owned();
    r.append(" not found under ");
    r.append(dir);
    r
}

/// A path that the manifest names decides alone: neither the version, nor the manager, nor the
/// registry matters then.
pub proof fn own_path_comes_first(
    name: Seq<char>,
    entry: Language,
    registry: Registry,
    exe_suffix: Seq<char>,
)
    requires
        entry.path_text() is Some,
    ensures
        source_of(name, entry, registry, exe_suffix) == Ok::<_, SourceFault>(
            SourceText::OwnPath(entry.path_text()->0),
        ),
{
}

/// Projects whose entries of a language say the same get it from the same place, whichever way
/// the entries are written.
pub proof fn same_pin_same_source(
    name: Seq<char>,
    one: Language,
    other: Language,
    registry: Registry,
    exe_suffix: Seq<char>,
)
    requires
        one.version_text() == other.version_text(),
        one.manager_text() == other.manager_text(),
        one.plugin_text() == other.plugin_text(),
        one.binary_text() == other.binary_text(),
        one.path_text() == other.path_text(),
    ensures
        source_of(name, one, registry, exe_suffix) == source_of(name, other, registry, exe_suffix),
{
}

} // verus!
