//! Finding the tools that a manifest declares.

use crate::location;
use crate::location::JoinedPath;
use crate::manifest::Tool;
use crate::registry::Registry;
use crate::text;
use vstd::prelude::*;

verus! {

/// Where a version of composer is kept.
pub open spec fn composer_phar(home: Seq<char>, version: Seq<char>) -> location::PathText {
    location::stack_dir(home).join("tools"@).join("composer"@).join(version).join("composer.phar"@)
}

/// Where a version of composer is kept.
pub fn composer_phar_path(home: &str, version: &str) -> (r: JoinedPath)
    ensures
        r@ == composer_phar(home@, version@),
{
    location::stack_directory(home).join("tools").join("composer").join(version).join(
        "composer.phar",
    )
}

/// Where a version of composer is downloaded from.
pub fn composer_url(version: &str) -> (r: String)
    ensures
        r@ == "https://getcomposer.org/download/"@ + version@ + "/composer.phar"@,
{
    let mut r = "https://getcomposer.org/download/".to_owned();
    r.append(version);
    r.append("/composer.phar");
    r
}

/// What a declared tool comes down to.
#[derive(Debug)]
pub enum ToolSource {
    /// A path of the user's own.
    OwnPath(String),
    /// A version of composer, which stack fetches itself.
    Composer { version: String, phar: JoinedPath },
    /// A registered path.
    Registered(String),
}

/// What a `ToolSource` says.
pub enum ToolSourceText {
    OwnPath(Seq<char>),
    Composer { version: Seq<char>, phar: location::PathText },
    Registered(Seq<char>),
}

impl View for ToolSource {
    type V = ToolSourceText;

    open spec fn view(&self) -> ToolSourceText {
        match *self {
            ToolSource::OwnPath(p) => ToolSourceText::OwnPath(p@),
            ToolSource::Composer { version, phar } => ToolSourceText::Composer {
                version: version@,
                phar: phar@,
            },
            ToolSource::Registered(p) => ToolSourceText::Registered(p@),
        }
    }
}

/// Why a declared tool cannot be had.
#[derive(Debug)]
pub enum ToolError {
    /// It names both a path and a version.
    Both,
    /// It names neither a path nor a version.
    Neither,
    /// Its own path leads to no file.
    MissingPath(String),
    /// The home directory is not known.
    NoHome,
    /// Its version of composer is not there yet.
    NotFetched(String),
    /// The registered path leads to no file.
    RegisteredGone(String),
    /// Nobody knows where to get its version.
    Unknown(String),
}

/// What a `ToolError` says.
pub enum ToolFault {
    Both,
    Neither,
    MissingPath(Seq<char>),
    NoHome,
    NotFetched(Seq<char>),
    RegisteredGone(Seq<char>),
    Unknown(Seq<char>),
}

impl View for ToolError {
    type V = ToolFault;

    open spec fn view(&self) -> ToolFault {
        match *self {
            ToolError::Both => ToolFault::Both,
            ToolError::Neither => ToolFault::Neither,
            ToolError::MissingPath(p) => ToolFault::MissingPath(p@),
            ToolError::NoHome => ToolFault::NoHome,
            ToolError::NotFetched(v) => ToolFault::NotFetched(v@),
            ToolError::RegisteredGone(p) => ToolFault::RegisteredGone(p@),
            ToolError::Unknown(v) => ToolFault::Unknown(v@),
        }
    }
}

impl ToolFault {
    /// What is reported to the user.
    pub open spec fn report(self, name: Seq<char>) -> Seq<char> {
        match self {
            ToolFault::Both => "[tool."@ + name
                + "] can't set both `path` and `version` — pick one (BYO path, or a version stack fetches itself)"@,
            ToolFault::Neither => "[tool."@ + name + "] needs either `path` or `version`"@,
            ToolFault::MissingPath(p) => "[tool."@ + name + "].path does not exist: "@ + p,
            ToolFault::NoHome => "could not resolve home directory"@,
            ToolFault::NotFetched(v) => "[tool.composer] "@ + v
                + " not yet fetched — run `stack doctor --fix` or `stack up`"@,
            ToolFault::RegisteredGone(p) => "[tool."@ + name
                + "] registered path no longer exists: "@ + p,
            ToolFault::Unknown(v) => "stack doesn't know how to auto-fetch '"@ + name
                + "' — provide `path` for a BYO binary, or register one via `stack register tool "@
                + name + " "@ + v + " <path>`"@,
        }
    }
}

impl ToolError {
    /// What is reported to the user.
    pub fn message(&self, name: &str) -> (r: String)
        ensures
            r@ == self@.report(name@),
    {
        match self {
            ToolError::Both => {
                let mut r = "[tool.".to_owned();
                r.append(name);
                r.append(
                    "] can't set both `path` and `version` — pick one (BYO path, or a version stack fetches itself)",
                );
                r
            },
            ToolError::Neither => {
                let mut r = "[tool.".to_owned();
                r.append(name);
                r.append("] needs either `path` or `version`");
                r
            },
            ToolError::MissingPath(p) => {
                let mut r = "[tool.".to_owned();
                r.append(name);
                r.append("].path does not exist: ");
                r.append(p.as_str());
                r
            },
            ToolError::NoHome => "could not resolve home directory".to_owned(),
            ToolError::NotFetched(v) => {
                let mut r = "[tool.composer] ".to_owned();
                r.append(v.as_str());
                r.append(" not yet fetched — run `stack doctor --fix` or `stack up`");
                r
            },
            ToolError::RegisteredGone(p) => {
                let mut r = "[tool.".to_owned();
                r.append(name);
                r.append("] registered path no longer exists: ");
                r.append(p.as_str());
                r
            },
            ToolError::Unknown(v) => {
                let mut r = "stack doesn't know how to auto-fetch '".to_owned();
                r.append(name);
                r.append(
                    "' — provide `path` for a BYO binary, or register one via `stack register tool ",
                );
                r.append(name);
                r.append(" ");
                r.append(v.as_str());
                r.append(" <path>`");
                r
            },
        }
    }
}

/// Where a declared tool is to be had from, before anything is looked for.
pub open spec fn tool_source(
    name: Seq<char>,
    tool: Tool,
    registry: Registry,
    home: Option<Seq<char>>,
) -> Result<ToolSourceText, ToolFault> {
    match (tool.path, tool.version) {
        (Some(_), Some(_)) => Err(ToolFault::Both),
        (Some(path), None) => Ok(ToolSourceText::OwnPath(path@)),
        (None, None) => Err(ToolFault::Neither),
        (None, Some(version)) => if name == "composer"@ {
            match home {
                None => Err(ToolFault::NoHome),
                Some(h) => Ok(
                    ToolSourceText::Composer {
                        version: version@,
                        phar: composer_phar(h, version@),
                    },
                ),
            }
        } else {
            match registry.path_of("tool"@, name, version@) {
                Some(path) => Ok(ToolSourceText::Registered(path)),
                None => Err(ToolFault::Unknown(version@)),
            }
        },
    }
}

/// Where a declared tool is to be had from, before anything is looked for.
pub fn locate_tool(name: &str, tool: &Tool, registry: &Registry, home: Option<&str>) -> (r: Result<
    ToolSource,
    ToolError,
>)
    ensures
        match r {
            Ok(s) => tool_source(name@, *tool, *registry, text::opt_str(home)) == Ok::<
                _,
                ToolFault,
            >(s@),
            Err(e) => tool_source(name@, *tool, *registry, text::opt_str(home)) == Err::<
                ToolSourceText,
                _,
            >(e@),
        },
{
    if tool.path.is_some() && tool.version.is_some() {
        return Err(ToolError::Both);
    }
    match &tool.path {
        Some(path) => {
            return Ok(ToolSource::OwnPath(path.clone()));
        },
        None => {},
    }
    let version = match &tool.version {
        Some(v) => v,
        None => {
            return Err(ToolError::Neither);
        },
    };
    if text::same(name, "composer") {
        match home {
            None => Err(ToolError::NoHome),
            Some(h) => Ok(
                ToolSource::Composer {
                    version: version.clone(),
                    phar: composer_phar_path(h, version.as_str()),
                },
            ),
        }
    } else {
        match registry.lookup_path("tool", name, version.as_str()) {
            Some(path) => Ok(ToolSource::Registered(path)),
            None => Err(ToolError::Unknown(version.clone())),
        }
    }
}

/// What is done about a declared tool.
#[derive(Debug)]
pub enum ToolAction {
    /// It is there.
    Use(JoinedPath),
    /// It is downloaded first.
    Fetch { url: String, dest: JoinedPath },
}

/// What is done about a declared tool, when it is known whether the place that `locate_tool` gives
/// is a file. Only composer is ever downloaded, and only with `allow_fetch`.
pub fn resolve_tool(
    name: &str,
    tool: &Tool,
    allow_fetch: bool,
    registry: &Registry,
    home: Option<&str>,
    is_file: bool,
) -> (r: Result<ToolAction, ToolError>)
    ensures
        match (tool_source(name@, *tool, *registry, text::opt_str(home)), r) {
            (Err(e), Err(f)) => f@ == e,
            (Ok(ToolSourceText::OwnPath(p)), Ok(ToolAction::Use(path))) => is_file && path@
                == location::plain(p),
            (Ok(ToolSourceText::OwnPath(p)), Err(f)) => !is_file && f@ == ToolFault::MissingPath(
                p,
            ),
            (Ok(ToolSourceText::Registered(p)), Ok(ToolAction::Use(path))) => is_file && path@
                == location::plain(p),
            (Ok(ToolSourceText::Registered(p)), Err(f)) => !is_file && f@
                == ToolFault::RegisteredGone(p),
            (Ok(ToolSourceText::Composer { phar, .. }), Ok(ToolAction::Use(path))) => is_file
                && path@ == phar,
            (
                Ok(ToolSourceText::Composer { version, phar }),
                Ok(ToolAction::Fetch { url, dest }),
            ) => {
                &&& !is_file && allow_fetch
                &&& url@ == "https://getcomposer.org/download/"@ + version + "/composer.phar"@
                &&& dest@ == phar
            },
            (Ok(ToolSourceText::Composer { version, .. }), Err(f)) => !is_file && !allow_fetch
                && f@ == ToolFault::NotFetched(version),
            _ => false,
        },
{
    match locate_tool(name, tool, registry, home) {
        Err(e) => Err(e),
        Ok(ToolSource::OwnPath(path)) => if is_file {
            Ok(ToolAction::Use(JoinedPath::new(path.as_str())))
        } else {
            Err(ToolError::MissingPath(path))
        },
        Ok(ToolSource::Registered(path)) => if is_file {
            Ok(ToolAction::Use(JoinedPath::new(path.as_str())))
        } else {
            Err(ToolError::RegisteredGone(path))
        },
        Ok(ToolSource::Composer { version, phar }) => if is_file {
            Ok(ToolAction::Use(phar))
        } else if allow_fetch {
            Ok(ToolAction::Fetch { url: composer_url(version.as_str()), dest: phar })
        } else {
            Err(ToolError::NotFetched(version))
        },
    }
}

} // verus!
