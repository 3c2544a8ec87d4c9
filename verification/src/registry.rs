//! Installations that the user has named: the contents of `registry.json`.

use crate::location;
use crate::location::JoinedPath;
use crate::ordered_map::OrderedMap;
use crate::text;
use vstd::prelude::*;

verus! {

/// The registered installations, by "kind:name:version".
#[derive(Debug)]
pub struct Registry {
    pub entries: OrderedMap<RegistryEntry>,
}

/// One registered installation: a path, or a port that something else listens on.
#[derive(Debug)]
pub struct RegistryEntry {
    pub kind: String,
    pub name: String,
    pub version: String,
    pub path: Option<String>,
    pub external: bool,
    pub port: Option<u16>,
}

/// What a `RegistryEntry` says.
pub struct Installation {
    pub kind: Seq<char>,
    pub name: Seq<char>,
    pub version: Seq<char>,
    pub path: Option<Seq<char>>,
    pub external: bool,
    pub port: Option<u16>,
}

impl View for RegistryEntry {
    type V = Installation;

    open spec fn view(&self) -> Installation {
        Installation {
            kind: self.kind@,
            name: self.name@,
            version: self.version@,
            path: text::opt_text(self.path),
            external: self.external,
            port: self.port,
        }
    }
}

/// The key of an installation.
pub open spec fn entry_key(kind: Seq<char>, name: Seq<char>, version: Seq<char>) -> Seq<char> {
    kind + ":"@ + name + ":"@ + version
}

/// The key of an installation.
pub fn key(kind: &str, name: &str, version: &str) -> (r: String)
    ensures
        r@ == entry_key(kind@, name@, version@),
{
    let mut r = kind.to_owned();
    r.append(":");
    r.append(name);
    r.append(":");
    r.append(version);
    r
}

impl Default for Registry {
    /// Nothing is registered.
    fn default() -> (r: Registry)
        ensures
            r.entries@ == Map::<Seq<char>, RegistryEntry>::empty(),
    {
        Registry { entries: OrderedMap::new() }
    }
}

impl Registry {
    /// The entry of an installation, as the registry has it.
    pub open spec fn entry(self, kind: Seq<char>, name: Seq<char>, version: Seq<char>) -> Option<
        Installation,
    > {
        let k = entry_key(kind, name, version);
        if self.entries@.contains_key(k) {
            Some(self.entries@[k]@)
        } else {
            None
        }
    }

    /// The path registered for an installation.
    pub open spec fn path_of(self, kind: Seq<char>, name: Seq<char>, version: Seq<char>) -> Option<
        Seq<char>,
    > {
        match self.entry(kind, name, version) {
            Some(e) => e.path,
            None => None,
        }
    }

    /// Where the registry is kept: `~/.stack/registry.json`.
    pub fn registry_path(home: &str) -> (r: JoinedPath)
        ensures
            r@ == location::stack_dir(home@).join("registry.json"@),
    {
        location::stack_directory(home).join("registry.json")
    }

    /// Registers an installation at a path, in place of what was registered for it before.
    pub fn register_path(&mut self, kind: &str, name: &str, version: &str, path: &str)
        ensures
            final(self).entry(kind@, name@, version@) == Some(
                (Installation {
                    kind: kind@,
                    name: name@,
                    version: version@,
                    path: Some(path@),
                    external: false,
                    port: None,
                }),
            ),
            final(self).entries@.remove(entry_key(kind@, name@, version@)) == old(
                self,
            ).entries@.remove(entry_key(kind@, name@, version@)),
    {
        let entry = RegistryEntry {
            kind: kind.to_owned(),
            name: name.to_owned(),
            version: version.to_owned(),
            path: Some(path.to_owned()),
            external: false,
            port: None,
        };
        self.entries.insert(key(kind, name, version), entry);
    }

    /// Registers a service that something else runs, by its port.
    pub fn register_external(&mut self, name: &str, version: &str, port: u16)
        ensures
            final(self).entry("service"@, name@, version@) == Some(
                (Installation {
                    kind: "service"@,
                    name: name@,
                    version: version@,
                    path: None,
                    external: true,
                    port: Some(port),
                }),
            ),
            final(self).entries@.remove(entry_key("service"@, name@, version@)) == old(
                self,
            ).entries@.remove(entry_key("service"@, name@, version@)),
    {
        let entry = RegistryEntry {
            kind: "service".to_owned(),
            name: name.to_owned(),
            version: version.to_owned(),
            path: None,
            external: true,
            port: Some(port),
        };
        self.entries.insert(key("service", name, version), entry);
    }

    /// What is registered for an installation.
    pub fn lookup(&self, kind: &str, name: &str, version: &str) -> (r: Option<&RegistryEntry>)
        ensures
            match r {
                Some(e) => self.entry(kind@, name@, version@) == Some(e@),
                None => self.entry(kind@, name@, version@) is None,
            },
    {
        self.entries.get(key(kind, name, version).as_str())
    }

    /// The path registered for an installation.
    pub fn lookup_path(&self, kind: &str, name: &str, version: &str) -> (r: Option<String>)
        ensures
            text::opt_text(r) == self.path_of(kind@, name@, version@),
    {
        match self.lookup(kind, name, version) {
            Some(e) => match &e.path {
                Some(p) => Some(p.clone()),
                None => None,
            },
            None => None,
        }
    }

    /// Takes an installation out of the registry and hands back what was registered for it.
    pub fn remove(&mut self, kind: &str, name: &str, version: &str) -> (r: Option<RegistryEntry>)
        ensures
            final(self).entries@ == old(self).entries@.remove(entry_key(kind@, name@, version@)),
            match r {
                Some(e) => old(self).entry(kind@, name@, version@) == Some(e@),
                None => old(self).entry(kind@, name@, version@) is None,
            },
    {
        self.entries.remove(key(kind, name, version).as_str())
    }
}

/// Installations whose kinds and names hold no colon have the same key only where they are the
/// same installation, so that registering or removing one leaves every other as it is.
pub proof fn keys_tell_installations_apart(
    kind1: Seq<char>,
    name1: Seq<char>,
    version1: Seq<char>,
    kind2: Seq<char>,
    name2: Seq<char>,
    version2: Seq<char>,
)
    requires
        !kind1.contains(':'),
        !kind2.contains(':'),
        !name1.contains(':'),
        !name2.contains(':'),
        entry_key(kind1, name1, version1) == entry_key(kind2, name2, version2),
    ensures
        kind1 == kind2 && name1 == name2 && version1 == version2,
{
    reveal_strlit(":");
    let rest1 = name1 + ":"@ + version1;
    let rest2 = name2 + ":"@ + version2;
    assert(entry_key(kind1, name1, version1) =~= kind1 + ":"@ + rest1);
    assert(entry_key(kind2, name2, version2) =~= kind2 + ":"@ + rest2);
    colon_parts(kind1, rest1, kind2, rest2);
    colon_parts(name1, version1, name2, version2);
}

/// What stands before and behind the first colon of a text.
proof fn colon_parts(a1: Seq<char>, b1: Seq<char>, a2: Seq<char>, b2: Seq<char>)
    requires
        !a1.contains(':'),
        !a2.contains(':'),
        a1 + ":"@ + b1 == a2 + ":"@ + b2,
    ensures
        a1 == a2,
        b1 == b2,
{
    reveal_strlit(":");
    let s = a1 + ":"@ + b1;
    let t = a2 + ":"@ + b2;
    assert(s[a1.len() as int] == ':');
    assert(t[a2.len() as int] == ':');
    if a1.len() < a2.len() {
        assert(t[a1.len() as int] == a2[a1.len() as int]);
        assert(a2.contains(a2[a1.len() as int]));
    } else if a2.len() < a1.len() {
        assert(s[a2.len() as int] == a1[a2.len() as int]);
        assert(a1.contains(a1[a2.len() as int]));
    }
    assert(a1 =~= s.take(a1.len() as int));
    assert(a2 =~= t.take(a2.len() as int));
    assert(b1 =~= s.skip(a1.len() as int + 1));
    assert(b2 =~= t.skip(a2.len() as int + 1));
}

} // verus!
