//! Changing a `stack.toml` in place: what is there keeps its order, its comments and its spelling,
//! but for the entry that is set or removed. What is new comes last.

use crate::data;
use crate::data::{Layout, Line, Node, Page};
use crate::manifest;
use crate::text;
use vstd::prelude::*;

verus! {

/// What an added entry is given beside its name and version.
#[derive(Debug)]
pub struct AddArgs {
    pub schema: Option<String>,
    pub port: Option<u16>,
    pub command: Option<String>,
    pub path: Option<String>,
    pub manager: Option<String>,
    pub plugin: Option<String>,
    pub binary: Option<String>,
}

impl Default for AddArgs {
    /// Nothing beside name and version.
    fn default() -> (r: AddArgs)
        ensures
            r.schema is None,
            r.port is None,
            r.command is None,
            r.path is None,
            r.manager is None,
            r.plugin is None,
            r.binary is None,
    {
        AddArgs {
            schema: None,
            port: None,
            command: None,
            path: None,
            manager: None,
            plugin: None,
            binary: None,
        }
    }
}

/// Why a manifest was not changed.
#[derive(Debug)]
pub enum EditError {
    /// It does not parse.
    Unparsable(String),
    /// Something other than a table stands where an entry would go.
    NotATable(String),
    /// A language without a version or a path.
    LanguageUsage,
    /// A service without a version.
    ServiceUsage,
    /// A tool without a path.
    ToolUsage,
    /// Clones are edited by hand.
    AddClone,
    /// Clones are edited by hand.
    RemoveClone,
    /// There is no such kind of entry.
    UnknownKind(String),
    /// There is no such entry.
    NoEntry { kind: String, name: String },
}

/// What an `EditError` says.
pub enum EditFault {
    Unparsable(Seq<char>),
    NotATable(Seq<char>),
    LanguageUsage,
    ServiceUsage,
    ToolUsage,
    AddClone,
    RemoveClone,
    UnknownKind(Seq<char>),
    NoEntry { kind: Seq<char>, name: Seq<char> },
}

impl View for EditError {
    type V = EditFault;

    open spec fn view(&self) -> EditFault {
        match *self {
            EditError::Unparsable(e) => EditFault::Unparsable(e@),
            EditError::NotATable(key) => EditFault::NotATable(key@),
            EditError::LanguageUsage => EditFault::LanguageUsage,
            EditError::ServiceUsage => EditFault::ServiceUsage,
            EditError::ToolUsage => EditFault::ToolUsage,
            EditError::AddClone => EditFault::AddClone,
            EditError::RemoveClone => EditFault::RemoveClone,
            EditError::UnknownKind(kind) => EditFault::UnknownKind(kind@),
            EditError::NoEntry { kind, name } => EditFault::NoEntry { kind: kind@, name: name@ },
        }
    }
}

impl EditFault {
    /// What is reported to the user.
    pub open spec fn report(self) -> Seq<char> {
        match self {
            EditFault::Unparsable(e) => "failed to parse stack.toml: "@ + e,
            EditFault::NotATable(key) => "["@ + key
                + "] already exists in stack.toml but isn't a table"@,
            EditFault::LanguageUsage => "stack add language <name> <version> (or pass --path for a BYO binary)"@,
            EditFault::ServiceUsage => "stack add service <name> <version>"@,
            EditFault::ToolUsage => "stack add tool <name> --path <path>"@,
            EditFault::AddClone => "stack add clone isn't supported yet — hand-edit [[clone]] in stack.toml directly for now"@,
            EditFault::RemoveClone => "stack remove clone isn't supported yet — hand-edit [[clone]] in stack.toml directly for now"@,
            EditFault::UnknownKind(kind) => "unknown kind '"@ + kind
                + "' — supported: language, service, tool"@,
            EditFault::NoEntry { kind, name } => "no ["@ + kind + "."@ + name
                + "] entry found in stack.toml"@,
        }
    }
}

impl EditError {
    /// What is reported to the user.
    pub fn message(&self) -> (r: String)
        ensures
            r@ == self@.report(),
    {
        match self {
            EditError::Unparsable(e) => {
                let mut r = "failed to parse stack.toml: ".to_owned();
                r.append(e.as_str());
                r
            },
            EditError::NotATable(key) => {
                let mut r = "[".to_owned();
                r.append(key.as_str());
                r.append("] already exists in stack.toml but isn't a table");
                r
            },
            EditError::LanguageUsage =>
                "stack add language <name> <version> (or pass --path for a BYO binary)".to_owned(),
            EditError::ServiceUsage => "stack add service <name> <version>".to_owned(),
            EditError::ToolUsage => "stack add tool <name> --path <path>".to_owned(),
            EditError::AddClone =>
                "stack add clone isn't supported yet — hand-edit [[clone]] in stack.toml directly for now".to_owned(),
            EditError::RemoveClone =>
                "stack remove clone isn't supported yet — hand-edit [[clone]] in stack.toml directly for now".to_owned(),
            EditError::UnknownKind(kind) => {
                let mut r = "unknown kind '".to_owned();
                r.append(kind.as_str());
                r.append("' — supported: language, service, tool");
                r
            },
            EditError::NoEntry { kind, name } => {
                let mut r = "no [".to_owned();
                r.append(kind.as_str());
                r.append(".");
                r.append(name.as_str());
                r.append("] entry found in stack.toml");
                r
            },
        }
    }
}

/// The items of the table under `key`, which is made where nothing is there; nothing where
/// something else is there.
pub open spec fn table_at(items: Map<Seq<char>, Node>, key: Seq<char>) -> Option<
    Map<Seq<char>, Node>,
> {
    if data::is_set(items, key) {
        match items[key] {
            Node::Table(t) => Some(t),
            _ => None,
        }
    } else {
        Some(Map::empty())
    }
}

/// `items` with `key` set, where there is a value for it.
pub open spec fn with_text(
    items: Map<Seq<char>, Node>,
    key: Seq<char>,
    value: Option<Seq<char>>,
) -> Map<Seq<char>, Node> {
    match value {
        Some(v) => items.insert(key, Node::Text(v)),
        None => items,
    }
}

/// `items` with the table under `table` replaced.
pub open spec fn with_table(
    items: Map<Seq<char>, Node>,
    table: Seq<char>,
    inner: Map<Seq<char>, Node>,
) -> Map<Seq<char>, Node> {
    items.insert(table, Node::Table(inner))
}

/// The entry's own table under `kind` and `name`, or what stands in its place.
pub open spec fn entry_at(
    items: Map<Seq<char>, Node>,
    kind: Seq<char>,
    name: Seq<char>,
) -> Result<Map<Seq<char>, Node>, EditFault> {
    match table_at(items, kind) {
        None => Err(EditFault::NotATable(kind)),
        Some(entries) => match table_at(entries, name) {
            None => Err(EditFault::NotATable(name)),
            Some(entry) => Ok(entry),
        },
    }
}

/// `items` with the entry's own table under `kind` and `name` replaced.
pub open spec fn with_entry(
    items: Map<Seq<char>, Node>,
    kind: Seq<char>,
    name: Seq<char>,
    entry: Map<Seq<char>, Node>,
) -> Map<Seq<char>, Node> {
    with_table(items, kind, with_table(table_at(items, kind)->0, name, entry))
}

/// Whether a language needs a table of its own rather than a version alone.
pub open spec fn needs_table(extra: AddArgs) -> bool {
    extra.manager is Some || extra.plugin is Some || extra.binary is Some || extra.path is Some
}

/// The items of a manifest with a language added, which takes a version or a path.
pub open spec fn language_added(
    items: Map<Seq<char>, Node>,
    name: Seq<char>,
    version: Option<Seq<char>>,
    extra: AddArgs,
) -> Result<Map<Seq<char>, Node>, EditFault> {
    if needs_table(extra) {
        match entry_at(items, "language"@, name) {
            Err(e) => Err(e),
            Ok(entry) => if version is None && extra.path is None {
                Err(EditFault::LanguageUsage)
            } else {
                let entry = with_text(entry, "version"@, version);
                let entry = with_text(entry, "manager"@, text::opt_text(extra.manager));
                let entry = with_text(entry, "plugin"@, text::opt_text(extra.plugin));
                let entry = with_text(entry, "binary"@, text::opt_text(extra.binary));
                let entry = with_text(entry, "path"@, text::opt_text(extra.path));
                Ok(with_entry(items, "language"@, name, entry))
            },
        }
    } else {
        match table_at(items, "language"@) {
            None => Err(EditFault::NotATable("language"@)),
            Some(languages) => match version {
                None => Err(EditFault::LanguageUsage),
                Some(v) => Ok(
                    with_table(items, "language"@, languages.insert(name, Node::Text(v))),
                ),
            },
        }
    }
}

/// The items of a manifest with a service added.
pub open spec fn service_added(
    items: Map<Seq<char>, Node>,
    name: Seq<char>,
    version: Option<Seq<char>>,
    extra: AddArgs,
) -> Result<Map<Seq<char>, Node>, EditFault> {
    match version {
        None => Err(EditFault::ServiceUsage),
        Some(v) => match entry_at(items, "service"@, name) {
            Err(e) => Err(e),
            Ok(entry) => {
                let entry = entry.insert("version"@, Node::Text(v));
                let entry = with_text(entry, "schema"@, text::opt_text(extra.schema));
                let entry = match extra.port {
                    Some(p) => entry.insert("port"@, Node::Number(p as int)),
                    None => entry,
                };
                let entry = with_text(entry, "command"@, text::opt_text(extra.command));
                let entry = with_text(entry, "path"@, text::opt_text(extra.path));
                Ok(with_entry(items, "service"@, name, entry))
            },
        },
    }
}

/// The items of a manifest with a tool added.
pub open spec fn tool_added(
    items: Map<Seq<char>, Node>,
    name: Seq<char>,
    extra: AddArgs,
) -> Result<Map<Seq<char>, Node>, EditFault> {
    match extra.path {
        None => Err(EditFault::ToolUsage),
        Some(path) => match entry_at(items, "tool"@, name) {
            Err(e) => Err(e),
            Ok(entry) => Ok(
                with_entry(items, "tool"@, name, entry.insert("path"@, Node::Text(path@))),
            ),
        },
    }
}

/// The items of a manifest with an entry added.
pub open spec fn added(
    items: Map<Seq<char>, Node>,
    kind: Seq<char>,
    name: Seq<char>,
    version: Option<Seq<char>>,
    extra: AddArgs,
) -> Result<Map<Seq<char>, Node>, EditFault> {
    if kind == "language"@ {
        language_added(items, name, version, extra)
    } else if kind == "service"@ {
        service_added(items, name, version, extra)
    } else if kind == "tool"@ {
        tool_added(items, name, extra)
    } else if kind == "clone"@ {
        Err(EditFault::AddClone)
    } else {
        Err(EditFault::UnknownKind(kind))
    }
}

/// The layout of the table under `key`; that of a new one where there is none, whose header is
/// shown only where it has to be.
pub open spec fn layout_at(l: Layout, key: Seq<char>) -> Layout {
    if l.below.contains_key(key) {
        l.below[key]
    } else {
        Layout::fresh(true)
    }
}

/// `l` with the layout of the table under `key` replaced; a new table comes last.
pub open spec fn with_layout(l: Layout, key: Seq<char>, table: Layout) -> Layout {
    if l.below.contains_key(key) {
        l.within(key, table)
    } else {
        l.with_table(key, true).within(key, table)
    }
}

/// `l` with `key` in its place or last, where there is a value for it.
pub open spec fn with_key(l: Layout, key: Seq<char>, present: bool) -> Layout {
    if present {
        l.with_value(key)
    } else {
        l
    }
}

/// `l` with the layout of the entry's own table under `kind` and `name` replaced.
pub open spec fn with_entry_layout(
    l: Layout,
    kind: Seq<char>,
    name: Seq<char>,
    entry: Layout,
) -> Layout {
    with_layout(l, kind, with_layout(layout_at(l, kind), name, entry))
}

/// How a manifest is written with an entry added: what was there stays as it was, but for what is
/// set anew, and what is new comes last.
pub open spec fn added_layout(
    l: Layout,
    kind: Seq<char>,
    name: Seq<char>,
    version: Option<Seq<char>>,
    extra: AddArgs,
) -> Layout {
    let entry = layout_at(layout_at(l, kind), name);
    if kind == "language"@ {
        if needs_table(extra) {
            let entry = with_key(entry, "version"@, version is Some);
            let entry = with_key(entry, "manager"@, extra.manager is Some);
            let entry = with_key(entry, "plugin"@, extra.plugin is Some);
            let entry = with_key(entry, "binary"@, extra.binary is Some);
            let entry = with_key(entry, "path"@, extra.path is Some);
            with_entry_layout(l, kind, name, entry)
        } else {
            with_layout(l, kind, layout_at(l, kind).with_value(name))
        }
    } else if kind == "service"@ {
        let entry = entry.with_value("version"@);
        let entry = with_key(entry, "schema"@, extra.schema is Some);
        let entry = with_key(entry, "port"@, extra.port is Some);
        let entry = with_key(entry, "command"@, extra.command is Some);
        let entry = with_key(entry, "path"@, extra.path is Some);
        with_entry_layout(l, kind, name, entry)
    } else {
        with_entry_layout(l, kind, name, entry.with_value("path"@))
    }
}

/// How a manifest is written with an entry removed: all else stays as it was.
pub open spec fn removed_layout(l: Layout, kind: Seq<char>, name: Seq<char>) -> Layout {
    l.within(kind, l.below[kind].without(name))
}

/// The items of a manifest with an entry removed.
pub open spec fn removed(items: Map<Seq<char>, Node>, kind: Seq<char>, name: Seq<char>) -> Result<
    Map<Seq<char>, Node>,
    EditFault,
> {
    if items.contains_key(kind) && items[kind] is Table && items[kind]->Table_0.contains_key(name) {
        Ok(with_table(items, kind, items[kind]->Table_0.remove(name)))
    } else {
        Err(EditFault::NoEntry { kind, name })
    }
}

/// The table under `key`, which is made where nothing is there. A table with a header is inserted
/// rather than left to indexing, which would make an inline one.
fn ensure_subtable<'a>(parent: &'a mut toml_edit::Table, key: &str) -> (r: Option<
    &'a mut toml_edit::Table,
>)
    ensures
        match r {
            Some(sub) => {
                &&& table_at(data::table_entries(*old(parent)), key@) == Some(
                    data::table_entries(*sub),
                )
                &&& data::table_entries(*final(parent)) == with_table(
                    data::table_entries(*old(parent)),
                    key@,
                    data::table_entries(*final(sub)),
                )
                &&& data::table_layout(*sub) == layout_at(data::table_layout(*old(parent)), key@)
                &&& data::table_layout(*final(parent)) == with_layout(
                    data::table_layout(*old(parent)),
                    key@,
                    data::table_layout(*final(sub)),
                )
            },
            None => table_at(data::table_entries(*old(parent)), key@) is None,
        },
{
    if !data::has_entry(parent, key) {
        data::put_table(parent, key, true);
    }
    let ghost mid = data::table_entries(*parent);
    let ghost start = data::table_entries(*old(parent));
    match data::subtable(parent, key) {
        Some(sub) => {
            proof {
                let done = Node::Table(data::table_entries(*final(sub)));
                assert(mid.insert(key@, done) =~= start.insert(key@, done));
            }
            Some(sub)
        },
        None => None,
    }
}

/// Sets `key` where there is a value for it.
fn put_optional(t: &mut toml_edit::Table, key: &str, value: Option<&str>)
    ensures
        data::table_entries(*final(t)) == with_text(
            data::table_entries(*old(t)),
            key@,
            text::opt_str(value),
        ),
        data::table_layout(*final(t)) == with_key(
            data::table_layout(*old(t)),
            key@,
            value is Some,
        ),
{
    match value {
        Some(v) => data::put_text(t, key, v),
        None => {},
    }
}

/// Adds a language to the items of a manifest.
fn add_language(
    root: &mut toml_edit::Table,
    name: &str,
    version: Option<&str>,
    extra: &AddArgs,
) -> (r: Result<(), EditError>)
    ensures
        match r {
            Ok(_) => {
                &&& language_added(
                    data::table_entries(*old(root)),
                    name@,
                    text::opt_str(version),
                    *extra,
                ) == Ok::<_, EditFault>(data::table_entries(*final(root)))
                &&& data::table_layout(*final(root)) == added_layout(
                    data::table_layout(*old(root)),
                    "language"@,
                    name@,
                    text::opt_str(version),
                    *extra,
                )
            },
            Err(e) => language_added(
                data::table_entries(*old(root)),
                name@,
                text::opt_str(version),
                *extra,
            ) == Err::<Map<Seq<char>, Node>, _>(e@),
        },
{
    let needs_detailed = extra.manager.is_some() || extra.plugin.is_some() || extra.binary.is_some()
        || extra.path.is_some();
    match ensure_subtable(root, "language") {
        None => Err(EditError::NotATable("language".to_owned())),
        Some(languages) => {
            if needs_detailed {
                match ensure_subtable(languages, name) {
                    None => Err(EditError::NotATable(name.to_owned())),
                    Some(entry) => {
                        if version.is_none() && extra.path.is_none() {
                            return Err(EditError::LanguageUsage);
                        }
                        put_optional(entry, "version", version);
                        put_optional(entry, "manager", manifest::borrowed(&extra.manager));
                        put_optional(entry, "plugin", manifest::borrowed(&extra.plugin));
                        put_optional(entry, "binary", manifest::borrowed(&extra.binary));
                        put_optional(entry, "path", manifest::borrowed(&extra.path));
                        Ok(())
                    },
                }
            } else {
                match version {
                    None => Err(EditError::LanguageUsage),
                    Some(v) => {
                        data::put_text(languages, name, v);
                        Ok(())
                    },
                }
            }
        },
    }
}

/// Adds a service to the items of a manifest.
fn add_service(
    root: &mut toml_edit::Table,
    name: &str,
    version: Option<&str>,
    extra: &AddArgs,
) -> (r: Result<(), EditError>)
    ensures
        match r {
            Ok(_) => {
                &&& service_added(
                    data::table_entries(*old(root)),
                    name@,
                    text::opt_str(version),
                    *extra,
                ) == Ok::<_, EditFault>(data::table_entries(*final(root)))
                &&& data::table_layout(*final(root)) == added_layout(
                    data::table_layout(*old(root)),
                    "service"@,
                    name@,
                    text::opt_str(version),
                    *extra,
                )
            },
            Err(e) => service_added(
                data::table_entries(*old(root)),
                name@,
                text::opt_str(version),
                *extra,
            ) == Err::<Map<Seq<char>, Node>, _>(e@),
        },
{
    proof {
        reveal_strlit("language");
        reveal_strlit("service");
        assert("language"@.len() != "service"@.len());
    }
    let v = match version {
        None => {
            return Err(EditError::ServiceUsage);
        },
        Some(v) => v,
    };
    match ensure_subtable(root, "service") {
        None => Err(EditError::NotATable("service".to_owned())),
        Some(services) => match ensure_subtable(services, name) {
            None => Err(EditError::NotATable(name.to_owned())),
            Some(entry) => {
                data::put_text(entry, "version", v);
                put_optional(entry, "schema", manifest::borrowed(&extra.schema));
                match extra.port {
                    Some(p) => data::put_number(entry, "port", p),
                    None => {},
                }
                put_optional(entry, "command", manifest::borrowed(&extra.command));
                put_optional(entry, "path", manifest::borrowed(&extra.path));
                Ok(())
            },
        },
    }
}

/// Adds a tool to the items of a manifest.
fn add_tool(root: &mut toml_edit::Table, name: &str, extra: &AddArgs) -> (r: Result<(), EditError>)
    ensures
        match r {
            Ok(_) => {
                &&& tool_added(data::table_entries(*old(root)), name@, *extra) == Ok::<
                    _,
                    EditFault,
                >(data::table_entries(*final(root)))
                &&& data::table_layout(*final(root)) == added_layout(
                    data::table_layout(*old(root)),
                    "tool"@,
                    name@,
                    None,
                    *extra,
                )
            },
            Err(e) => tool_added(data::table_entries(*old(root)), name@, *extra) == Err::<
                Map<Seq<char>, Node>,
                _,
            >(e@),
        },
{
    proof {
        reveal_strlit("language");
        reveal_strlit("service");
        reveal_strlit("tool");
        assert("language"@.len() != "tool"@.len());
        assert("service"@.len() != "tool"@.len());
    }
    let path = match &extra.path {
        None => {
            return Err(EditError::ToolUsage);
        },
        Some(p) => p,
    };
    match ensure_subtable(root, "tool") {
        None => Err(EditError::NotATable("tool".to_owned())),
        Some(tools) => match ensure_subtable(tools, name) {
            None => Err(EditError::NotATable(name.to_owned())),
            Some(entry) => {
                data::put_text(entry, "path", path.as_str());
                Ok(())
            },
        },
    }
}

/// `text` is what a document that holds this, in this layout, is written as.
pub open spec fn writes(text: Seq<char>, page: Page) -> bool {
    exists|doc: toml_edit::DocumentMut|
        #[trigger] data::document_text(doc) == text && data::document_entries(doc) == page.items
            && data::document_layout(doc) == page.layout && data::document_trailing(doc)
            == page.trailing
}

/// What an edit of a manifest's text comes to, given what it makes of the document.
pub open spec fn edited(edit: Result<Page, EditFault>, r: Result<String, EditError>) -> bool {
    match (edit, r) {
        (Ok(page), Ok(text)) => writes(text@, page),
        (Err(e), Err(f)) => f@ == e,
        _ => false,
    }
}

/// A manifest's document with an entry added. What comes after the last item stays.
pub open spec fn added_to_text(
    manifest: Seq<char>,
    kind: Seq<char>,
    name: Seq<char>,
    version: Option<Seq<char>>,
    extra: AddArgs,
) -> Result<Page, EditFault> {
    match data::document_parsed(manifest) {
        Err(e) => Err(EditFault::Unparsable(e)),
        Ok(page) => match added(page.items, kind, name, version, extra) {
            Err(e) => Err(e),
            Ok(items) => Ok(
                Page {
                    items,
                    layout: added_layout(page.layout, kind, name, version, extra),
                    trailing: page.trailing,
                },
            ),
        },
    }
}

/// A manifest's document without an entry. What comes after the last item stays.
pub open spec fn removed_from_text(manifest: Seq<char>, kind: Seq<char>, name: Seq<char>) -> Result<
    Page,
    EditFault,
> {
    if kind == "clone"@ {
        Err(EditFault::RemoveClone)
    } else if !(kind == "language"@ || kind == "service"@ || kind == "tool"@) {
        Err(EditFault::UnknownKind(kind))
    } else {
        match data::document_parsed(manifest) {
            Err(e) => Err(EditFault::Unparsable(e)),
            Ok(page) => match removed(page.items, kind, name) {
                Err(e) => Err(e),
                Ok(items) => Ok(
                    Page {
                        items,
                        layout: removed_layout(page.layout, kind, name),
                        trailing: page.trailing,
                    },
                ),
            },
        }
    }
}

/// Adds an entry to the items of a manifest.
pub fn add_entry(
    root: &mut toml_edit::Table,
    kind: &str,
    name: &str,
    version: Option<&str>,
    extra: &AddArgs,
) -> (r: Result<(), EditError>)
    ensures
        match r {
            Ok(_) => {
                &&& added(
                    data::table_entries(*old(root)),
                    kind@,
                    name@,
                    text::opt_str(version),
                    *extra,
                ) == Ok::<_, EditFault>(data::table_entries(*final(root)))
                &&& data::table_layout(*final(root)) == added_layout(
                    data::table_layout(*old(root)),
                    kind@,
                    name@,
                    text::opt_str(version),
                    *extra,
                )
            },
            Err(e) => added(
                data::table_entries(*old(root)),
                kind@,
                name@,
                text::opt_str(version),
                *extra,
            ) == Err::<Map<Seq<char>, Node>, _>(e@),
        },
{
    if text::same(kind, "language") {
        add_language(root, name, version, extra)
    } else if text::same(kind, "service") {
        add_service(root, name, version, extra)
    } else if text::same(kind, "tool") {
        add_tool(root, name, extra)
    } else if text::same(kind, "clone") {
        Err(EditError::AddClone)
    } else {
        Err(EditError::UnknownKind(kind.to_owned()))
    }
}

/// The text of a manifest with an entry added.
pub fn add(manifest: &str, kind: &str, name: &str, version: Option<&str>, extra: &AddArgs) -> (r:
    Result<String, EditError>)
    ensures
        edited(added_to_text(manifest@, kind@, name@, text::opt_str(version), *extra), r),
{
    match data::parse_document(manifest) {
        Err(e) => Err(EditError::Unparsable(e)),
        Ok(mut doc) => {
            let root = data::root_table(&mut doc);
            match add_entry(root, kind, name, version, extra) {
                Err(e) => Err(e),
                Ok(_) => {
                    let text = data::render(&doc);
                    assert(data::document_text(doc) == text@);
                    Ok(text)
                },
            }
        },
    }
}

/// Takes an entry out of the items of a manifest.
pub fn remove_entry(root: &mut toml_edit::Table, kind: &str, name: &str) -> (r: Result<
    (),
    EditError,
>)
    ensures
        match r {
            Ok(_) => {
                &&& removed(data::table_entries(*old(root)), kind@, name@) == Ok::<_, EditFault>(
                    data::table_entries(*final(root)),
                )
                &&& data::table_layout(*final(root)) == removed_layout(
                    data::table_layout(*old(root)),
                    kind@,
                    name@,
                )
            },
            Err(e) => removed(data::table_entries(*old(root)), kind@, name@) == Err::<
                Map<Seq<char>, Node>,
                _,
            >(e@),
        },
{
    let taken = match data::subtable(root, kind) {
        Some(entries) => data::take_entry(entries, name),
        None => false,
    };
    if taken {
        Ok(())
    } else {
        Err(EditError::NoEntry { kind: kind.to_owned(), name: name.to_owned() })
    }
}

/// The text of a manifest with an entry removed.
pub fn remove(manifest: &str, kind: &str, name: &str) -> (r: Result<String, EditError>)
    ensures
        edited(removed_from_text(manifest@, kind@, name@), r),
{
    if text::same(kind, "clone") {
        return Err(EditError::RemoveClone);
    }
    if !(text::same(kind, "language") || text::same(kind, "service") || text::same(kind, "tool")) {
        return Err(EditError::UnknownKind(kind.to_owned()));
    }
    match data::parse_document(manifest) {
        Err(e) => Err(EditError::Unparsable(e)),
        Ok(mut doc) => {
            let root = data::root_table(&mut doc);
            match remove_entry(root, kind, name) {
                Err(e) => Err(e),
                Ok(_) => {
                    let text = data::render(&doc);
                    assert(data::document_text(doc) == text@);
                    Ok(text)
                },
            }
        },
    }
}

/// Adding an entry changes nothing of the other kinds and nothing of the other entries of its
/// kind, and afterwards there is an entry of its name.
pub proof fn adding_leaves_the_rest(
    items: Map<Seq<char>, Node>,
    kind: Seq<char>,
    name: Seq<char>,
    version: Option<Seq<char>>,
    extra: AddArgs,
    other: Seq<char>,
)
    requires
        added(items, kind, name, version, extra) is Ok,
    ensures
        ({
            let after = added(items, kind, name, version, extra)->Ok_0;
            &&& other != kind ==> after.contains_key(other) == items.contains_key(other)
            &&& other != kind && items.contains_key(other) ==> after[other] == items[other]
            &&& after.contains_key(kind) && after[kind] is Table
            &&& after[kind]->Table_0.contains_key(name)
            &&& other != name ==> after[kind]->Table_0.contains_key(other) == table_at(
                items,
                kind,
            )->0.contains_key(other)
            &&& other != name && table_at(items, kind)->0.contains_key(other)
                ==> after[kind]->Table_0[other] == table_at(items, kind)->0[other]
        }),
{
}

/// Removing the entry that was added gives the manifest as it was, but for the entry itself: what
/// stood under its name before is gone too, and a table of its kind remains.
pub proof fn removing_undoes_adding(
    items: Map<Seq<char>, Node>,
    kind: Seq<char>,
    name: Seq<char>,
    version: Option<Seq<char>>,
    extra: AddArgs,
)
    requires
        added(items, kind, name, version, extra) is Ok,
    ensures
        ({
            let after = added(items, kind, name, version, extra)->Ok_0;
            removed(after, kind, name) == Ok::<_, EditFault>(
                with_table(items, kind, table_at(items, kind)->0.remove(name)),
            )
        }),
{
    let after = added(items, kind, name, version, extra)->Ok_0;
    let entries = table_at(items, kind)->0;
    assert(after[kind]->Table_0.remove(name) =~= entries.remove(name));
    assert(with_table(after, kind, entries.remove(name)) =~= with_table(
        items,
        kind,
        entries.remove(name),
    ));
}

/// Adding the same entry again changes nothing.
pub proof fn adding_twice_is_adding_once(
    items: Map<Seq<char>, Node>,
    kind: Seq<char>,
    name: Seq<char>,
    version: Option<Seq<char>>,
    extra: AddArgs,
)
    requires
        added(items, kind, name, version, extra) is Ok,
    ensures
        added(
            added(items, kind, name, version, extra)->Ok_0,
            kind,
            name,
            version,
            extra,
        ) == added(items, kind, name, version, extra),
{
    let once = added(items, kind, name, version, extra)->Ok_0;
    let twice = added(once, kind, name, version, extra)->Ok_0;
    let entries = once[kind]->Table_0;
    let again = twice[kind]->Table_0;
    if entries[name] is Table {
        assert(again[name]->Table_0 =~= entries[name]->Table_0);
    }
    assert(again =~= entries);
    assert(twice =~= once);
}

/// Removing an entry changes nothing of the other kinds and nothing of the other entries of its
/// kind, and afterwards there is no entry of its name.
pub proof fn removing_leaves_the_rest(
    items: Map<Seq<char>, Node>,
    kind: Seq<char>,
    name: Seq<char>,
    other: Seq<char>,
)
    requires
        removed(items, kind, name) is Ok,
    ensures
        ({
            let after = removed(items, kind, name)->Ok_0;
            &&& other != kind ==> after.contains_key(other) == items.contains_key(other)
            &&& other != kind && items.contains_key(other) ==> after[other] == items[other]
            &&& !after[kind]->Table_0.contains_key(name)
            &&& removed(after, kind, name) is Err
            &&& other != name ==> after[kind]->Table_0.contains_key(other)
                == items[kind]->Table_0.contains_key(other)
            &&& other != name && items[kind]->Table_0.contains_key(other)
                ==> after[kind]->Table_0[other] == items[kind]->Table_0[other]
        }),
{
}

/// Adding an entry keeps the order of all keys that were there: its kind, its name among the
/// entries of its kind, and nothing else, may come in, at the end. The tables of the other kinds
/// and of the other entries keep theirs too.
pub proof fn adding_keeps_the_order(
    l: Layout,
    kind: Seq<char>,
    name: Seq<char>,
    version: Option<Seq<char>>,
    extra: AddArgs,
    other: Seq<char>,
)
    ensures
        ({
            let after = added_layout(l, kind, name, version, extra);
            let before = layout_at(l, kind);
            &&& after.keys == if l.below.contains_key(kind) {
                l.keys
            } else {
                l.placed(kind)
            }
            &&& layout_at(after, kind).keys == before.keys || layout_at(after, kind).keys
                == before.placed(name)
            &&& !before.below.contains_key(name) ==> layout_at(after, kind).keys == before.placed(
                name,
            )
            &&& other != kind ==> layout_at(after, other) == layout_at(l, other)
            &&& other != name ==> layout_at(layout_at(after, kind), other) == layout_at(
                before,
                other,
            )
        }),
{
}

/// Whether adding an entry sets this key of the entry's own table.
pub open spec fn is_field(
    kind: Seq<char>,
    version: Option<Seq<char>>,
    extra: AddArgs,
    key: Seq<char>,
) -> bool {
    if kind == "language"@ {
        ||| key == "version"@ && version is Some
        ||| key == "manager"@ && extra.manager is Some
        ||| key == "plugin"@ && extra.plugin is Some
        ||| key == "binary"@ && extra.binary is Some
        ||| key == "path"@ && extra.path is Some
    } else if kind == "service"@ {
        ||| key == "version"@
        ||| key == "schema"@ && extra.schema is Some
        ||| key == "port"@ && extra.port is Some
        ||| key == "command"@ && extra.command is Some
        ||| key == "path"@ && extra.path is Some
    } else {
        key == "path"@
    }
}

/// A key is written in `b` as it is in `a`, with its comments and its spelling, or is in neither.
pub open spec fn same_line(a: Map<Seq<char>, Line>, b: Map<Seq<char>, Line>, key: Seq<char>) -> bool {
    a.contains_key(key) == b.contains_key(key) && (a.contains_key(key) ==> a[key] == b[key])
}

/// Adding an entry keeps comments and spelling: the headers of the tables that were there, the
/// lines of the other kinds and of the other entries, and, within the entry's own table, the lines
/// of all keys that are not set. Lists of tables stay as they were.
pub proof fn adding_keeps_the_comments(
    l: Layout,
    kind: Seq<char>,
    name: Seq<char>,
    version: Option<Seq<char>>,
    extra: AddArgs,
    other: Seq<char>,
)
    ensures
        ({
            let after = added_layout(l, kind, name, version, extra);
            let entries = layout_at(l, kind);
            let entries_after = layout_at(after, kind);
            let own = kind != "language"@ || needs_table(extra);
            &&& after.header == l.header
            &&& other != kind || l.below.contains_key(kind) ==> same_line(
                l.lines,
                after.lines,
                other,
            )
            &&& other != kind ==> after.lists.contains_key(other) == l.lists.contains_key(other)
                && (l.lists.contains_key(other) ==> after.lists[other] == l.lists[other])
            &&& entries_after.header == entries.header
            &&& other != name || (own && entries.below.contains_key(name)) ==> same_line(
                entries.lines,
                entries_after.lines,
                other,
            )
            &&& own ==> layout_at(entries_after, name).header == layout_at(entries, name).header
            &&& own && !is_field(kind, version, extra, other) ==> same_line(
                layout_at(entries, name).lines,
                layout_at(entries_after, name).lines,
                other,
            )
        }),
{
}

/// Removing an entry keeps comments and spelling: the headers, the lines of the kinds and those of
/// the other entries, and the lists of tables.
pub proof fn removing_keeps_the_comments(
    l: Layout,
    kind: Seq<char>,
    name: Seq<char>,
    other: Seq<char>,
)
    requires
        l.below.contains_key(kind),
    ensures
        ({
            let after = removed_layout(l, kind, name);
            &&& after.header == l.header
            &&& after.lines == l.lines
            &&& after.lists == l.lists
            &&& layout_at(after, kind).header == layout_at(l, kind).header
            &&& other != name ==> same_line(
                layout_at(l, kind).lines,
                layout_at(after, kind).lines,
                other,
            )
        }),
{
}

/// Removing an entry keeps the order of all other keys: nothing moves at the top, and the entries
/// of its kind are those before without the one.
pub proof fn removing_keeps_the_order(
    l: Layout,
    kind: Seq<char>,
    name: Seq<char>,
    other: Seq<char>,
)
    requires
        l.below.contains_key(kind),
    ensures
        ({
            let after = removed_layout(l, kind, name);
            &&& after.keys == l.keys
            &&& layout_at(after, kind).keys == layout_at(l, kind).keys.filter(
                data::other_than(name),
            )
            &&& other != kind ==> layout_at(after, other) == layout_at(l, other)
            &&& other != name ==> layout_at(layout_at(after, kind), other) == layout_at(
                layout_at(l, kind),
                other,
            )
        }),
{
}

proof fn without_a_stranger(keys: Seq<Seq<char>>, key: Seq<char>)
    requires
        !keys.contains(key),
    ensures
        keys.filter(data::other_than(key)) == keys,
    decreases keys.len(),
{
    reveal(Seq::filter);
    if keys.len() > 0 {
        let rest = keys.drop_last();
        assert forall|i: int| 0 <= i < rest.len() implies #[trigger] rest[i] != key by {
            assert(rest[i] == keys[i]);
        }
        without_a_stranger(rest, key);
        assert(keys.last() == keys[keys.len() - 1]);
        assert(rest.push(keys.last()) =~= keys);
    }
}

/// Where the kind has its table already, removing an entry that was just added leaves every key,
/// with all its comments, where it was.
pub proof fn removing_undoes_adding_in_order(
    l: Layout,
    kind: Seq<char>,
    name: Seq<char>,
    version: Option<Seq<char>>,
    extra: AddArgs,
)
    requires
        l.below.contains_key(kind),
        !l.below[kind].keys.contains(name),
        !l.below[kind].lines.contains_key(name),
        !l.below[kind].below.contains_key(name),
        !l.below[kind].lists.contains_key(name),
    ensures
        removed_layout(added_layout(l, kind, name, version, extra), kind, name) == l,
{
    let before = l.below[kind];
    let added = added_layout(l, kind, name, version, extra);
    let after = removed_layout(added, kind, name).below[kind];
    let n = before.keys.len() as int;
    reveal(Seq::filter);
    assert(added.below[kind].keys == before.keys.push(name));
    assert(before.keys.push(name).drop_last() =~= before.keys);
    without_a_stranger(before.keys, name);
    assert(after.keys =~= before.keys);
    assert(after.lines =~= before.lines);
    assert(after.below =~= before.below);
    assert(after.lists =~= before.lists);
    assert(removed_layout(added, kind, name).below =~= l.below);
}

} // verus!
