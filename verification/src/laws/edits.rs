//! Laws on editing manifests: what an added entry holds, and when an edit is refused.

use crate::data::{Layout, Node};
use crate::manifest_edit;
use crate::manifest_edit::{AddArgs, EditFault};
use crate::text;
use vstd::prelude::*;

verus! {

/// `field` holds `given` where something was given, and is as it was before where nothing was.
pub open spec fn set_or_kept(
    before: Map<Seq<char>, Node>,
    after: Map<Seq<char>, Node>,
    field: Seq<char>,
    given: Option<Node>,
) -> bool {
    match given {
        Some(v) => after.contains_key(field) && after[field] == v,
        None => after.contains_key(field) == before.contains_key(field) && (before.contains_key(
            field,
        ) ==> after[field] == before[field]),
    }
}

/// The items under a key where a table is there; none where nothing is.
pub open spec fn below(items: Map<Seq<char>, Node>, key: Seq<char>) -> Map<Seq<char>, Node> {
    if items.contains_key(key) && items[key] is Table {
        items[key]->Table_0
    } else {
        Map::empty()
    }
}

/// A string, where there is one.
pub open spec fn string(s: Option<Seq<char>>) -> Option<Node> {
    match s {
        Some(v) => Some(Node::Text(v)),
        None => None,
    }
}

/// Nothing but a table stands under the key.
pub open spec fn has_room(items: Map<Seq<char>, Node>, key: Seq<char>) -> bool {
    !items.contains_key(key) || items[key] is Table
}

proof fn field_names_differ()
    ensures
        "version"@ != "manager"@,
        "version"@ != "plugin"@,
        "version"@ != "binary"@,
        "version"@ != "path"@,
        "version"@ != "schema"@,
        "version"@ != "port"@,
        "version"@ != "command"@,
        "manager"@ != "plugin"@,
        "manager"@ != "binary"@,
        "manager"@ != "path"@,
        "plugin"@ != "binary"@,
        "plugin"@ != "path"@,
        "binary"@ != "path"@,
        "schema"@ != "port"@,
        "schema"@ != "command"@,
        "schema"@ != "path"@,
        "port"@ != "command"@,
        "port"@ != "path"@,
        "command"@ != "path"@,
        "language"@ != "service"@,
        "language"@ != "tool"@,
        "service"@ != "tool"@,
{
    reveal_strlit("version");
    reveal_strlit("manager");
    reveal_strlit("plugin");
    reveal_strlit("binary");
    reveal_strlit("path");
    reveal_strlit("schema");
    reveal_strlit("port");
    reveal_strlit("command");
    reveal_strlit("language");
    reveal_strlit("service");
    reveal_strlit("tool");
    assert("version"@.len() == 7 && "manager"@.len() == 7 && "command"@.len() == 7);
    assert("version"@[0] == 'v' && "manager"@[0] == 'm' && "command"@[0] == 'c');
    assert("plugin"@.len() == 6 && "binary"@.len() == 6 && "schema"@.len() == 6);
    assert("plugin"@[0] == 'p' && "binary"@[0] == 'b' && "schema"@[0] == 's');
    assert("path"@.len() == 4 && "port"@.len() == 4 && "path"@[1] != "port"@[1]);
    assert("language"@.len() == 8 && "service"@.len() == 7 && "tool"@.len() == 4);
}

/// A language that was added holds what was given: where that is a version alone, the version is
/// all there is; otherwise its table holds version, manager, plugin, binary and path, each as it
/// was given, and the fields that were not given are as they were.
pub proof fn added_languages_hold_what_was_given(
    items: Map<Seq<char>, Node>,
    name: Seq<char>,
    version: Option<Seq<char>>,
    extra: AddArgs,
    other: Seq<char>,
)
    requires
        manifest_edit::added(items, "language"@, name, version, extra) is Ok,
    ensures
        ({
            let after = manifest_edit::added(items, "language"@, name, version, extra)->Ok_0;
            let old = below(below(items, "language"@), name);
            let held = below(below(after, "language"@), name);
            let plain = extra.manager is None && extra.plugin is None && extra.binary is None
                && extra.path is None;
            &&& below(after, "language"@).contains_key(name)
            &&& plain ==> version is Some && below(after, "language"@)[name] == Node::Text(
                version->0,
            )
            &&& !plain ==> {
                &&& below(after, "language"@)[name] is Table
                &&& set_or_kept(old, held, "version"@, string(version))
                &&& set_or_kept(old, held, "manager"@, string(text::opt_text(extra.manager)))
                &&& set_or_kept(old, held, "plugin"@, string(text::opt_text(extra.plugin)))
                &&& set_or_kept(old, held, "binary"@, string(text::opt_text(extra.binary)))
                &&& set_or_kept(old, held, "path"@, string(text::opt_text(extra.path)))
                &&& other != "version"@ && other != "manager"@ && other != "plugin"@ && other
                    != "binary"@ && other != "path"@ ==> set_or_kept(old, held, other, None)
            }
        }),
{
    field_names_differ();
}

/// A service that was added holds what was given: its version, and schema, port, command and path,
/// each as it was given. The fields that were not given are as they were.
pub proof fn added_services_hold_what_was_given(
    items: Map<Seq<char>, Node>,
    name: Seq<char>,
    version: Option<Seq<char>>,
    extra: AddArgs,
    other: Seq<char>,
)
    requires
        manifest_edit::added(items, "service"@, name, version, extra) is Ok,
    ensures
        ({
            let after = manifest_edit::added(items, "service"@, name, version, extra)->Ok_0;
            let old = below(below(items, "service"@), name);
            let held = below(below(after, "service"@), name);
            &&& version is Some
            &&& below(after, "service"@).contains_key(name)
            &&& below(after, "service"@)[name] is Table
            &&& set_or_kept(old, held, "version"@, string(version))
            &&& set_or_kept(old, held, "schema"@, string(text::opt_text(extra.schema)))
            &&& set_or_kept(
                old,
                held,
                "port"@,
                match extra.port {
                    Some(p) => Some(Node::Number(p as int)),
                    None => None,
                },
            )
            &&& set_or_kept(old, held, "command"@, string(text::opt_text(extra.command)))
            &&& set_or_kept(old, held, "path"@, string(text::opt_text(extra.path)))
            &&& other != "version"@ && other != "schema"@ && other != "port"@ && other
                != "command"@ && other != "path"@ ==> set_or_kept(old, held, other, None)
        }),
{
    field_names_differ();
}

/// A tool that was added holds the path that was given, and else what it held before.
pub proof fn added_tools_hold_their_path(
    items: Map<Seq<char>, Node>,
    name: Seq<char>,
    version: Option<Seq<char>>,
    extra: AddArgs,
    other: Seq<char>,
)
    requires
        manifest_edit::added(items, "tool"@, name, version, extra) is Ok,
    ensures
        ({
            let after = manifest_edit::added(items, "tool"@, name, version, extra)->Ok_0;
            let old = below(below(items, "tool"@), name);
            let held = below(below(after, "tool"@), name);
            &&& extra.path is Some
            &&& below(after, "tool"@)[name] is Table
            &&& set_or_kept(old, held, "path"@, string(text::opt_text(extra.path)))
            &&& other != "path"@ ==> set_or_kept(old, held, other, None)
        }),
{
    field_names_differ();
}

/// Where there is room for an entry, adding it succeeds exactly where what it needs is given: a
/// language a version or a path, a service a version, a tool a path. Nothing else can be added.
pub proof fn adding_asks_for_what_is_needed(
    items: Map<Seq<char>, Node>,
    kind: Seq<char>,
    name: Seq<char>,
    version: Option<Seq<char>>,
    extra: AddArgs,
)
    requires
        has_room(items, kind),
        has_room(below(items, kind), name),
    ensures
        ({
            let r = manifest_edit::added(items, kind, name, version, extra);
            &&& kind == "language"@ ==> (if version is Some || extra.path is Some {
                r is Ok
            } else {
                r == Err::<Map<Seq<char>, Node>, _>(EditFault::LanguageUsage)
            })
            &&& kind == "service"@ ==> (if version is Some {
                r is Ok
            } else {
                r == Err::<Map<Seq<char>, Node>, _>(EditFault::ServiceUsage)
            })
            &&& kind == "tool"@ ==> (if extra.path is Some {
                r is Ok
            } else {
                r == Err::<Map<Seq<char>, Node>, _>(EditFault::ToolUsage)
            })
            &&& kind != "language"@ && kind != "service"@ && kind != "tool"@ ==> r is Err
        }),
{
    field_names_differ();
    reveal_strlit("clone");
    assert("clone"@.len() == 5);
}

/// What is no table, in the place of a kind or of an entry that needs one, is never overwritten.
pub proof fn what_is_no_table_is_left_alone(
    items: Map<Seq<char>, Node>,
    kind: Seq<char>,
    name: Seq<char>,
    version: Option<Seq<char>>,
    extra: AddArgs,
)
    requires
        kind == "language"@ || kind == "service"@ || kind == "tool"@,
        items.contains_key(kind),
        !(items[kind] is Vacant),
    ensures
        !(items[kind] is Table) ==> manifest_edit::added(items, kind, name, version, extra) is Err,
        items[kind] is Table && (kind != "language"@ || extra.manager is Some || extra.plugin
            is Some || extra.binary is Some || extra.path is Some) && below(
            items,
            kind,
        ).contains_key(name) && !(below(items, kind)[name] is Table) && !(below(items, kind)[name]
            is Vacant) ==> manifest_edit::added(items, kind, name, version, extra) is Err,
{
    field_names_differ();
}

/// An entry can be removed exactly where it is there, under the table of its kind.
pub proof fn removing_asks_for_the_entry(
    items: Map<Seq<char>, Node>,
    kind: Seq<char>,
    name: Seq<char>,
)
    ensures
        manifest_edit::removed(items, kind, name) is Ok <==> below(items, kind).contains_key(name),
        manifest_edit::removed(items, kind, name) matches Ok(after) ==> {
            &&& below(after, kind) == below(items, kind).remove(name)
            &&& after.remove(kind) == items.remove(kind)
        },
        manifest_edit::removed(items, kind, name) matches Err(e) ==> e == (EditFault::NoEntry {
            kind,
            name,
        }),
{
    if let Ok(after) = manifest_edit::removed(items, kind, name) {
        assert(after.remove(kind) =~= items.remove(kind));
    }
}

/// Every field that is given has its place among the keys of the entry's own table, and the entry
/// among those of its kind.
pub proof fn given_fields_are_written(
    l: Layout,
    kind: Seq<char>,
    name: Seq<char>,
    version: Option<Seq<char>>,
    extra: AddArgs,
)
    ensures
        ({
            let after = manifest_edit::added_layout(l, kind, name, version, extra);
            let entries = after.below[kind];
            let keys = entries.below[name].keys;
            let detailed = extra.manager is Some || extra.plugin is Some || extra.binary is Some
                || extra.path is Some;
            &&& after.below.contains_key(kind)
            &&& kind == "language"@ && !detailed ==> entries.keys.contains(name)
                && !entries.below.contains_key(name)
            &&& kind == "language"@ && detailed ==> {
                &&& entries.below.contains_key(name)
                &&& version is Some ==> keys.contains("version"@)
                &&& extra.manager is Some ==> keys.contains("manager"@)
                &&& extra.plugin is Some ==> keys.contains("plugin"@)
                &&& extra.binary is Some ==> keys.contains("binary"@)
                &&& extra.path is Some ==> keys.contains("path"@)
            }
            &&& kind == "service"@ ==> {
                &&& entries.below.contains_key(name)
                &&& keys.contains("version"@)
                &&& extra.schema is Some ==> keys.contains("schema"@)
                &&& extra.port is Some ==> keys.contains("port"@)
                &&& extra.command is Some ==> keys.contains("command"@)
                &&& extra.path is Some ==> keys.contains("path"@)
            }
            &&& kind == "tool"@ ==> entries.below.contains_key(name) && keys.contains("path"@)
        }),
{
    field_names_differ();
    let before = manifest_edit::layout_at(manifest_edit::layout_at(l, kind), name);
    placed_contains(manifest_edit::layout_at(l, kind), name);
    if kind == "language"@ {
        let a = manifest_edit::with_key(before, "version"@, version is Some);
        let b = manifest_edit::with_key(a, "manager"@, extra.manager is Some);
        let c = manifest_edit::with_key(b, "plugin"@, extra.plugin is Some);
        let d = manifest_edit::with_key(c, "binary"@, extra.binary is Some);
        with_key_keeps(before, "version"@, version is Some);
        with_key_keeps(a, "manager"@, extra.manager is Some);
        with_key_keeps(b, "plugin"@, extra.plugin is Some);
        with_key_keeps(c, "binary"@, extra.binary is Some);
        with_key_keeps(d, "path"@, extra.path is Some);
    } else if kind == "service"@ {
        let a = manifest_edit::with_key(before, "version"@, true);
        let b = manifest_edit::with_key(a, "schema"@, extra.schema is Some);
        let c = manifest_edit::with_key(b, "port"@, extra.port is Some);
        let d = manifest_edit::with_key(c, "command"@, extra.command is Some);
        with_key_keeps(before, "version"@, true);
        with_key_keeps(a, "schema"@, extra.schema is Some);
        with_key_keeps(b, "port"@, extra.port is Some);
        with_key_keeps(c, "command"@, extra.command is Some);
        with_key_keeps(d, "path"@, extra.path is Some);
    } else {
        placed_contains(before, "path"@);
    }
}

proof fn placed_contains(l: Layout, key: Seq<char>)
    ensures
        l.placed(key).contains(key),
        forall|k: Seq<char>| #[trigger] l.keys.contains(k) ==> l.placed(key).contains(k),
{
    if !l.keys.contains(key) {
        let n = l.keys.len() as int;
        assert(l.keys.push(key)[n] == key);
    }
    assert forall|k: Seq<char>| #[trigger] l.keys.contains(k) implies l.placed(key).contains(k) by {
        let i = choose|i: int| 0 <= i < l.keys.len() && l.keys[i] == k;
        assert(l.placed(key)[i] == k);
    }
}

proof fn with_key_keeps(l: Layout, key: Seq<char>, present: bool)
    ensures
        present ==> manifest_edit::with_key(l, key, present).keys.contains(key),
        forall|k: Seq<char>| #[trigger]
            l.keys.contains(k) ==> manifest_edit::with_key(l, key, present).keys.contains(k),
{
    placed_contains(l, key);
}

} // verus!
