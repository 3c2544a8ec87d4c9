//! Trees of JSON and TOML values, and the crates that parse, hold and write them.

use crate::plain_toml;
use vstd::prelude::*;

verus! {

/// What a JSON or TOML value holds, as far as this library reads or writes it.
pub enum Node {
    /// A string.
    Text(Seq<char>),
    /// A whole number.
    Number(int),
    /// An object or a table. In a document that is edited, a table that is not inline.
    Table(Map<Seq<char>, Node>),
    /// An array.
    List(Seq<Node>),
    /// A place in a document that holds no item.
    Vacant,
    /// Anything else.
    Other,
}

impl Node {
    /// The member called `key`, where this is a table that has one.
    pub open spec fn member(self, key: Seq<char>) -> Option<Node> {
        match self {
            Node::Table(m) => if m.contains_key(key) {
                Some(m[key])
            } else {
                None
            },
            _ => None,
        }
    }

    /// The text of a string.
    pub open spec fn text(self) -> Option<Seq<char>> {
        match self {
            Node::Text(s) => Some(s),
            _ => None,
        }
    }
}

/// The member called `key` of a value, where there is one.
pub open spec fn member_of(n: Option<Node>, key: Seq<char>) -> Option<Node> {
    match n {
        Some(n) => n.member(key),
        None => None,
    }
}

/// The text of a value, where there is one and it is a string.
pub open spec fn text_of(n: Option<Node>) -> Option<Seq<char>> {
    match n {
        Some(n) => n.text(),
        None => None,
    }
}

// ------------------------------------------------------------------------------------------
// JSON

/// `serde_json::Value`.
#[verifier::external_type_specification]
#[verifier::external_body]
pub struct ExJsonValue(serde_json::Value);

/// What a `serde_json::Value` holds.
pub uninterp spec fn json_node(v: serde_json::Value) -> Node;

/// What `serde_json::from_str` reads from a text; nothing where it fails.
pub uninterp spec fn json_parsed(text: Seq<char>) -> Option<Node>;

/// What each of a list of values holds.
pub open spec fn json_nodes(v: Seq<serde_json::Value>) -> Seq<Node> {
    v.map_values(|x: serde_json::Value| json_node(x))
}

/// `serde_json::from_str` into a `serde_json::Value`: the value read depends on the text alone.
#[verifier::external_body]
pub(crate) fn parse_json(text: &str) -> (r: Option<serde_json::Value>)
    ensures
        match r {
            Some(v) => json_parsed(text@) == Some(json_node(v)),
            None => json_parsed(text@) is None,
        },
{
    serde_json::from_str(text).ok()
}

/// `serde_json::Value::get` with a string index: the member of an object, and nothing on any
/// other value.
#[verifier::external_body]
pub(crate) fn json_member<'a>(v: &'a serde_json::Value, key: &str) -> (r: Option<
    &'a serde_json::Value,
>)
    ensures
        match r {
            Some(m) => json_node(*v).member(key@) == Some(json_node(*m)),
            None => json_node(*v).member(key@) is None,
        },
{
    v.get(key)
}

/// `serde_json::Value::as_str`: the characters of a string, and nothing on any other value.
#[verifier::external_body]
pub(crate) fn json_str(v: &serde_json::Value) -> (r: Option<&str>)
    ensures
        match r {
            Some(s) => json_node(*v).text() == Some(s@),
            None => json_node(*v).text() is None,
        },
{
    v.as_str()
}

/// `serde_json::Value::String`: a string of these characters.
#[verifier::external_body]
pub(crate) fn json_text(s: &str) -> (r: serde_json::Value)
    ensures
        json_node(r) == Node::Text(s@),
{
    serde_json::Value::String(s.to_owned())
}

/// `serde_json::Value::Array`: an array of these values, in order.
#[verifier::external_body]
pub(crate) fn json_list(items: Vec<serde_json::Value>) -> (r: serde_json::Value)
    ensures
        json_node(r) == Node::List(json_nodes(items@)),
{
    serde_json::Value::Array(items)
}

/// `serde_json::Value::Object` of a new map: an object without members.
#[verifier::external_body]
pub(crate) fn json_object() -> (r: serde_json::Value)
    ensures
        json_node(r) == Node::Table(Map::empty()),
{
    serde_json::Value::Object(serde_json::Map::new())
}

/// `serde_json::Map::insert`, on the members of an object: sets the member called `key`.
#[verifier::external_body]
pub(crate) fn json_set(object: &mut serde_json::Value, key: &str, value: serde_json::Value)
    requires
        json_node(*old(object)) is Table,
    ensures
        json_node(*final(object)) == Node::Table(
            json_node(*old(object))->Table_0.insert(key@, json_node(value)),
        ),
{
    if let Some(members) = object.as_object_mut() {
        members.insert(key.to_owned(), value);
    }
}

// ------------------------------------------------------------------------------------------
// TOML values

/// `toml::Value`.
#[verifier::external_type_specification]
#[verifier::external_body]
pub struct ExTomlValue(toml::Value);

/// What a `toml::Value` holds.
pub uninterp spec fn toml_node(v: toml::Value) -> Node;

/// What `toml::from_str` reads from a text; nothing where it fails.
pub uninterp spec fn toml_parsed(text: Seq<char>) -> Option<Node>;

/// `toml::from_str` into a `toml::Value`: the value read depends on the text alone. A plain
/// document is read as the tables that it is made of.
#[verifier::external_body]
pub(crate) fn parse_toml(text: &str) -> (r: Option<toml::Value>)
    ensures
        match r {
            Some(v) => toml_parsed(text@) == Some(toml_node(v)),
            None => toml_parsed(text@) is None,
        },
        forall|doc: plain_toml::Document|
            doc.is_plain() && #[trigger] doc.text() == text@ ==> r is Some && toml_node(r->0)
                == Node::Table(plain_toml::section_items(doc.sections)),
{
    toml::from_str(text).ok()
}

/// `toml::Value::get` with a string index: the member of a table, and nothing on any other value.
#[verifier::external_body]
pub(crate) fn toml_member<'a>(v: &'a toml::Value, key: &str) -> (r: Option<&'a toml::Value>)
    ensures
        match r {
            Some(m) => toml_node(*v).member(key@) == Some(toml_node(*m)),
            None => toml_node(*v).member(key@) is None,
        },
{
    v.get(key)
}

/// `toml::Value::as_str`: the characters of a string, and nothing on any other value.
#[verifier::external_body]
pub(crate) fn toml_str(v: &toml::Value) -> (r: Option<&str>)
    ensures
        match r {
            Some(s) => toml_node(*v).text() == Some(s@),
            None => toml_node(*v).text() is None,
        },
{
    v.as_str()
}

// ------------------------------------------------------------------------------------------
// TOML documents that are edited in place

/// `toml_edit::DocumentMut`.
#[verifier::external_type_specification]
#[verifier::external_body]
pub struct ExDocumentMut(toml_edit::DocumentMut);

/// `toml_edit::Table`.
#[verifier::external_type_specification]
#[verifier::external_body]
pub struct ExTable(toml_edit::Table);

/// The comments and spaces before and after something; none of its own where the usual spaces are
/// written.
pub struct Decor {
    pub before: Option<Seq<char>>,
    pub after: Option<Seq<char>>,
}

impl Decor {
    /// Of what was not written by the user.
    pub open spec fn usual() -> Decor {
        Decor { before: None, after: None }
    }
}

/// How a key and its value are written: what stands around the key, around the dots behind it and
/// around the value, and the spelling of both. A key of a table has no value here.
pub struct Line {
    pub key: Decor,
    pub dots: Decor,
    pub key_text: Option<Seq<char>>,
    pub value: Decor,
    pub value_text: Option<Seq<char>>,
}

impl Line {
    /// Of what was not written by the user.
    pub open spec fn usual() -> Line {
        Line {
            key: Decor::usual(),
            dots: Decor::usual(),
            key_text: None,
            value: Decor::usual(),
            value_text: None,
        }
    }
}

/// How the header of a table is written: what stands around it, whether it is left out where it
/// can be, whether dotted keys stand for it, and where it comes in the document.
pub struct Header {
    pub around: Decor,
    pub implicit: bool,
    pub dotted: bool,
    pub position: Option<int>,
}

/// How a table is written: its header, the order of its keys, the line of each, and the same of
/// each table and of each list of tables below it.
#[verifier::ext_equal]
pub struct Layout {
    pub header: Header,
    pub keys: Seq<Seq<char>>,
    pub lines: Map<Seq<char>, Line>,
    pub below: Map<Seq<char>, Layout>,
    pub lists: Map<Seq<char>, Seq<Layout>>,
}

impl Layout {
    /// Of a new table without keys.
    pub open spec fn fresh(implicit: bool) -> Layout {
        Layout {
            header: Header { around: Decor::usual(), implicit, dotted: false, position: None },
            keys: Seq::empty(),
            lines: Map::empty(),
            below: Map::empty(),
            lists: Map::empty(),
        }
    }

    /// With `key` in its place, or at the end where it had none.
    pub open spec fn placed(self, key: Seq<char>) -> Seq<Seq<char>> {
        if self.keys.contains(key) {
            self.keys
        } else {
            self.keys.push(key)
        }
    }

    /// With a new value under `key`.
    pub open spec fn with_value(self, key: Seq<char>) -> Layout {
        Layout {
            header: self.header,
            keys: self.placed(key),
            lines: self.lines.insert(key, Line::usual()),
            below: self.below.remove(key),
            lists: self.lists.remove(key),
        }
    }

    /// With a new table under `key`.
    pub open spec fn with_table(self, key: Seq<char>, implicit: bool) -> Layout {
        Layout {
            below: self.below.insert(key, Layout::fresh(implicit)),
            ..self.with_value(key)
        }
    }

    /// With the table under `key` changed.
    pub open spec fn within(self, key: Seq<char>, table: Layout) -> Layout {
        Layout { below: self.below.insert(key, table), ..self }
    }

    /// Without `key`: the others stay in order.
    pub open spec fn without(self, key: Seq<char>) -> Layout {
        Layout {
            header: self.header,
            keys: self.keys.filter(other_than(key)),
            lines: self.lines.remove(key),
            below: self.below.remove(key),
            lists: self.lists.remove(key),
        }
    }
}

/// Whether a key is another one than `key`.
pub open spec fn other_than(key: Seq<char>) -> spec_fn(Seq<char>) -> bool {
    |k: Seq<char>| k != key
}

/// The items of a table, by key. An inline table is no table here.
pub uninterp spec fn table_entries(t: toml_edit::Table) -> Map<Seq<char>, Node>;

/// How a table is written.
pub uninterp spec fn table_layout(t: toml_edit::Table) -> Layout;

/// The items of a document's root table, by key.
pub uninterp spec fn document_entries(doc: toml_edit::DocumentMut) -> Map<Seq<char>, Node>;

/// How a document's root table is written.
pub uninterp spec fn document_layout(doc: toml_edit::DocumentMut) -> Layout;

/// The comments and spaces after a document's last item.
pub uninterp spec fn document_trailing(doc: toml_edit::DocumentMut) -> Option<Seq<char>>;

/// The text that a document is written as.
pub uninterp spec fn document_text(doc: toml_edit::DocumentMut) -> Seq<char>;

/// What a document holds, how that is written, and what comes after it.
pub struct Page {
    pub items: Map<Seq<char>, Node>,
    pub layout: Layout,
    pub trailing: Option<Seq<char>>,
}

/// The document that is read from a text, or why it cannot be read.
pub uninterp spec fn document_parsed(text: Seq<char>) -> Result<Page, Seq<char>>;

/// `str::parse` into a `toml_edit::DocumentMut`: the document, or the text of the error, depends
/// on the text alone.
#[verifier::external_body]
pub(crate) fn parse_document(text: &str) -> (r: Result<toml_edit::DocumentMut, String>)
    ensures
        match r {
            Ok(doc) => document_parsed(text@) == Ok::<_, Seq<char>>(
                (Page {
                    items: document_entries(doc),
                    layout: document_layout(doc),
                    trailing: document_trailing(doc),
                }),
            ),
            Err(e) => document_parsed(text@) == Err::<Page, _>(e@),
        },
{
    text.parse::<toml_edit::DocumentMut>().map_err(|e| e.to_string())
}

/// `DocumentMut::to_string`: the text that the document is written as. Nothing is said of how it
/// is put together, nor of what it would be read back as.
#[verifier::external_body]
pub(crate) fn render(doc: &toml_edit::DocumentMut) -> (r: String)
    ensures
        r@ == document_text(*doc),
{
    doc.to_string()
}

/// `DocumentMut::as_table_mut`: the root table, through which the document's items are changed.
/// What comes after them stays.
#[verifier::external_body]
pub(crate) fn root_table(doc: &mut toml_edit::DocumentMut) -> (r: &mut toml_edit::Table)
    ensures
        table_entries(*r) == document_entries(*old(doc)),
        table_layout(*r) == document_layout(*old(doc)),
        document_entries(*final(doc)) == table_entries(*final(r)),
        document_layout(*final(doc)) == table_layout(*final(r)),
        document_trailing(*final(doc)) == document_trailing(*old(doc)),
{
    doc.as_table_mut()
}

/// The table has an item under `key`.
pub open spec fn is_set(entries: Map<Seq<char>, Node>, key: Seq<char>) -> bool {
    entries.contains_key(key) && !(entries[key] is Vacant)
}

/// `Table::contains_key`: whether there is an item under `key`. There is no table where there is no
/// item.
#[verifier::external_body]
pub(crate) fn has_entry(t: &toml_edit::Table, key: &str) -> (r: bool)
    ensures
        r == is_set(table_entries(*t), key@),
        !r ==> !table_layout(*t).below.contains_key(key@),
{
    t.contains_key(key)
}

/// `Table::get_mut` and `Item::as_table_mut`: the table under `key`, through which its items are
/// changed while the keys and the lines beside it stay as they are; nothing where another item or
/// none is there.
#[verifier::external_body]
pub(crate) fn subtable<'a>(t: &'a mut toml_edit::Table, key: &str) -> (r: Option<
    &'a mut toml_edit::Table,
>)
    ensures
        match r {
            Some(sub) => {
                &&& table_entries(*old(t)).contains_key(key@)
                &&& table_entries(*old(t))[key@] == Node::Table(table_entries(*sub))
                &&& table_entries(*final(t)) == table_entries(*old(t)).insert(
                    key@,
                    Node::Table(table_entries(*final(sub))),
                )
                &&& table_layout(*old(t)).below.contains_key(key@)
                &&& table_layout(*old(t)).below[key@] == table_layout(*sub)
                &&& table_layout(*final(t)) == table_layout(*old(t)).within(
                    key@,
                    table_layout(*final(sub)),
                )
            },
            None => {
                &&& *final(t) == *old(t)
                &&& table_entries(*old(t)).contains_key(key@) ==> !(table_entries(*old(t))[key@]
                    is Table)
            },
        },
{
    t.get_mut(key).and_then(toml_edit::Item::as_table_mut)
}

/// `Table::new` and `Table::set_implicit`, put in place by `Table::insert`: under `key` there is then
/// a table without items, whose own header, if it is implicit, is shown only where it has to be. A
/// key that was there keeps its place and loses its comments, and a new one comes last. All other
/// lines stay as they are.
#[verifier::external_body]
pub(crate) fn put_table(t: &mut toml_edit::Table, key: &str, implicit: bool)
    ensures
        table_entries(*final(t)) == table_entries(*old(t)).insert(key@, Node::Table(Map::empty())),
        table_layout(*final(t)) == table_layout(*old(t)).with_table(key@, implicit),
{
    let mut fresh = toml_edit::Table::new();
    fresh.set_implicit(implicit);
    t.insert(key, toml_edit::Item::Table(fresh));
}

/// `toml_edit::value` of a string, put in place by `Table::insert`: sets the item under `key`. A
/// key that was there keeps its place and loses its comments, and a new one comes last. All other
/// lines stay as they are.
#[verifier::external_body]
pub(crate) fn put_text(t: &mut toml_edit::Table, key: &str, text: &str)
    ensures
        table_entries(*final(t)) == table_entries(*old(t)).insert(key@, Node::Text(text@)),
        table_layout(*final(t)) == table_layout(*old(t)).with_value(key@),
{
    t.insert(key, toml_edit::value(text));
}

/// `toml_edit::value` of a number, put in place by `Table::insert`: sets the item under `key`. A
/// key that was there keeps its place and loses its comments, and a new one comes last. All other
/// lines stay as they are.
#[verifier::external_body]
pub(crate) fn put_number(t: &mut toml_edit::Table, key: &str, number: u16)
    ensures
        table_entries(*final(t)) == table_entries(*old(t)).insert(
            key@,
            Node::Number(number as int),
        ),
        table_layout(*final(t)) == table_layout(*old(t)).with_value(key@),
{
    t.insert(key, toml_edit::value(i64::from(number)));
}

/// `Table::remove`: takes the item under `key` out and says whether there was one. The other keys
/// stay in order, and their lines as they are.
#[verifier::external_body]
pub(crate) fn take_entry(t: &mut toml_edit::Table, key: &str) -> (r: bool)
    ensures
        r == table_entries(*old(t)).contains_key(key@),
        table_entries(*final(t)) == table_entries(*old(t)).remove(key@),
        table_layout(*final(t)) == table_layout(*old(t)).without(key@),
{
    t.remove(key).is_some()
}

} // verus!
