//! TOML documents of the plainest form: tables with bare keys, strings in quotation marks and
//! nothing that needs an escape. What such a text is read as follows from what it is made of.

use crate::data::Node;
use vstd::prelude::*;

verus! {

/// A table: its header of one key, or of one key below another, and its strings.
pub struct Section {
    pub key: Seq<char>,
    pub below: Option<Seq<char>>,
    pub pairs: Seq<(Seq<char>, Seq<char>)>,
}

/// Tables in order, with a blank line between them, and the comments before and after them.
pub struct Document {
    pub before: Seq<char>,
    pub sections: Seq<Section>,
    pub after: Seq<char>,
}

/// A line for each key and its string.
pub open spec fn pair_lines(pairs: Seq<(Seq<char>, Seq<char>)>) -> Seq<char>
    decreases pairs.len(),
{
    if pairs.len() == 0 {
        Seq::empty()
    } else {
        pair_lines(pairs.drop_last()) + pairs.last().0 + " = \""@ + pairs.last().1 + "\"\n"@
    }
}

impl Section {
    /// What stands between the brackets of the header.
    pub open spec fn header(self) -> Seq<char> {
        match self.below {
            None => self.key,
            Some(b) => self.key + "."@ + b,
        }
    }

    /// The table as it is written.
    pub open spec fn text(self) -> Seq<char> {
        "["@ + self.header() + "]\n"@ + pair_lines(self.pairs)
    }

    /// The keys are bare and stand once, and the strings are plain.
    pub open spec fn is_plain(self) -> bool {
        &&& is_bare(self.key)
        &&& self.below matches Some(b) ==> is_bare(b)
        &&& are_plain(self.pairs)
    }
}

/// The tables as they are written, with a blank line between them.
pub open spec fn sections_text(sections: Seq<Section>) -> Seq<char>
    decreases sections.len(),
{
    if sections.len() == 0 {
        Seq::empty()
    } else if sections.len() == 1 {
        sections[0].text()
    } else {
        sections_text(sections.drop_last()) + "\n"@ + sections.last().text()
    }
}

/// A character that a key without quotation marks may hold.
pub open spec fn is_bare_char(c: char) -> bool {
    'a' <= c <= 'z' || 'A' <= c <= 'Z' || '0' <= c <= '9' || c == '_' || c == '-'
}

/// A key that needs no quotation marks.
pub open spec fn is_bare(key: Seq<char>) -> bool {
    key.len() > 0 && forall|i: int| 0 <= i < key.len() ==> is_bare_char(#[trigger] key[i])
}

/// No control character.
pub open spec fn is_printable(c: char) -> bool {
    c as u32 >= 0x20 && c as u32 != 0x7f
}

/// A string that stands in quotation marks as it is.
pub open spec fn is_plain_string(s: Seq<char>) -> bool {
    forall|i: int|
        0 <= i < s.len() ==> is_printable(#[trigger] s[i]) && s[i] != '"' && s[i] != '\\'
}

/// Keys that are bare and stand once, each with a plain string.
pub open spec fn are_plain(pairs: Seq<(Seq<char>, Seq<char>)>) -> bool {
    &&& forall|i: int|
        0 <= i < pairs.len() ==> is_bare((#[trigger] pairs[i]).0) && is_plain_string(pairs[i].1)
    &&& forall|i: int, j: int|
        0 <= i < j < pairs.len() ==> (#[trigger] pairs[i]).0 != (#[trigger] pairs[j]).0
}

/// A line starts at `i` that is blank or a comment, or the text ends there.
pub open spec fn says_nothing(s: Seq<char>, i: int) -> bool {
    i == s.len() || s[i] == '#' || s[i] == '\n'
}

/// The character at `i` ends no line, or ends one behind which the next says nothing.
pub open spec fn goes_on(s: Seq<char>, i: int) -> bool {
    is_printable(s[i]) || (s[i] == '\n' && says_nothing(s, i + 1))
}

/// Lines that are blank or comments.
pub open spec fn is_filler(s: Seq<char>) -> bool {
    s.len() > 0 ==> {
        &&& says_nothing(s, 0)
        &&& s.last() == '\n'
        &&& forall|i: int| 0 <= i < s.len() ==> #[trigger] goes_on(s, i)
    }
}

/// From `i` on, every character goes on.
pub open spec fn goes_on_from(s: Seq<char>, i: int) -> bool
    decreases s.len() - i,
{
    0 <= i < s.len() ==> goes_on(s, i) && goes_on_from(s, i + 1)
}

/// Where every character goes on from one place on, each one behind it does.
pub proof fn goes_on_throughout(s: Seq<char>, i: int, k: int)
    requires
        goes_on_from(s, i),
        0 <= i <= k < s.len(),
    ensures
        goes_on(s, k),
    decreases k - i,
{
    if i < k {
        goes_on_throughout(s, i + 1, k);
    }
}

impl Document {
    /// The document as it is written.
    pub open spec fn text(self) -> Seq<char> {
        self.before + sections_text(self.sections) + self.after
    }

    /// Every table is plain, and none is there twice: two tables of one key stand below it, under
    /// different keys.
    pub open spec fn is_plain(self) -> bool {
        &&& forall|i: int| 0 <= i < self.sections.len() ==> (#[trigger] self.sections[i]).is_plain()
        &&& forall|i: int, j: int|
            0 <= i < j < self.sections.len() && (#[trigger] self.sections[i]).key == (
            #[trigger] self.sections[j]).key ==> self.sections[i].below is Some
                && self.sections[j].below is Some && self.sections[i].below
                != self.sections[j].below
        &&& is_filler(self.before)
        &&& is_filler(self.after)
    }
}

/// The strings by their keys.
pub open spec fn pair_items(pairs: Seq<(Seq<char>, Seq<char>)>) -> Map<Seq<char>, Node>
    decreases pairs.len(),
{
    if pairs.len() == 0 {
        Map::empty()
    } else {
        pair_items(pairs.drop_last()).insert(pairs.last().0, Node::Text(pairs.last().1))
    }
}

/// The items of the table under a key; none where there is no table.
pub open spec fn items_at(items: Map<Seq<char>, Node>, key: Seq<char>) -> Map<Seq<char>, Node> {
    if items.contains_key(key) {
        match items[key] {
            Node::Table(t) => t,
            _ => Map::empty(),
        }
    } else {
        Map::empty()
    }
}

/// The items with those of a further table.
pub open spec fn with_section(items: Map<Seq<char>, Node>, s: Section) -> Map<Seq<char>, Node> {
    let own = Node::Table(pair_items(s.pairs));
    match s.below {
        None => items.insert(s.key, own),
        Some(b) => items.insert(s.key, Node::Table(items_at(items, s.key).insert(b, own))),
    }
}

/// What the tables are read as.
pub open spec fn section_items(sections: Seq<Section>) -> Map<Seq<char>, Node>
    decreases sections.len(),
{
    if sections.len() == 0 {
        Map::empty()
    } else {
        with_section(section_items(sections.drop_last()), sections.last())
    }
}

/// Each key that stands once holds its own string, and there is no other key.
pub proof fn items_are_the_pairs(pairs: Seq<(Seq<char>, Seq<char>)>)
    requires
        forall|i: int, j: int|
            0 <= i < j < pairs.len() ==> (#[trigger] pairs[i]).0 != (#[trigger] pairs[j]).0,
    ensures
        forall|i: int|
            0 <= i < pairs.len() ==> pair_items(pairs).contains_key((#[trigger] pairs[i]).0)
                && pair_items(pairs)[pairs[i].0] == Node::Text(pairs[i].1),
        forall|k: Seq<char>| #[trigger]
            pair_items(pairs).contains_key(k) ==> exists|i: int|
                0 <= i < pairs.len() && (#[trigger] pairs[i]).0 == k,
    decreases pairs.len(),
{
    if pairs.len() > 0 {
        let rest = pairs.drop_last();
        let n = rest.len() as int;
        items_are_the_pairs(rest);
        assert(pairs.last() == pairs[n]);
        assert forall|i: int| 0 <= i < pairs.len() implies pair_items(pairs).contains_key(
            (#[trigger] pairs[i]).0,
        ) && pair_items(pairs)[pairs[i].0] == Node::Text(pairs[i].1) by {
            if i < n {
                assert(rest[i] == pairs[i]);
                assert(pairs[i].0 != pairs[n].0);
            }
        }
        assert forall|k: Seq<char>| #[trigger] pair_items(pairs).contains_key(k) implies exists|
            i: int,
        | 0 <= i < pairs.len() && (#[trigger] pairs[i]).0 == k by {
            if k != pairs[n].0 {
                assert(pair_items(rest).contains_key(k));
                let i = choose|i: int| 0 <= i < rest.len() && (#[trigger] rest[i]).0 == k;
                assert(pairs[i].0 == k);
            }
        }
    }
}

} // verus!
