//! Splitting a command into words, and quoting a word so that it stays one.

use crate::text;
use vstd::prelude::*;

verus! {

/// `shell_words::ParseError`.
#[verifier::external_type_specification]
#[verifier::external_body]
pub struct ExParseError(shell_words::ParseError);

/// What `shell_words::split` makes of a text; nothing where a quote is left open.
pub uninterp spec fn split_words(s: Seq<char>) -> Option<Seq<Seq<char>>>;

/// What `shell_words::quote` makes of a word.
pub uninterp spec fn quoted(word: Seq<char>) -> Seq<char>;

/// Characters that `shell_words::split` takes for something other than themselves.
pub open spec fn is_special(c: char) -> bool {
    c == '\'' || c == '"' || c == '\\' || c == '\t' || c == ' ' || c == '\n' || c == '#'
}

/// A word that is read as it stands: it is not empty and holds no special character.
pub open spec fn is_plain(word: Seq<char>) -> bool {
    word.len() > 0 && forall|i: int| 0 <= i < word.len() ==> !is_special(#[trigger] word[i])
}

/// All words of a list are read as they stand.
pub open spec fn all_plain(words: Seq<Seq<char>>) -> bool {
    forall|i: int| 0 <= i < words.len() ==> is_plain(#[trigger] words[i])
}

/// `s` is these plain words, with one space between them.
pub open spec fn is_plain_list(s: Seq<char>, list: Seq<Seq<char>>) -> bool {
    all_plain(list) && s == text::joined(list, " "@)
}

/// `s` is a quoted word and, behind a space, these plain words with one space between them.
pub open spec fn is_quoted_list(s: Seq<char>, word: Seq<char>, rest: Seq<Seq<char>>) -> bool {
    all_plain(rest) && s == quoted(word) + " "@ + text::joined(rest, " "@)
}

/// `shell_words::split`. The result depends on the text alone. Plain words with one space between
/// them come out as they are, and so does a word that `shell_words::quote` has quoted, whatever it
/// holds, with such a list behind it. Nothing is said of other texts.
#[verifier::external_body]
pub(crate) fn split(s: &str) -> (r: Result<Vec<String>, shell_words::ParseError>)
    ensures
        match r {
            Ok(v) => split_words(s@) == Some(text::texts(v@)),
            Err(_) => split_words(s@) is None,
        },
        forall|list: Seq<Seq<char>>| #[trigger]
            is_plain_list(s@, list) ==> r is Ok && text::texts(r->Ok_0@) == list,
        forall|word: Seq<char>, rest: Seq<Seq<char>>| #[trigger]
            is_quoted_list(s@, word, rest) ==> r is Ok && text::texts(r->Ok_0@) == seq![word]
                + rest,
{
    shell_words::split(s)
}

/// `shell_words::quote`: a text that is read as one word, and depends on the word alone. What
/// `split` reads from it is stated there.
#[verifier::external_body]
pub(crate) fn quote(word: &str) -> (r: String)
    ensures
        r@ == quoted(word@),
{
    shell_words::quote(word).into_owned()
}

} // verus!
