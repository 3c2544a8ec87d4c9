//! Paths as this library decides them: a base directory and what is joined on to it, in order.
//! How a platform joins two paths is the platform's own matter.

use crate::text;
use vstd::prelude::*;

verus! {

/// A base path and the segments that are joined on to it, one after the other.
#[derive(Debug)]
pub struct JoinedPath {
    pub base: String,
    pub segments: Vec<String>,
}

/// The base and the segments of a path, as text.
#[verifier::ext_equal]
pub struct PathText {
    pub base: Seq<char>,
    pub segments: Seq<Seq<char>>,
}

impl View for JoinedPath {
    type V = PathText;

    open spec fn view(&self) -> PathText {
        PathText { base: self.base@, segments: text::texts(self.segments@) }
    }
}

/// `base` with nothing joined on to it.
pub open spec fn plain(base: Seq<char>) -> PathText {
    PathText { base, segments: Seq::empty() }
}

impl PathText {
    /// This path with one more segment.
    pub open spec fn join(self, segment: Seq<char>) -> PathText {
        PathText { base: self.base, segments: self.segments.push(segment) }
    }
}

impl JoinedPath {
    /// `base` with nothing joined on to it.
    pub fn new(base: &str) -> (r: JoinedPath)
        ensures
            r@ == plain(base@),
    {
        let r = JoinedPath { base: base.to_owned(), segments: Vec::new() };
        assert(r@.segments =~= Seq::empty());
        r
    }

    /// Joins one more segment on.
    pub fn join(self, segment: &str) -> (r: JoinedPath)
        ensures
            r@ == self@.join(segment@),
    {
        let mut r = self;
        let ghost before = r.segments@;
        r.segments.push(segment.to_owned());
        assert(text::texts(r.segments@) =~= text::texts(before).push(segment@));
        r
    }
}

/// The directory that all of stack's own files live in, under the home directory.
pub open spec fn stack_dir(home: Seq<char>) -> PathText {
    plain(home).join(".stack"@)
}

/// The directory that all of stack's own files live in, under the home directory.
pub fn stack_directory(home: &str) -> (r: JoinedPath)
    ensures
        r@ == stack_dir(home@),
{
    JoinedPath::new(home).join(".stack")
}

} // verus!
