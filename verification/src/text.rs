//! Verified text handling: everything here speaks of a string as the sequence of its characters.

use vstd::prelude::*;

verus! {

/// `str::eq`: two string slices are equal exactly when they hold the same characters.
pub assume_specification[ <str as PartialEq>::eq ](a: &str, b: &str) -> (r: bool)
    ensures
        r == (a@ == b@),
;

/// `String::push`: appends one character at the end.
pub assume_specification[ String::push ](s: &mut String, c: char)
    ensures
        final(s)@ == old(s)@.push(c),
;

/// The characters of each string of a list.
pub open spec fn texts(v: Seq<String>) -> Seq<Seq<char>> {
    v.map_values(|s: String| s@)
}

/// The characters of an optional owned string.
pub open spec fn opt_text(o: Option<String>) -> Option<Seq<char>> {
    match o {
        Some(s) => Some(s@),
        None => None,
    }
}

/// The characters of an optional borrowed string.
pub open spec fn opt_str(o: Option<&str>) -> Option<Seq<char>> {
    match o {
        Some(s) => Some(s@),
        None => None,
    }
}

/// Whether two strings hold the same characters.
pub fn same(a: &str, b: &str) -> (r: bool)
    ensures
        r == (a@ == b@),
{
    *a == *b
}

/// The characters of `s`, in order.
pub fn chars_of(s: &str) -> (v: Vec<char>)
    ensures
        v@ == s@,
{
    let mut v: Vec<char> = Vec::new();
    for c in it: s.chars()
        invariant
            it.seq() == s@,
            v@ == s@.take(it.index() as int),
    {
        v.push(c);
        assert(v@ =~= s@.take(it.index() + 1));
    }
    assert(v@ =~= s@);
    v
}

/// The string made of `v[from..to]`.
pub fn text_of(v: &Vec<char>, from: usize, to: usize) -> (r: String)
    requires
        from <= to <= v@.len(),
    ensures
        r@ == v@.subrange(from as int, to as int),
{
    let mut r = String::new();
    let mut i: usize = from;
    while i < to
        invariant
            from <= i <= to <= v@.len(),
            r@ == v@.subrange(from as int, i as int),
        decreases to - i,
    {
        r.push(v[i]);
        i += 1;
        assert(r@ =~= v@.subrange(from as int, i as int));
    }
    r
}

// ------------------------------------------------------------------------------------------
// Order

/// Code-point order on strings, which is also the order of their UTF-8 bytes.
pub open spec fn precedes(a: Seq<char>, b: Seq<char>) -> bool
    decreases a.len(),
{
    if b.len() == 0 {
        false
    } else if a.len() == 0 {
        true
    } else if a[0] != b[0] {
        (a[0] as int) < (b[0] as int)
    } else {
        precedes(a.skip(1), b.skip(1))
    }
}

/// No string precedes itself.
pub proof fn precedes_irreflexive(a: Seq<char>)
    ensures
        !precedes(a, a),
    decreases a.len(),
{
    if a.len() > 0 {
        precedes_irreflexive(a.skip(1));
    }
}

/// The order is transitive.
pub proof fn precedes_transitive(a: Seq<char>, b: Seq<char>, c: Seq<char>)
    requires
        precedes(a, b),
        precedes(b, c),
    ensures
        precedes(a, c),
    decreases a.len(),
{
    if a.len() > 0 && b.len() > 0 && c.len() > 0 && a[0] == b[0] && b[0] == c[0] {
        precedes_transitive(a.skip(1), b.skip(1), c.skip(1));
    }
}

/// Of two different strings one precedes the other.
pub proof fn precedes_total(a: Seq<char>, b: Seq<char>)
    ensures
        a == b || precedes(a, b) || precedes(b, a),
    decreases a.len(),
{
    if a.len() == 0 {
        if b.len() == 0 {
            assert(a =~= b);
        }
    } else if b.len() > 0 && a[0] == b[0] {
        precedes_total(a.skip(1), b.skip(1));
        if a.skip(1) == b.skip(1) {
            assert(a =~= seq![a[0]] + a.skip(1));
            assert(b =~= seq![b[0]] + b.skip(1));
        }
    }
}

/// The code point of a character.
pub fn code_point(c: char) -> (r: u32)
    ensures
        r as int == c as int,
{
    c as u32
}

/// Whether `a` comes before `b`.
pub fn comes_before(a: &str, b: &str) -> (r: bool)
    ensures
        r == precedes(a@, b@),
{
    let x = chars_of(a);
    let y = chars_of(b);
    let mut i: usize = 0;
    assert(x@.skip(0) =~= x@);
    assert(y@.skip(0) =~= y@);
    while i < x.len() && i < y.len() && x[i] == y[i]
        invariant
            i <= x@.len(),
            i <= y@.len(),
            precedes(a@, b@) == precedes(x@.skip(i as int), y@.skip(i as int)),
        decreases x@.len() - i,
    {
        assert(x@.skip(i as int).skip(1) =~= x@.skip(i + 1));
        assert(y@.skip(i as int).skip(1) =~= y@.skip(i + 1));
        i += 1;
    }
    if i >= y.len() {
        false
    } else if i >= x.len() {
        true
    } else {
        code_point(x[i]) < code_point(y[i])
    }
}

// ------------------------------------------------------------------------------------------
// Character classes

/// A set of characters that text is trimmed or read by.
#[derive(Clone, Copy)]
pub enum Class {
    /// Unicode white space.
    White,
    /// The path separator of a URL.
    Slash,
    /// An operator in front of a version constraint.
    Operator,
    /// A decimal digit or a dot.
    Version,
    /// A dot.
    Dot,
}

impl Class {
    /// Whether the class has `c`.
    pub open spec fn has(self, c: char) -> bool {
        match self {
            Class::White => {
                ||| 0x9 <= c as int <= 0xd
                ||| c as int == 0x20
                ||| c as int == 0x85
                ||| c as int == 0xa0
                ||| c as int == 0x1680
                ||| 0x2000 <= c as int <= 0x200a
                ||| c as int == 0x2028
                ||| c as int == 0x2029
                ||| c as int == 0x202f
                ||| c as int == 0x205f
                ||| c as int == 0x3000
            },
            Class::Slash => c == '/',
            Class::Operator => c == '^' || c == '~' || c == '>' || c == '<' || c == '=',
            Class::Version => '0' as int <= c as int <= '9' as int || c == '.',
            Class::Dot => c == '.',
        }
    }

    /// Decides whether the class has `c`.
    pub fn test(&self, c: char) -> (r: bool)
        ensures
            r == self.has(c),
    {
        let n: u32 = code_point(c);
        match self {
            Class::White => (0x9 <= n && n <= 0xd) || n == 0x20 || n == 0x85 || n == 0xa0 || n
                == 0x1680 || (0x2000 <= n && n <= 0x200a) || n == 0x2028 || n == 0x2029 || n
                == 0x202f || n == 0x205f || n == 0x3000,
            Class::Slash => c == '/',
            Class::Operator => c == '^' || c == '~' || c == '>' || c == '<' || c == '=',
            Class::Version => (0x30 <= n && n <= 0x39) || c == '.',
            Class::Dot => c == '.',
        }
    }
}

/// `s` without the longest run of class members at its front.
pub open spec fn drop_leading(s: Seq<char>, k: Class) -> Seq<char>
    decreases s.len(),
{
    if s.len() > 0 && k.has(s[0]) {
        drop_leading(s.skip(1), k)
    } else {
        s
    }
}

/// `s` without the longest run of class members at its end.
pub open spec fn drop_trailing(s: Seq<char>, k: Class) -> Seq<char>
    decreases s.len(),
{
    if s.len() > 0 && k.has(s.last()) {
        drop_trailing(s.drop_last(), k)
    } else {
        s
    }
}

/// The longest run of class members at the front of `s`.
pub open spec fn leading(s: Seq<char>, k: Class) -> Seq<char>
    decreases s.len(),
{
    if s.len() > 0 && k.has(s[0]) {
        seq![s[0]] + leading(s.skip(1), k)
    } else {
        Seq::empty()
    }
}

/// `s` without white space at either end.
pub open spec fn trimmed(s: Seq<char>) -> Seq<char> {
    drop_trailing(drop_leading(s, Class::White), Class::White)
}

/// Drops the run of class members at the front.
pub fn trim_leading(s: &str, k: Class) -> (r: String)
    ensures
        r@ == drop_leading(s@, k),
{
    let v = chars_of(s);
    let mut i: usize = 0;
    assert(v@.skip(0) =~= v@);
    while i < v.len() && k.test(v[i])
        invariant
            i <= v@.len(),
            drop_leading(v@, k) == drop_leading(v@.skip(i as int), k),
        decreases v@.len() - i,
    {
        assert(v@.skip(i as int).skip(1) =~= v@.skip(i + 1));
        i += 1;
    }
    assert(v@.skip(i as int) =~= v@.subrange(i as int, v@.len() as int));
    text_of(&v, i, v.len())
}

/// Drops the run of class members at the end.
pub fn trim_trailing(s: &str, k: Class) -> (r: String)
    ensures
        r@ == drop_trailing(s@, k),
{
    let v = chars_of(s);
    let mut n: usize = v.len();
    assert(v@.take(n as int) =~= v@);
    while n > 0 && k.test(v[n - 1])
        invariant
            n <= v@.len(),
            drop_trailing(v@, k) == drop_trailing(v@.take(n as int), k),
        decreases n,
    {
        assert(v@.take(n as int).drop_last() =~= v@.take(n - 1));
        n -= 1;
    }
    assert(v@.take(n as int) =~= v@.subrange(0, n as int));
    text_of(&v, 0, n)
}

/// Reads the run of class members at the front.
pub fn take_leading(s: &str, k: Class) -> (r: String)
    ensures
        r@ == leading(s@, k),
{
    let v = chars_of(s);
    let mut i: usize = 0;
    assert(v@.skip(0) =~= v@);
    assert(v@.take(0) + leading(v@, k) =~= leading(v@, k));
    while i < v.len() && k.test(v[i])
        invariant
            i <= v@.len(),
            leading(v@, k) == v@.take(i as int) + leading(v@.skip(i as int), k),
        decreases v@.len() - i,
    {
        assert(v@.skip(i as int).skip(1) =~= v@.skip(i + 1));
        assert(v@.take(i as int) + (seq![v@[i as int]] + leading(v@.skip(i + 1), k)) =~= v@.take(
            i + 1,
        ) + leading(v@.skip(i + 1), k));
        i += 1;
    }
    assert(v@.take(i as int) + Seq::<char>::empty() =~= v@.subrange(0, i as int));
    text_of(&v, 0, i)
}

/// Drops white space at either end.
pub fn trim(s: &str) -> (r: String)
    ensures
        r@ == trimmed(s@),
{
    let front = trim_leading(s, Class::White);
    trim_trailing(front.as_str(), Class::White)
}

// ------------------------------------------------------------------------------------------
// Searching and splitting

/// The place of the first `c` in `s`, or the length of `s` if there is none.
pub open spec fn first_index(s: Seq<char>, c: char) -> int
    decreases s.len(),
{
    if s.len() == 0 || s[0] == c {
        0
    } else {
        1 + first_index(s.skip(1), c)
    }
}

/// The first index is the place before which `c` does not occur.
pub proof fn first_index_is_first(s: Seq<char>, c: char, i: int)
    requires
        0 <= i <= s.len(),
        forall|j: int| 0 <= j < i ==> s[j] != c,
        i < s.len() ==> s[i] == c,
    ensures
        first_index(s, c) == i,
    decreases s.len(),
{
    if i > 0 {
        assert forall|j: int| 0 <= j < i - 1 implies s.skip(1)[j] != c by {
            assert(s.skip(1)[j] == s[j + 1]);
        }
        first_index_is_first(s.skip(1), c, i - 1);
    }
}

/// What the first index says of the characters before and at it.
pub proof fn first_index_bounds(s: Seq<char>, c: char)
    ensures
        0 <= first_index(s, c) <= s.len(),
        forall|j: int| 0 <= j < first_index(s, c) ==> s[j] != c,
        first_index(s, c) < s.len() ==> s[first_index(s, c)] == c,
    decreases s.len(),
{
    if s.len() > 0 && s[0] != c {
        first_index_bounds(s.skip(1), c);
        assert forall|j: int| 0 <= j < first_index(s, c) implies s[j] != c by {
            if j > 0 {
                assert(s.skip(1)[j - 1] == s[j]);
            }
        }
    }
}

/// The place of the first `c` at or behind `from`, or the length of `v` if there is none.
pub fn find_char(v: &Vec<char>, from: usize, c: char) -> (r: usize)
    requires
        from <= v@.len(),
    ensures
        from <= r <= v@.len(),
        r == from + first_index(v@.skip(from as int), c),
{
    let mut i: usize = from;
    while i < v.len() && v[i] != c
        invariant
            from <= i <= v@.len(),
            forall|j: int| from <= j < i ==> v@[j] != c,
        decreases v@.len() - i,
    {
        i += 1;
    }
    proof {
        let rest = v@.skip(from as int);
        assert forall|j: int| 0 <= j < i - from implies rest[j] != c by {
            assert(rest[j] == v@[from + j]);
        }
        first_index_is_first(rest, c, i - from);
    }
    i
}

/// Whether `s` begins with `p`.
pub open spec fn has_prefix(s: Seq<char>, p: Seq<char>) -> bool {
    p.len() <= s.len() && s.take(p.len() as int) == p
}

/// Whether `s` ends with `p`.
pub open spec fn has_suffix(s: Seq<char>, p: Seq<char>) -> bool {
    p.len() <= s.len() && s.skip(s.len() - p.len()) == p
}

/// Whether `p` stands in `s` at `i`.
pub open spec fn occurs_at(s: Seq<char>, p: Seq<char>, i: int) -> bool {
    0 <= i && i + p.len() <= s.len() && s.subrange(i, i + p.len()) == p
}

/// Whether `p` stands anywhere in `s`.
pub open spec fn occurs_in(s: Seq<char>, p: Seq<char>) -> bool {
    exists|i: int| occurs_at(s, p, i)
}

/// Decides whether `p` stands in `v` at `i`.
pub fn matches_at(v: &Vec<char>, p: &Vec<char>, i: usize) -> (r: bool)
    requires
        i <= v@.len(),
    ensures
        r == occurs_at(v@, p@, i as int),
{
    let n: usize = v.len();
    if n - i < p.len() {
        return false;
    }
    let mut j: usize = 0;
    while j < p.len()
        invariant
            n == v@.len(),
            i + p@.len() <= n,
            j <= p@.len(),
            forall|m: int| 0 <= m < j ==> v@[i + m] == p@[m],
        decreases p@.len() - j,
    {
        if v[i + j] != p[j] {
            proof {
                assert(v@.subrange(i as int, i + p@.len())[j as int] == v@[i + j]);
            }
            return false;
        }
        j += 1;
    }
    assert(v@.subrange(i as int, i + p@.len()) =~= p@);
    true
}

/// Decides whether `s` begins with `p`.
pub fn starts_with(s: &str, p: &str) -> (r: bool)
    ensures
        r == has_prefix(s@, p@),
{
    let v = chars_of(s);
    let w = chars_of(p);
    proof {
        if p@.len() <= s@.len() {
            assert(s@.subrange(0, p@.len() as int) =~= s@.take(p@.len() as int));
        }
    }
    matches_at(&v, &w, 0)
}

/// Decides whether `s` ends with `p`.
pub fn ends_with(s: &str, p: &str) -> (r: bool)
    ensures
        r == has_suffix(s@, p@),
{
    let v = chars_of(s);
    let w = chars_of(p);
    if v.len() < w.len() {
        return false;
    }
    proof {
        let at = s@.len() - p@.len();
        assert(s@.subrange(at, at + p@.len()) =~= s@.skip(at));
    }
    matches_at(&v, &w, v.len() - w.len())
}

/// Decides whether `p` stands anywhere in `s`.
pub fn contains(s: &str, p: &str) -> (r: bool)
    ensures
        r == occurs_in(s@, p@),
{
    let v = chars_of(s);
    let w = chars_of(p);
    let mut i: usize = 0;
    while i <= v.len()
        invariant
            v@ == s@,
            w@ == p@,
            i <= v@.len() + 1,
            forall|j: int| 0 <= j < i ==> !occurs_at(s@, p@, j),
        decreases v@.len() + 1 - i,
    {
        if matches_at(&v, &w, i) {
            return true;
        }
        if i == v.len() {
            assert forall|j: int| !occurs_at(s@, p@, j) by {}
            return false;
        }
        i += 1;
    }
    false
}

/// `s` without `p` at its front, where it begins with it.
pub open spec fn without_prefix(s: Seq<char>, p: Seq<char>) -> Seq<char> {
    if has_prefix(s, p) {
        s.skip(p.len() as int)
    } else {
        s
    }
}

/// `s` without `p` at its end, where it ends with it.
pub open spec fn without_suffix(s: Seq<char>, p: Seq<char>) -> Seq<char> {
    if has_suffix(s, p) {
        s.take(s.len() - p.len())
    } else {
        s
    }
}

/// Drops `p` from the front once, where it is there.
pub fn strip_prefix(s: &str, p: &str) -> (r: String)
    ensures
        r@ == without_prefix(s@, p@),
{
    if starts_with(s, p) {
        let v = chars_of(s);
        let w = chars_of(p);
        assert(v@.skip(w@.len() as int) =~= v@.subrange(w@.len() as int, v@.len() as int));
        text_of(&v, w.len(), v.len())
    } else {
        s.to_owned()
    }
}

/// Drops `p` from the end once, where it is there.
pub fn strip_suffix(s: &str, p: &str) -> (r: String)
    ensures
        r@ == without_suffix(s@, p@),
{
    if ends_with(s, p) {
        let v = chars_of(s);
        let w = chars_of(p);
        assert(v@.take(v@.len() - w@.len()) =~= v@.subrange(0, v@.len() - w@.len()));
        text_of(&v, 0, v.len() - w.len())
    } else {
        s.to_owned()
    }
}

/// `s` with every occurrence of `p` replaced by `w`, found from the front without overlap.
pub open spec fn replaced(s: Seq<char>, p: Seq<char>, w: Seq<char>) -> Seq<char>
    decreases s.len(),
{
    if p.len() == 0 || s.len() < p.len() {
        s
    } else if has_prefix(s, p) {
        w + replaced(s.skip(p.len() as int), p, w)
    } else {
        seq![s[0]] + replaced(s.skip(1), p, w)
    }
}

/// Replaces every occurrence of `p` by `w`.
pub fn replace(s: &str, p: &str, w: &str) -> (r: String)
    requires
        p@.len() > 0,
    ensures
        r@ == replaced(s@, p@, w@),
{
    let v = chars_of(s);
    let q = chars_of(p);
    let mut r = String::new();
    let mut i: usize = 0;
    let n: usize = v.len();
    let m: usize = q.len();
    assert(v@.skip(0) =~= v@);
    assert(r@ + replaced(v@, q@, w@) =~= replaced(v@, q@, w@));
    while i < n && m <= n - i
        invariant
            n == v@.len(),
            m == q@.len(),
            m > 0,
            i <= n,
            replaced(v@, q@, w@) == r@ + replaced(v@.skip(i as int), q@, w@),
        decreases n - i,
    {
        let ghost rest = v@.skip(i as int);
        proof {
            assert(rest.take(m as int) =~= v@.subrange(i as int, i + m));
        }
        if matches_at(&v, &q, i) {
            let ghost before = r@;
            r.append(w);
            proof {
                assert(rest.skip(m as int) =~= v@.skip(i + m));
                assert(before + (w@ + replaced(v@.skip(i + m), q@, w@)) =~= r@ + replaced(
                    v@.skip(i + m),
                    q@,
                    w@,
                ));
            }
            i += m;
        } else {
            let ghost before = r@;
            r.push(v[i]);
            proof {
                assert(rest.skip(1) =~= v@.skip(i + 1));
                assert(before + (seq![rest[0]] + replaced(v@.skip(i + 1), q@, w@)) =~= r@
                    + replaced(v@.skip(i + 1), q@, w@));
            }
            i += 1;
        }
    }
    assert(replaced(v@.skip(i as int), q@, w@) == v@.skip(i as int));
    let tail = text_of(&v, i, n);
    assert(v@.subrange(i as int, n as int) =~= v@.skip(i as int));
    r.append(tail.as_str());
    r
}

/// `s` cut at every `c`: one piece more than there are cuts.
pub open spec fn pieces(s: Seq<char>, c: char) -> Seq<Seq<char>>
    decreases s.len(),
{
    let i = first_index(s, c);
    if 0 <= i < s.len() {
        seq![s.take(i)] + pieces(s.skip(i + 1), c)
    } else {
        seq![s]
    }
}

/// Cuts `s` at every `c`.
pub fn split(s: &str, c: char) -> (r: Vec<String>)
    ensures
        texts(r@) == pieces(s@, c),
{
    let v = chars_of(s);
    let n: usize = v.len();
    let mut r: Vec<String> = Vec::new();
    let mut from: usize = 0;
    assert(v@.skip(0) =~= v@);
    assert(texts(r@) + pieces(v@, c) =~= pieces(v@, c));
    loop
        invariant_except_break
            pieces(s@, c) == texts(r@) + pieces(v@.skip(from as int), c),
        invariant
            v@ == s@,
            n == v@.len(),
            from <= n,
        ensures
            pieces(s@, c) == texts(r@),
        decreases n - from,
    {
        let at: usize = find_char(&v, from, c);
        let ghost rest = v@.skip(from as int);
        let ghost before = r@;
        r.push(text_of(&v, from, at));
        assert(texts(r@) =~= texts(before).push(r@.last()@));
        if at < n {
            proof {
                assert(v@.subrange(from as int, at as int) =~= rest.take(at - from));
                assert(rest.skip(at - from + 1) =~= v@.skip(at + 1));
                assert(texts(before) + (seq![rest.take(at - from)] + pieces(v@.skip(at + 1), c))
                    =~= texts(r@) + pieces(v@.skip(at + 1), c));
            }
            from = at + 1;
        } else {
            proof {
                assert(v@.subrange(from as int, at as int) =~= rest);
                assert(texts(before) + seq![rest] =~= texts(r@));
            }
            break;
        }
    }
    r
}

/// `s` without a carriage return at its end.
pub open spec fn without_return(s: Seq<char>) -> Seq<char> {
    if s.len() > 0 && s.last() == '\r' {
        s.drop_last()
    } else {
        s
    }
}

/// The lines of `s`: each ends at a line feed, which is dropped together with a carriage return
/// in front of it; the last line may lack its line feed.
pub open spec fn lines_of(s: Seq<char>) -> Seq<Seq<char>>
    decreases s.len(),
{
    let i = first_index(s, '\n');
    if s.len() == 0 {
        Seq::empty()
    } else if 0 <= i < s.len() {
        seq![without_return(s.take(i))] + lines_of(s.skip(i + 1))
    } else {
        seq![s]
    }
}

/// Cuts `s` into its lines.
pub fn lines(s: &str) -> (r: Vec<String>)
    ensures
        texts(r@) == lines_of(s@),
{
    let v = chars_of(s);
    let n: usize = v.len();
    let mut r: Vec<String> = Vec::new();
    let mut from: usize = 0;
    assert(v@.skip(0) =~= v@);
    assert(texts(r@) + lines_of(v@) =~= lines_of(v@));
    while from < n
        invariant
            v@ == s@,
            n == v@.len(),
            from <= n,
            lines_of(s@) == texts(r@) + lines_of(v@.skip(from as int)),
        decreases n - from,
    {
        let at: usize = find_char(&v, from, '\n');
        let ghost rest = v@.skip(from as int);
        let ghost before = r@;
        if at < n {
            let to: usize = if at > from && v[at - 1] == '\r' { at - 1 } else { at };
            r.push(text_of(&v, from, to));
            proof {
                assert(texts(r@) =~= texts(before).push(r@.last()@));
                assert(without_return(rest.take(at - from)) =~= v@.subrange(
                    from as int,
                    to as int,
                ));
                assert(rest.skip(at - from + 1) =~= v@.skip(at + 1));
                assert(texts(before) + (seq![without_return(rest.take(at - from))] + lines_of(
                    v@.skip(at + 1),
                )) =~= texts(r@) + lines_of(v@.skip(at + 1)));
            }
            from = at + 1;
        } else {
            r.push(text_of(&v, from, n));
            proof {
                assert(texts(r@) =~= texts(before).push(r@.last()@));
                assert(v@.subrange(from as int, n as int) =~= rest);
                assert(v@.skip(n as int) =~= Seq::<char>::empty());
                assert(texts(before) + seq![rest] =~= texts(r@) + Seq::<Seq<char>>::empty());
            }
            from = n;
        }
    }
    assert(v@.skip(n as int) =~= Seq::<char>::empty());
    assert(texts(r@) + Seq::<Seq<char>>::empty() =~= texts(r@));
    r
}

/// The parts with `sep` between each two.
pub open spec fn joined(parts: Seq<Seq<char>>, sep: Seq<char>) -> Seq<char>
    decreases parts.len(),
{
    if parts.len() == 0 {
        Seq::empty()
    } else {
        let front = parts.drop_last();
        if front.len() == 0 {
            parts.last()
        } else {
            joined(front, sep) + sep + parts.last()
        }
    }
}

/// Joins the parts with `sep` between each two.
pub fn join(parts: &Vec<String>, sep: &str) -> (r: String)
    ensures
        r@ == joined(texts(parts@), sep@),
{
    let mut r = String::new();
    let mut i: usize = 0;
    let ghost all = texts(parts@);
    assert(all.take(0).len() == 0);
    while i < parts.len()
        invariant
            i <= parts@.len(),
            all == texts(parts@),
            r@ == joined(all.take(i as int), sep@),
        decreases parts@.len() - i,
    {
        proof {
            assert(all.take(i + 1).drop_last() =~= all.take(i as int));
        }
        if i == 0 {
            r = parts[i].clone();
        } else {
            r.append(sep);
            r.append(parts[i].as_str());
        }
        i += 1;
    }
    assert(all.take(i as int) =~= all);
    r
}

// ------------------------------------------------------------------------------------------
// Numbers

/// The decimal digit of `d`.
pub open spec fn digit(d: nat) -> char {
    (('0' as int) + d) as char
}

/// `n` in decimal, without leading zeros.
pub open spec fn decimal(n: nat) -> Seq<char>
    decreases n,
{
    if n < 10 {
        seq![digit(n)]
    } else {
        decimal(n / 10).push(digit(n % 10))
    }
}

/// The decimal digit of `d`.
fn digit_of(d: u8) -> (c: char)
    requires
        d < 10,
    ensures
        c == digit(d as nat),
{
    (48u8 + d) as char
}

/// Writes `n` in decimal.
pub fn decimal_text(n: u64) -> (r: String)
    ensures
        r@ == decimal(n as nat),
    decreases n,
{
    if n < 10 {
        let mut r = String::new();
        r.push(digit_of(n as u8));
        assert(r@ =~= seq![digit(n as nat)]);
        r
    } else {
        let mut r = decimal_text(n / 10);
        r.push(digit_of((n % 10) as u8));
        r
    }
}

/// Why a text is not a 16-bit number.
#[derive(Clone, Copy, Debug, PartialEq, Eq, Structural)]
pub enum NumberFault {
    /// There is nothing to read.
    Empty,
    /// A character is not a decimal digit.
    InvalidDigit,
    /// The number does not fit.
    TooLarge,
}

impl NumberFault {
    /// The fault in words.
    pub open spec fn spec_message(self) -> Seq<char> {
        match self {
            NumberFault::Empty => "cannot parse integer from empty string"@,
            NumberFault::InvalidDigit => "invalid digit found in string"@,
            NumberFault::TooLarge => "number too large to fit in target type"@,
        }
    }

    /// The fault in words.
    pub fn message(&self) -> (r: String)
        ensures
            r@ == self.spec_message(),
    {
        match self {
            NumberFault::Empty => "cannot parse integer from empty string".to_owned(),
            NumberFault::InvalidDigit => "invalid digit found in string".to_owned(),
            NumberFault::TooLarge => "number too large to fit in target type".to_owned(),
        }
    }
}

/// Whether `c` is a decimal digit.
pub open spec fn is_digit(c: char) -> bool {
    '0' as int <= c as int <= '9' as int
}

/// The number that the digits of `s` continue after `acc`.
pub open spec fn digits_value(s: Seq<char>, acc: nat) -> nat
    decreases s.len(),
{
    if s.len() == 0 {
        acc
    } else {
        digits_value(s.skip(1), (acc * 10 + (s[0] as int - '0' as int)) as nat)
    }
}

/// Reading digits from the front: the first character that is no digit, or that makes the number
/// too large, ends it.
pub open spec fn read_digits(s: Seq<char>, acc: nat) -> Result<nat, NumberFault>
    decreases s.len(),
{
    if s.len() == 0 {
        Ok(acc)
    } else if !is_digit(s[0]) {
        Err(NumberFault::InvalidDigit)
    } else {
        let next = (acc * 10 + (s[0] as int - '0' as int)) as nat;
        if next > u16::MAX {
            Err(NumberFault::TooLarge)
        } else {
            read_digits(s.skip(1), next)
        }
    }
}

/// The 16-bit number that `s` denotes: decimal digits, behind an optional plus sign.
pub open spec fn number_of(s: Seq<char>) -> Result<nat, NumberFault> {
    if s.len() == 0 {
        Err(NumberFault::Empty)
    } else if s.len() == 1 && (s[0] == '+' || s[0] == '-') {
        Err(NumberFault::InvalidDigit)
    } else if s[0] == '+' {
        read_digits(s.skip(1), 0)
    } else {
        read_digits(s, 0)
    }
}

/// Digits are read as the number they denote exactly when all are digits and the number fits.
pub proof fn digits_read_as_their_value(s: Seq<char>, acc: nat)
    requires
        acc <= u16::MAX,
    ensures
        read_digits(s, acc) is Ok <==> (forall|i: int| 0 <= i < s.len() ==> is_digit(s[i]))
            && digits_value(s, acc) <= u16::MAX,
        read_digits(s, acc) matches Ok(n) ==> n == digits_value(s, acc),
        (forall|i: int| 0 <= i < s.len() ==> is_digit(s[i])) ==> digits_value(s, acc) >= acc,
    decreases s.len(),
{
    if s.len() > 0 {
        let rest = s.skip(1);
        let next = (acc * 10 + (s[0] as int - '0' as int)) as nat;
        assert(forall|i: int| 0 <= i < rest.len() ==> rest[i] == s[i + 1]);
        if is_digit(s[0]) {
            digits_do_not_shrink(rest, next);
            if next <= u16::MAX {
                digits_read_as_their_value(rest, next);
            }
            if forall|i: int| 0 <= i < s.len() ==> is_digit(s[i]) {
                assert forall|i: int| 0 <= i < rest.len() implies is_digit(rest[i]) by {
                    assert(is_digit(s[i + 1]));
                }
            }
            if forall|i: int| 0 <= i < rest.len() ==> is_digit(rest[i]) {
                assert forall|i: int| 0 <= i < s.len() implies is_digit(s[i]) by {
                    if i > 0 {
                        assert(is_digit(rest[i - 1]));
                    }
                }
            }
        }
    }
}

proof fn digits_do_not_shrink(s: Seq<char>, acc: nat)
    ensures
        (forall|i: int| 0 <= i < s.len() ==> is_digit(s[i])) ==> digits_value(s, acc) >= acc,
    decreases s.len(),
{
    if s.len() > 0 && forall|i: int| 0 <= i < s.len() ==> is_digit(s[i]) {
        assert(is_digit(s[0]));
        let rest = s.skip(1);
        assert forall|i: int| 0 <= i < rest.len() implies is_digit(rest[i]) by {
            assert(is_digit(s[i + 1]));
        }
        digits_do_not_shrink(rest, (acc * 10 + (s[0] as int - '0' as int)) as nat);
    }
}

/// Reads a 16-bit number.
pub fn parse_number(s: &str) -> (r: Result<u16, NumberFault>)
    ensures
        match r {
            Ok(n) => number_of(s@) == Ok::<nat, NumberFault>(n as nat),
            Err(e) => number_of(s@) == Err::<nat, NumberFault>(e),
        },
{
    let v = chars_of(s);
    let n: usize = v.len();
    if n == 0 {
        return Err(NumberFault::Empty);
    }
    if n == 1 && (v[0] == '+' || v[0] == '-') {
        return Err(NumberFault::InvalidDigit);
    }
    let mut i: usize = if v[0] == '+' { 1 } else { 0 };
    let mut acc: u32 = 0;
    assert(v@.skip(0) =~= v@);
    while i < n
        invariant
            n == v@.len(),
            i <= n,
            acc <= u16::MAX,
            number_of(s@) == read_digits(v@.skip(i as int), acc as nat),
        decreases n - i,
    {
        let ghost rest = v@.skip(i as int);
        let c: u32 = code_point(v[i]);
        if c < 48 || c > 57 {
            return Err(NumberFault::InvalidDigit);
        }
        let next: u32 = acc * 10 + (c - 48);
        if next > 65535 {
            return Err(NumberFault::TooLarge);
        }
        proof {
            assert(rest.skip(1) =~= v@.skip(i + 1));
        }
        acc = next;
        i += 1;
    }
    Ok(acc as u16)
}

/// A 16-bit number written in decimal is read back as itself.
pub proof fn written_number_reads_back(n: nat)
    requires
        n <= u16::MAX,
    ensures
        number_of(decimal(n)) == Ok::<nat, NumberFault>(n),
{
    decimal_is_digits(n);
    let s = decimal(n);
    assert(is_digit(s[0]));
    digits_read_as_their_value(s, 0);
}

/// A decimal text is made of digits, at least one, that denote the number.
pub proof fn decimal_is_digits(n: nat)
    ensures
        decimal(n).len() > 0,
        forall|i: int| 0 <= i < decimal(n).len() ==> is_digit(#[trigger] decimal(n)[i]),
        digits_value(decimal(n), 0) == n,
    decreases n,
{
    let s = decimal(n);
    assert(is_digit(digit(n % 10)));
    if n < 10 {
        assert(s.skip(1) =~= Seq::empty());
        assert(is_digit(digit(n)));
        reveal_with_fuel(digits_value, 2);
    } else {
        decimal_is_digits(n / 10);
        value_of_push(decimal(n / 10), digit(n % 10), 0);
    }
}

proof fn value_of_push(s: Seq<char>, c: char, acc: nat)
    requires
        is_digit(c),
        forall|i: int| 0 <= i < s.len() ==> is_digit(s[i]),
    ensures
        digits_value(s.push(c), acc) == digits_value(s, acc) * 10 + (c as int - '0' as int),
    decreases s.len(),
{
    let t = s.push(c);
    if s.len() == 0 {
        assert(t.skip(1) =~= Seq::empty());
        reveal_with_fuel(digits_value, 2);
    } else {
        assert(t.skip(1) =~= s.skip(1).push(c));
        assert(is_digit(s[0]));
        assert forall|i: int| 0 <= i < s.skip(1).len() implies is_digit(s.skip(1)[i]) by {
            assert(is_digit(s[i + 1]));
        }
        value_of_push(s.skip(1), c, (acc * 10 + (s[0] as int - '0' as int)) as nat);
    }
}

/// Whether a list of strings holds `s`.
pub fn is_among(list: &Vec<String>, s: &str) -> (r: bool)
    ensures
        r == texts(list@).contains(s@),
{
    let mut i: usize = 0;
    while i < list.len()
        invariant
            i <= list@.len(),
            forall|j: int| 0 <= j < i ==> #[trigger] texts(list@)[j] != s@,
        decreases list@.len() - i,
    {
        if same(list[i].as_str(), s) {
            assert(texts(list@)[i as int] == s@);
            return true;
        }
        i += 1;
    }
    false
}

/// A list of strings, each copied.
pub fn copy_list(list: &Vec<String>) -> (r: Vec<String>)
    ensures
        texts(r@) == texts(list@),
{
    let mut r: Vec<String> = Vec::new();
    let mut i: usize = 0;
    while i < list.len()
        invariant
            i <= list@.len(),
            texts(r@) == texts(list@).take(i as int),
        decreases list@.len() - i,
    {
        let ghost before = r@;
        r.push(list[i].clone());
        assert(texts(r@) =~= texts(before).push(list@[i as int]@));
        assert(texts(list@).take(i + 1) =~= texts(list@).take(i as int).push(texts(list@)[i as int]));
        i += 1;
    }
    assert(texts(list@).take(i as int) =~= texts(list@));
    r
}

/// The characters below 128.
pub open spec fn is_ascii(s: Seq<char>) -> bool {
    forall|i: int| 0 <= i < s.len() ==> (#[trigger] s[i] as int) < 128
}

/// The upper case form of an ASCII character.
pub open spec fn ascii_upper(c: char) -> char {
    if 'a' <= c <= 'z' {
        (c as int - 32) as char
    } else {
        c
    }
}

/// The lower case form of an ASCII character.
pub open spec fn ascii_lower(c: char) -> char {
    if 'A' <= c <= 'Z' {
        (c as int + 32) as char
    } else {
        c
    }
}

/// What `str::to_uppercase` makes of a text.
pub uninterp spec fn uppercased(s: Seq<char>) -> Seq<char>;

/// What `str::to_lowercase` makes of a text.
pub uninterp spec fn lowercased(s: Seq<char>) -> Seq<char>;

/// `str::to_uppercase`: the result depends on the text alone, and on an ASCII text only the
/// letters a to z change. Nothing is said of what Unicode makes of other characters.
#[verifier::external_body]
pub(crate) fn uppercase(s: &str) -> (r: String)
    ensures
        r@ == uppercased(s@),
        is_ascii(s@) ==> r@ == s@.map_values(|c: char| ascii_upper(c)),
{
    s.to_uppercase()
}

/// `str::to_lowercase`: the result depends on the text alone, and on an ASCII text only the
/// letters A to Z change. Nothing is said of what Unicode makes of other characters.
#[verifier::external_body]
pub(crate) fn lowercase(s: &str) -> (r: String)
    ensures
        r@ == lowercased(s@),
        is_ascii(s@) ==> r@ == s@.map_values(|c: char| ascii_lower(c)),
{
    s.to_lowercase()
}

} // verus!
