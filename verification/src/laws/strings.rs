//! Laws on strings: what trimming, cutting, joining, replacing and numbers come to.

use crate::text;
use crate::text::Class;
use vstd::prelude::*;

verus! {

/// Every character of `s` belongs to the class.
pub open spec fn all_of(s: Seq<char>, k: Class) -> bool {
    forall|i: int| 0 <= i < s.len() ==> k.has(#[trigger] s[i])
}

/// The classes hold just these characters.
pub proof fn classes_hold_just_these(c: char)
    ensures
        Class::Operator.has(c) == seq!['^', '~', '>', '<', '='].contains(c),
        Class::Slash.has(c) == (c == '/'),
        Class::Dot.has(c) == (c == '.'),
        Class::Version.has(c) == seq!['0', '1', '2', '3', '4', '5', '6', '7', '8', '9', '.'].contains(
            c,
        ),
        (c as u32) < 0x80 ==> Class::White.has(c) == seq![
            ' ',
            '\t',
            '\n',
            '\u{b}',
            '\u{c}',
            '\r',
        ].contains(c),
        (c as u32) >= 0x80 ==> Class::White.has(c) == (seq![
            0x85u32,
            0xa0u32,
            0x1680u32,
            0x2028u32,
            0x2029u32,
            0x202fu32,
            0x205fu32,
            0x3000u32,
        ].contains(c as u32) || 0x2000 <= c as u32 <= 0x200a),
{
    let ops = seq!['^', '~', '>', '<', '='];
    assert(ops[0] == '^' && ops[1] == '~' && ops[2] == '>' && ops[3] == '<' && ops[4] == '=');
    let digits = seq!['0', '1', '2', '3', '4', '5', '6', '7', '8', '9', '.'];
    assert(digits[0] == '0' && digits[1] == '1' && digits[2] == '2' && digits[3] == '3' && digits[4]
        == '4' && digits[5] == '5' && digits[6] == '6' && digits[7] == '7' && digits[8] == '8'
        && digits[9] == '9' && digits[10] == '.');
    let whites = seq![' ', '\t', '\n', '\u{b}', '\u{c}', '\r'];
    assert(whites[0] == ' ' && whites[1] == '\t' && whites[2] == '\n' && whites[3] == '\u{b}'
        && whites[4] == '\u{c}' && whites[5] == '\r');
    let others = seq![
        0x85u32,
        0xa0u32,
        0x1680u32,
        0x2028u32,
        0x2029u32,
        0x202fu32,
        0x205fu32,
        0x3000u32,
    ];
    assert(others[0] == 0x85 && others[1] == 0xa0 && others[2] == 0x1680 && others[3] == 0x2028
        && others[4] == 0x2029 && others[5] == 0x202f && others[6] == 0x205f && others[7]
        == 0x3000);
}

/// The longest run of a class at the front is what is dropped there, and what is taken.
pub proof fn leading_runs_end_at_the_first_other(run: Seq<char>, rest: Seq<char>, k: Class)
    requires
        all_of(run, k),
        rest.len() > 0 ==> !k.has(rest[0]),
    ensures
        text::drop_leading(run + rest, k) == rest,
        text::leading(run + rest, k) == run,
    decreases run.len(),
{
    let s = run + rest;
    if run.len() > 0 {
        assert(k.has(run[0]));
        assert(s.skip(1) =~= run.skip(1) + rest);
        leading_runs_end_at_the_first_other(run.skip(1), rest, k);
        assert(seq![s[0]] + run.skip(1) =~= run);
    } else {
        assert(s =~= rest);
        assert(text::leading(s, k) =~= run);
    }
}

/// The longest run of a class at the end is what is dropped there.
pub proof fn trailing_runs_begin_behind_the_last_other(rest: Seq<char>, run: Seq<char>, k: Class)
    requires
        all_of(run, k),
        rest.len() > 0 ==> !k.has(rest.last()),
    ensures
        text::drop_trailing(rest + run, k) == rest,
    decreases run.len(),
{
    let s = rest + run;
    if run.len() > 0 {
        assert(k.has(run[run.len() - 1]));
        assert(s.drop_last() =~= rest + run.drop_last());
        trailing_runs_begin_behind_the_last_other(rest, run.drop_last(), k);
    } else {
        assert(s =~= rest);
    }
}

/// Trimming takes away the white space around a text, and nothing of the text.
pub proof fn trimming_gives_the_text_within(before: Seq<char>, middle: Seq<char>, after: Seq<char>)
    requires
        all_of(before, Class::White),
        all_of(after, Class::White),
        middle.len() > 0 ==> !Class::White.has(middle[0]) && !Class::White.has(middle.last()),
    ensures
        text::trimmed(before + middle + after) == middle,
{
    if middle.len() == 0 {
        let all = before + after;
        assert(before + middle + after =~= all + Seq::empty());
        leading_runs_end_at_the_first_other(all, Seq::empty(), Class::White);
        assert(middle =~= Seq::empty());
    } else {
        assert(before + middle + after =~= before + (middle + after));
        leading_runs_end_at_the_first_other(before, middle + after, Class::White);
        trailing_runs_begin_behind_the_last_other(middle, after, Class::White);
    }
}

/// A text begins with each of its beginnings, and taking one away leaves the rest. A text that
/// begins with another holds it in front.
pub proof fn prefixes_are_beginnings(p: Seq<char>, rest: Seq<char>, s: Seq<char>)
    ensures
        text::has_prefix(p + rest, p),
        text::without_prefix(p + rest, p) == rest,
        text::has_prefix(s, p) == (s.len() >= p.len() && forall|i: int|
            0 <= i < p.len() ==> s[i] == #[trigger] p[i]),
        !text::has_prefix(s, p) ==> text::without_prefix(s, p) == s,
{
    assert((p + rest).take(p.len() as int) =~= p);
    assert((p + rest).skip(p.len() as int) =~= rest);
    if s.len() >= p.len() && forall|i: int| 0 <= i < p.len() ==> s[i] == #[trigger] p[i] {
        assert(s.take(p.len() as int) =~= p);
    }
    if text::has_prefix(s, p) {
        assert forall|i: int| 0 <= i < p.len() implies s[i] == #[trigger] p[i] by {
            assert(s.take(p.len() as int)[i] == p[i]);
        }
    }
}

/// A text ends with each of its endings, and taking one away leaves the rest.
pub proof fn suffixes_are_endings(rest: Seq<char>, p: Seq<char>, s: Seq<char>)
    ensures
        text::has_suffix(rest + p, p),
        text::without_suffix(rest + p, p) == rest,
        text::has_suffix(s, p) == (s.len() >= p.len() && forall|i: int|
            0 <= i < p.len() ==> s[s.len() - p.len() + i] == #[trigger] p[i]),
        !text::has_suffix(s, p) ==> text::without_suffix(s, p) == s,
{
    let t = rest + p;
    assert(t.skip(t.len() - p.len()) =~= p);
    assert(t.take(t.len() - p.len()) =~= rest);
    let n = s.len() - p.len();
    if n >= 0 && forall|i: int| 0 <= i < p.len() ==> s[n + i] == #[trigger] p[i] {
        assert(s.skip(n) =~= p);
    }
    if text::has_suffix(s, p) {
        assert forall|i: int| 0 <= i < p.len() implies s[n + i] == #[trigger] p[i] by {
            assert(s.skip(n)[i] == p[i]);
        }
    }
}

/// A text stands in another exactly where the other is it with something before and behind.
pub proof fn occurrences_have_a_before_and_a_behind(
    before: Seq<char>,
    p: Seq<char>,
    behind: Seq<char>,
    s: Seq<char>,
)
    ensures
        text::occurs_in(before + p + behind, p),
        text::occurs_in(s, p) ==> exists|i: int|
            0 <= i <= s.len() - p.len() && s == #[trigger] s.take(i) + p + s.skip(i + p.len()),
{
    let t = before + p + behind;
    let n = before.len() as int;
    assert(t.subrange(n, n + p.len()) =~= p);
    assert(text::occurs_at(t, p, n));
    if text::occurs_in(s, p) {
        let i = choose|i: int| text::occurs_at(s, p, i);
        assert(s.subrange(i, i + p.len()) == p);
        assert(s =~= s.take(i) + p + s.skip(i + p.len()));
    }
}

/// The place of the first such character has none before it.
pub proof fn first_places_are_first(before: Seq<char>, c: char, behind: Seq<char>)
    requires
        !before.contains(c),
    ensures
        text::first_index(before + seq![c] + behind, c) == before.len(),
        text::first_index(before, c) == before.len(),
{
    let s = before + seq![c] + behind;
    let n = before.len() as int;
    assert forall|j: int| 0 <= j < n implies s[j] != c by {
        assert(before.contains(before[j]));
    }
    text::first_index_is_first(s, c, n);
    assert forall|j: int| 0 <= j < n implies before[j] != c by {
        assert(before.contains(before[j]));
    }
    text::first_index_is_first(before, c, n);
}

/// Replacing changes nothing where the text does not stand.
pub proof fn replacing_what_is_not_there(s: Seq<char>, p: Seq<char>, w: Seq<char>)
    requires
        p.len() > 0,
        forall|i: int| 0 <= i <= s.len() - p.len() ==> #[trigger] s.subrange(i, i + p.len()) != p,
    ensures
        text::replaced(s, p, w) == s,
    decreases s.len(),
{
    if s.len() >= p.len() {
        assert(s.subrange(0, 0int + p.len()) =~= s.take(p.len() as int));
        let rest = s.skip(1);
        assert forall|i: int| 0 <= i <= rest.len() - p.len() implies #[trigger] rest.subrange(
            i,
            i + p.len(),
        ) != p by {
            assert(rest.subrange(i, i + p.len()) =~= s.subrange(i + 1, i + 1 + p.len()));
        }
        replacing_what_is_not_there(rest, p, w);
        assert(seq![s[0]] + rest =~= s);
    }
}

/// Replacing puts the new text in place of the first occurrence, keeps what stands before it, and
/// goes on behind it.
pub proof fn replacing_the_first_and_the_rest(s: Seq<char>, p: Seq<char>, w: Seq<char>, i: int)
    requires
        p.len() > 0,
        0 <= i <= s.len() - p.len(),
        s.subrange(i, i + p.len()) == p,
        forall|j: int| 0 <= j < i ==> #[trigger] s.subrange(j, j + p.len()) != p,
    ensures
        text::replaced(s, p, w) == s.take(i) + w + text::replaced(s.skip(i + p.len()), p, w),
    decreases i,
{
    assert(s.subrange(0, 0int + p.len()) =~= s.take(p.len() as int));
    let tail = text::replaced(s.skip(i + p.len()), p, w);
    if i == 0 {
        assert(s.take(0) + w + tail =~= w + tail);
    } else {
        let rest = s.skip(1);
        assert(rest.subrange(i - 1, i - 1 + p.len()) =~= s.subrange(i, i + p.len()));
        assert forall|j: int| 0 <= j < i - 1 implies #[trigger] rest.subrange(j, j + p.len())
            != p by {
            assert(rest.subrange(j, j + p.len()) =~= s.subrange(j + 1, j + 1 + p.len()));
        }
        replacing_the_first_and_the_rest(rest, p, w, i - 1);
        assert(rest.skip(i - 1 + p.len()) =~= s.skip(i + p.len()));
        assert(seq![s[0]] + (rest.take(i - 1) + w + tail) =~= s.take(i) + w + tail);
    }
}

/// Joining one list behind another joins the two texts; one part alone is itself.
pub proof fn joining_lists_joins_texts(a: Seq<Seq<char>>, b: Seq<Seq<char>>, sep: Seq<char>, x: Seq<char>)
    requires
        a.len() > 0,
        b.len() > 0,
    ensures
        text::joined(a + b, sep) == text::joined(a, sep) + sep + text::joined(b, sep),
        text::joined(seq![x], sep) == x,
        text::joined(Seq::empty(), sep) == Seq::<char>::empty(),
    decreases b.len(),
{
    let front = b.drop_last();
    let ja = text::joined(a, sep);
    assert((a + b).drop_last() =~= a + front);
    if front.len() == 0 {
        assert(a + front =~= a);
    } else {
        joining_lists_joins_texts(a, front, sep, x);
        let jf = text::joined(front, sep);
        assert(ja + sep + jf + sep + b.last() =~= ja + sep + (jf + sep + b.last()));
    }
}

/// Every part stands in the joined text.
pub proof fn joined_texts_hold_their_parts(parts: Seq<Seq<char>>, sep: Seq<char>, i: int)
    requires
        0 <= i < parts.len(),
    ensures
        text::occurs_in(text::joined(parts, sep), parts[i]),
        text::joined(parts, sep).len() >= parts[i].len(),
    decreases parts.len(),
{
    let front = parts.drop_last();
    let whole = text::joined(parts, sep);
    if front.len() == 0 {
        occurrences_have_a_before_and_a_behind(Seq::empty(), parts[i], Seq::empty(), whole);
        assert(Seq::empty() + parts[i] + Seq::empty() =~= whole);
    } else if i < front.len() {
        joined_texts_hold_their_parts(front, sep, i);
        let part = text::joined(front, sep);
        occurrences_have_a_before_and_a_behind(Seq::empty(), parts[i], Seq::empty(), part);
        let k = choose|k: int|
            0 <= k <= part.len() - parts[i].len() && part == #[trigger] part.take(k) + parts[i]
                + part.skip(k + parts[i].len());
        let behind = part.skip(k + parts[i].len()) + sep + parts.last();
        assert(whole =~= part.take(k) + parts[i] + behind);
        occurrences_have_a_before_and_a_behind(part.take(k), parts[i], behind, whole);
    } else {
        let before = text::joined(front, sep) + sep;
        assert(whole =~= before + parts[i] + Seq::empty());
        occurrences_have_a_before_and_a_behind(before, parts[i], Seq::empty(), whole);
    }
}

/// Cutting a text at every `c` gives pieces without `c` that joined by it are the text again.
pub proof fn pieces_joined_are_the_text(s: Seq<char>, c: char)
    ensures
        text::pieces(s, c).len() > 0,
        text::joined(text::pieces(s, c), seq![c]) == s,
        forall|i: int|
            0 <= i < text::pieces(s, c).len() ==> !(#[trigger] text::pieces(s, c)[i]).contains(c),
    decreases s.len(),
{
    text::first_index_bounds(s, c);
    let i = text::first_index(s, c);
    let all = text::pieces(s, c);
    if i < s.len() {
        let rest = s.skip(i + 1);
        pieces_joined_are_the_text(rest, c);
        let tail = text::pieces(rest, c);
        joining_lists_joins_texts(seq![s.take(i)], tail, seq![c], s.take(i));
        assert(s.take(i) + seq![c] + rest =~= s);
        assert forall|k: int| 0 <= k < all.len() implies !(#[trigger] all[k]).contains(c) by {
            if k > 0 {
                assert(all[k] == tail[k - 1]);
            }
        }
    } else {
        joining_lists_joins_texts(seq![s], seq![s], seq![c], s);
        assert(all =~= seq![s]);
    }
}

/// A line ends at a line feed, without a carriage return in front of it, and the lines behind it
/// follow. What is left at the end is a line too, unless there is nothing.
pub proof fn lines_end_at_line_feeds(line: Seq<char>, rest: Seq<char>)
    requires
        !line.contains('\n'),
    ensures
        line.len() == 0 || line.last() != '\r' ==> text::lines_of(line + seq!['\n'] + rest) == seq![
            line,
        ] + text::lines_of(rest),
        text::lines_of(line + seq!['\r', '\n'] + rest) == seq![line] + text::lines_of(rest),
        line.len() > 0 ==> text::lines_of(line) == seq![line],
        text::lines_of(Seq::empty()) == Seq::<Seq<char>>::empty(),
{
    first_places_are_first(line, '\n', rest);
    let s = line + seq!['\n'] + rest;
    assert(s.take(line.len() as int) =~= line);
    assert(s.skip(line.len() + 1int) =~= rest);
    let with_return = line.push('\r');
    assert(!with_return.contains('\n')) by {
        if with_return.contains('\n') {
            let i = choose|i: int| 0 <= i < with_return.len() && with_return[i] == '\n';
            assert(line[i] == '\n');
        }
    }
    first_places_are_first(with_return, '\n', rest);
    let t = line + seq!['\r', '\n'] + rest;
    assert(t =~= with_return + seq!['\n'] + rest);
    assert(t.take(with_return.len() as int) =~= with_return);
    assert(t.skip(with_return.len() + 1int) =~= rest);
    assert(with_return.drop_last() =~= line);
}

/// Texts are ordered by the first character in which they differ, and a beginning comes before the
/// whole.
pub proof fn order_goes_by_the_first_difference(
    p: Seq<char>,
    x: char,
    y: char,
    a: Seq<char>,
    b: Seq<char>,
)
    ensures
        (x as u32) < (y as u32) ==> text::precedes(p + seq![x] + a, p + seq![y] + b),
        text::precedes(p, p + seq![x] + a),
        !text::precedes(p + a, p),
    decreases p.len(),
{
    if p.len() > 0 {
        let q = p.skip(1);
        order_goes_by_the_first_difference(q, x, y, a, b);
        assert((p + seq![x] + a).skip(1) =~= q + seq![x] + a);
        assert((p + seq![y] + b).skip(1) =~= q + seq![y] + b);
        assert((p + a).skip(1) =~= q + a);
    }
}

/// Digits are read from the left, each counting ten times what stands behind it; a number is
/// written without a zero in front.
pub proof fn digits_count_tenfold(s: Seq<char>, c: char, acc: nat, n: nat)
    requires
        text::is_digit(c),
        forall|i: int| 0 <= i < s.len() ==> text::is_digit(#[trigger] s[i]),
    ensures
        text::digits_value(s.push(c), acc) == 10 * text::digits_value(s, acc) + (c as int
            - '0' as int),
        text::digits_value(seq!['7'], 0) == 7,
        n > 0 ==> text::decimal(n)[0] != '0',
        n < 10 ==> text::decimal(n).len() == 1,
    decreases s.len() + n,
{
    reveal_with_fuel(text::digits_value, 3);
    let t = s.push(c);
    if s.len() > 0 {
        let next = (acc * 10 + (s[0] as int - '0' as int)) as nat;
        assert(t.skip(1) =~= s.skip(1).push(c));
        assert(text::is_digit(s[0]));
        digits_count_tenfold(s.skip(1), c, next, 0);
    } else {
        assert(t.skip(1) =~= Seq::empty());
        assert(text::digits_value(t, acc) == text::digits_value(
            Seq::empty(),
            (acc * 10 + (c as int - '0' as int)) as nat,
        ));
    }
    assert(seq!['7'].skip(1) =~= Seq::empty());
    if n >= 10 {
        digits_count_tenfold(Seq::empty(), c, 0, n / 10);
        text::decimal_is_digits(n / 10);
    }
}

/// `s` without a plus sign in front, where something follows it.
pub open spec fn unsigned(s: Seq<char>) -> Seq<char> {
    if s.len() > 1 && s[0] == '+' {
        s.skip(1)
    } else {
        s
    }
}

/// Every character is a digit from 0 to 9.
pub open spec fn all_digits(s: Seq<char>) -> bool {
    forall|i: int| 0 <= i < s.len() ==> '0' <= #[trigger] s[i] <= '9'
}

/// A text is a 16-bit number exactly where it is digits, at least one, behind a plus sign or none,
/// whose value fits; it is then that value.
pub proof fn numbers_are_digits_that_fit(s: Seq<char>)
    ensures
        text::number_of(s) is Ok == (s.len() > 0 && all_digits(unsigned(s)) && text::digits_value(
            unsigned(s),
            0,
        ) <= 65535),
        text::number_of(s) matches Ok(n) ==> n == text::digits_value(unsigned(s), 0),
{
    if s.len() > 0 {
        let digits = unsigned(s);
        text::digits_read_as_their_value(digits, 0);
        assert(all_digits(digits) == forall|i: int|
            0 <= i < digits.len() ==> text::is_digit(digits[i])) by {
            if all_digits(digits) {
                assert forall|i: int| 0 <= i < digits.len() implies text::is_digit(digits[i]) by {
                    assert('0' <= digits[i] <= '9');
                }
            }
            if forall|i: int| 0 <= i < digits.len() ==> text::is_digit(digits[i]) {
                assert forall|i: int| 0 <= i < digits.len() implies '0' <= #[trigger] digits[i]
                    <= '9' by {
                    assert(text::is_digit(digits[i]));
                }
            }
        }
        if s.len() == 1 && (s[0] == '+' || s[0] == '-') {
            assert(!text::is_digit(digits[0]));
            assert(!('0' <= digits[0] <= '9'));
        }
    }
}

} // verus!
