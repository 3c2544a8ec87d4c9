//! Laws on placeholders: a template is filled in piece by piece, and where each value comes from.

use crate::commands::services;
use crate::commands::startup;
use crate::ordered_map;
use crate::placeholder;
use crate::placeholder::Sources;
use crate::text;
use vstd::prelude::*;

verus! {

/// A piece of a template: a text, or the name of a placeholder.
pub enum Part {
    Plain(Seq<char>),
    Name(Seq<char>),
}

/// No brace is in the text.
pub open spec fn braceless(s: Seq<char>) -> bool {
    !s.contains('{') && !s.contains('}')
}

/// The parts, one after the other, a name in braces.
pub open spec fn written(parts: Seq<Part>) -> Seq<char>
    decreases parts.len(),
{
    if parts.len() == 0 {
        Seq::empty()
    } else {
        (match parts[0] {
            Part::Plain(t) => t,
            Part::Name(n) => seq!['{'] + n + seq!['}'],
        }) + written(parts.skip(1))
    }
}

/// The parts, one after the other, the value of a name in its place.
pub open spec fn filled(parts: Seq<Part>, values: spec_fn(Seq<char>) -> Seq<char>) -> Seq<char>
    decreases parts.len(),
{
    if parts.len() == 0 {
        Seq::empty()
    } else {
        (match parts[0] {
            Part::Plain(t) => t,
            Part::Name(n) => values(n),
        }) + filled(parts.skip(1), values)
    }
}

/// Braces stand around names only.
pub open spec fn well_formed(parts: Seq<Part>) -> bool {
    forall|i: int| 0 <= i < parts.len() ==> match #[trigger] parts[i] {
        Part::Plain(t) => braceless(t),
        Part::Name(n) => braceless(n),
    }
}

/// The names of the parts.
pub open spec fn names_of(parts: Seq<Part>) -> Seq<Seq<char>>
    decreases parts.len(),
{
    if parts.len() == 0 {
        Seq::empty()
    } else {
        match parts[0] {
            Part::Plain(_) => names_of(parts.skip(1)),
            Part::Name(n) => seq![n] + names_of(parts.skip(1)),
        }
    }
}

/// A part with the value of a name in its place.
spec fn put(part: Part, name: Seq<char>, value: Seq<char>) -> Part {
    match part {
        Part::Name(n) if n == name => Part::Plain(value),
        _ => part,
    }
}

spec fn put_all(parts: Seq<Part>, name: Seq<char>, value: Seq<char>) -> Seq<Part> {
    Seq::new(parts.len(), |i: int| put(parts[i], name, value))
}

proof fn mark_is_braces(name: Seq<char>)
    ensures
        placeholder::mark(name) == seq!['{'] + name + seq!['}'],
{
    reveal_strlit("{");
    reveal_strlit("}");
    assert("{"@ =~= seq!['{']);
    assert("}"@ =~= seq!['}']);
}

proof fn over_text(t: Seq<char>, rest: Seq<char>, p: Seq<char>, w: Seq<char>)
    requires
        !t.contains('{'),
        p.len() > 0,
        p[0] == '{',
    ensures
        text::replaced(t + rest, p, w) == t + text::replaced(rest, p, w),
    decreases t.len(),
{
    let s = t + rest;
    if t.len() == 0 {
        assert(s =~= rest);
        assert(t + text::replaced(rest, p, w) =~= text::replaced(rest, p, w));
    } else {
        let u = t.skip(1);
        assert(t.contains(t[0]));
        assert(!u.contains('{')) by {
            if u.contains('{') {
                let i = choose|i: int| 0 <= i < u.len() && u[i] == '{';
                assert(t[i + 1] == '{');
            }
        }
        if s.len() >= p.len() {
            assert(!text::has_prefix(s, p)) by {
                if text::has_prefix(s, p) {
                    assert(s.take(p.len() as int)[0] == p[0]);
                }
            }
            assert(s.skip(1) =~= u + rest);
            over_text(u, rest, p, w);
            assert(seq![s[0]] + (u + text::replaced(rest, p, w)) =~= t + text::replaced(rest, p, w));
        }
    }
}

proof fn over_other_name(m: Seq<char>, n: Seq<char>, rest: Seq<char>, w: Seq<char>)
    requires
        braceless(m),
        braceless(n),
        m != n,
    ensures
        text::replaced(seq!['{'] + m + seq!['}'] + rest, seq!['{'] + n + seq!['}'], w) == seq!['{']
            + m + seq!['}'] + text::replaced(rest, seq!['{'] + n + seq!['}'], w),
{
    let p = seq!['{'] + n + seq!['}'];
    let head = seq!['{'] + m + seq!['}'];
    let s = head + rest;
    let t = m + seq!['}'];
    assert(!t.contains('{')) by {
        if t.contains('{') {
            let i = choose|i: int| 0 <= i < t.len() && t[i] == '{';
            assert(i < m.len());
            assert(m[i] == '{');
        }
    }
    assert(s.skip(1) =~= t + rest);
    over_text(t, rest, p, w);
    if s.len() >= p.len() {
        assert(!text::has_prefix(s, p)) by {
            if text::has_prefix(s, p) {
                let f = s.take(p.len() as int);
                if m.len() < n.len() {
                    assert(f[m.len() + 1int] == '}');
                    assert(p[m.len() + 1int] == n[m.len() as int]);
                    assert(n.contains('}'));
                } else if m.len() > n.len() {
                    assert(p[n.len() + 1int] == '}');
                    assert(f[n.len() + 1int] == m[n.len() as int]);
                    assert(m.contains('}'));
                } else {
                    assert forall|i: int| 0 <= i < m.len() implies m[i] == n[i] by {
                        assert(f[i + 1] == p[i + 1]);
                    }
                    assert(m =~= n);
                }
            }
        }
        assert(seq![s[0]] + (t + text::replaced(rest, p, w)) =~= head + text::replaced(rest, p, w));
    } else {
        assert(s =~= head + rest);
    }
}

proof fn one_name(parts: Seq<Part>, n: Seq<char>, v: Seq<char>)
    requires
        well_formed(parts),
        braceless(n),
    ensures
        text::replaced(written(parts), placeholder::mark(n), v) == written(put_all(parts, n, v)),
    decreases parts.len(),
{
    mark_is_braces(n);
    let p = seq!['{'] + n + seq!['}'];
    let after = put_all(parts, n, v);
    if parts.len() > 0 {
        let rest = parts.skip(1);
        assert forall|i: int| 0 <= i < rest.len() implies match #[trigger] rest[i] {
            Part::Plain(t) => braceless(t),
            Part::Name(n) => braceless(n),
        } by {
            assert(rest[i] == parts[i + 1]);
        }
        one_name(rest, n, v);
        assert(after.skip(1) =~= put_all(rest, n, v));
        assert(after[0] == put(parts[0], n, v));
        let tail = written(rest);
        match parts[0] {
            Part::Plain(t) => {
                assert(braceless(t));
                over_text(t, tail, p, v);
            },
            Part::Name(m) => {
                assert(braceless(m));
                if m == n {
                    let s = p + tail;
                    assert(s.take(p.len() as int) =~= p);
                    assert(s.skip(p.len() as int) =~= tail);
                } else {
                    over_other_name(m, n, tail, v);
                }
            },
        }
    }
}

/// A part with the values of all names of `pairs` in their places.
spec fn settled(part: Part, pairs: Seq<(Seq<char>, Seq<char>)>) -> Part
    decreases pairs.len(),
{
    if pairs.len() == 0 {
        part
    } else {
        put(settled(part, pairs.drop_last()), pairs.last().0, pairs.last().1)
    }
}

spec fn settled_all(parts: Seq<Part>, pairs: Seq<(Seq<char>, Seq<char>)>) -> Seq<Part> {
    Seq::new(parts.len(), |i: int| settled(parts[i], pairs))
}

spec fn clean(pairs: Seq<(Seq<char>, Seq<char>)>) -> bool {
    forall|i: int|
        0 <= i < pairs.len() ==> braceless((#[trigger] pairs[i]).0) && braceless(pairs[i].1)
}

proof fn settled_stays_clean(part: Part, pairs: Seq<(Seq<char>, Seq<char>)>)
    requires
        match part {
            Part::Plain(t) => braceless(t),
            Part::Name(n) => braceless(n),
        },
        clean(pairs),
    ensures
        match settled(part, pairs) {
            Part::Plain(t) => braceless(t),
            Part::Name(n) => braceless(n),
        },
    decreases pairs.len(),
{
    if pairs.len() > 0 {
        let front = pairs.drop_last();
        assert forall|i: int| 0 <= i < front.len() implies braceless((#[trigger] front[i]).0)
            && braceless(front[i].1) by {
            assert(front[i] == pairs[i]);
        }
        settled_stays_clean(part, front);
        assert(pairs.last() == pairs[pairs.len() - 1]);
    }
}

proof fn all_names(parts: Seq<Part>, pairs: Seq<(Seq<char>, Seq<char>)>)
    requires
        well_formed(parts),
        clean(pairs),
    ensures
        placeholder::substituted(written(parts), pairs) == written(settled_all(parts, pairs)),
    decreases pairs.len(),
{
    if pairs.len() == 0 {
        assert(settled_all(parts, pairs) =~= parts);
    } else {
        let front = pairs.drop_last();
        assert forall|i: int| 0 <= i < front.len() implies braceless((#[trigger] front[i]).0)
            && braceless(front[i].1) by {
            assert(front[i] == pairs[i]);
        }
        all_names(parts, front);
        let mid = settled_all(parts, front);
        assert forall|i: int| 0 <= i < mid.len() implies match #[trigger] mid[i] {
            Part::Plain(t) => braceless(t),
            Part::Name(n) => braceless(n),
        } by {
            settled_stays_clean(parts[i], front);
        }
        assert(pairs.last() == pairs[pairs.len() - 1]);
        one_name(mid, pairs.last().0, pairs.last().1);
        assert(put_all(mid, pairs.last().0, pairs.last().1) =~= settled_all(parts, pairs));
    }
}

proof fn settled_is_the_value(
    part: Part,
    pairs: Seq<(Seq<char>, Seq<char>)>,
    values: spec_fn(Seq<char>) -> Seq<char>,
)
    requires
        forall|i: int| 0 <= i < pairs.len() ==> (#[trigger] pairs[i]).1 == values(pairs[i].0),
    ensures
        part matches Part::Plain(t) ==> settled(part, pairs) == part,
        part matches Part::Name(n) ==> (settled(part, pairs) == Part::Plain(values(n)) || (
        settled(part, pairs) == part && forall|i: int|
            0 <= i < pairs.len() ==> (#[trigger] pairs[i]).0 != n)),
    decreases pairs.len(),
{
    if pairs.len() > 0 {
        let front = pairs.drop_last();
        assert forall|i: int| 0 <= i < front.len() implies (#[trigger] front[i]).1 == values(
            front[i].0,
        ) by {
            assert(front[i] == pairs[i]);
        }
        settled_is_the_value(part, front, values);
        assert(pairs.last() == pairs[pairs.len() - 1]);
        if let Part::Name(n) = part {
            if settled(part, front) == part && pairs.last().0 != n {
                assert forall|i: int| 0 <= i < pairs.len() implies (#[trigger] pairs[i]).0 != n by {
                    if i < front.len() {
                        assert(front[i] == pairs[i]);
                    }
                }
            }
        }
    }
}

proof fn plain_parts_are_filled(
    parts: Seq<Part>,
    after: Seq<Part>,
    values: spec_fn(Seq<char>) -> Seq<char>,
)
    requires
        parts.len() == after.len(),
        forall|i: int| 0 <= i < parts.len() ==> #[trigger] after[i] == match parts[i] {
            Part::Plain(t) => Part::Plain(t),
            Part::Name(n) => Part::Plain(values(n)),
        },
    ensures
        written(after) == filled(parts, values),
    decreases parts.len(),
{
    if parts.len() > 0 {
        let p = parts.skip(1);
        let a = after.skip(1);
        assert forall|i: int| 0 <= i < p.len() implies #[trigger] a[i] == match p[i] {
            Part::Plain(t) => Part::Plain(t),
            Part::Name(n) => Part::Plain(values(n)),
        } by {
            assert(a[i] == after[i + 1] && p[i] == parts[i + 1]);
        }
        plain_parts_are_filled(p, a, values);
        assert(after[0] == match parts[0] {
            Part::Plain(t) => Part::Plain(t),
            Part::Name(n) => Part::Plain(values(n)),
        });
    }
}

proof fn names_past_text(t: Seq<char>, rest: Seq<char>)
    requires
        !t.contains('{'),
    ensures
        placeholder::names_in(t + rest) == placeholder::names_in(rest),
{
    let s = t + rest;
    text::first_index_bounds(rest, '{');
    let i = text::first_index(rest, '{');
    assert forall|j: int| 0 <= j < t.len() + i implies s[j] != '{' by {
        if j < t.len() {
            assert(t.contains(t[j]));
        } else {
            assert(s[j] == rest[j - t.len()]);
        }
    }
    text::first_index_is_first(s, '{', t.len() + i);
    if i < rest.len() {
        assert(s.skip(t.len() + i + 1) =~= rest.skip(i + 1));
    }
}

proof fn names_are_those_of_the_parts(parts: Seq<Part>)
    requires
        well_formed(parts),
    ensures
        placeholder::names_in(written(parts)) == names_of(parts),
    decreases parts.len(),
{
    if parts.len() == 0 {
        placeholder::no_name(written(parts));
    } else {
        let rest = parts.skip(1);
        assert forall|i: int| 0 <= i < rest.len() implies match #[trigger] rest[i] {
            Part::Plain(t) => braceless(t),
            Part::Name(n) => braceless(n),
        } by {
            assert(rest[i] == parts[i + 1]);
        }
        names_are_those_of_the_parts(rest);
        let tail = written(rest);
        match parts[0] {
            Part::Plain(t) => {
                assert(braceless(t));
                names_past_text(t, tail);
            },
            Part::Name(n) => {
                assert(braceless(n));
                mark_is_braces(n);
                placeholder::first_name(Seq::empty(), n, tail);
                assert(Seq::empty() + placeholder::mark(n) + tail =~= seq!['{'] + n + seq!['}']
                    + tail);
            },
        }
    }
}

proof fn names_of_holds(parts: Seq<Part>, name: Seq<char>)
    ensures
        names_of(parts).contains(name) <==> exists|i: int|
            0 <= i < parts.len() && #[trigger] parts[i] == Part::Name(name),
    decreases parts.len(),
{
    if parts.len() > 0 {
        let rest = parts.skip(1);
        let tail = names_of(rest);
        let all = names_of(parts);
        names_of_holds(rest, name);
        if all.contains(name) {
            if tail.contains(name) {
                let i = choose|i: int| 0 <= i < rest.len() && #[trigger] rest[i] == Part::Name(name);
                assert(parts[i + 1] == Part::Name(name));
            } else {
                let k = choose|k: int| 0 <= k < all.len() && all[k] == name;
                if let Part::Name(n) = parts[0] {
                    if k > 0 {
                        assert(tail[k - 1] == name);
                    }
                    assert(parts[0] == Part::Name(name));
                } else {
                    assert(tail[k] == name);
                }
            }
        }
        if exists|i: int| 0 <= i < parts.len() && #[trigger] parts[i] == Part::Name(name) {
            let i = choose|i: int| 0 <= i < parts.len() && #[trigger] parts[i] == Part::Name(name);
            if i > 0 {
                assert(rest[i - 1] == Part::Name(name));
                let k = choose|k: int| 0 <= k < tail.len() && tail[k] == name;
                if parts[0] is Name {
                    assert(all[k + 1] == name);
                } else {
                    assert(all[k] == name);
                }
            } else {
                assert(all[0] == name);
            }
        }
    }
}

/// The value of a name: reserved values come first, then the environment, then what the user
/// answered; a name that the user was asked for and gave no answer to is empty.
pub proof fn values_come_in_order(
    name: Seq<char>,
    reserved: Map<Seq<char>, String>,
    sources: Sources,
)
    ensures
        reserved.contains_key(name) ==> sources.value(name, reserved) == Some(reserved[name]@),
        !reserved.contains_key(name) && sources.env@.contains_key(name) ==> sources.value(
            name,
            reserved,
        ) == Some(sources.env@[name]@),
        !reserved.contains_key(name) && !sources.env@.contains_key(name) ==> {
            &&& sources.answers is None ==> sources.value(name, reserved) is None
            &&& sources.answers is Some && sources.answers->0@.contains_key(name) ==> sources.value(
                name,
                reserved,
            ) == Some(sources.answers->0@[name]@)
            &&& sources.answers is Some && !sources.answers->0@.contains_key(name)
                ==> sources.value(name, reserved) == Some(Seq::<char>::empty())
        },
{
}

/// Where every name has a value, a template is its texts as they are and, in the place of each
/// name, wherever and however often it stands, its value.
pub proof fn templates_are_filled_in(
    parts: Seq<Part>,
    reserved: Map<Seq<char>, String>,
    sources: Sources,
)
    requires
        well_formed(parts),
        forall|i: int|
            0 <= i < parts.len() ==> (#[trigger] parts[i] matches Part::Name(n) ==> (sources.value(
                n,
                reserved,
            ) matches Some(v) && braceless(v))),
    ensures
        placeholder::resolution(written(parts), reserved, sources) == Ok::<_, Seq<Seq<char>>>(
            filled(parts, |n: Seq<char>| sources.value(n, reserved)->0),
        ),
{
    let template = written(parts);
    let values = |n: Seq<char>| sources.value(n, reserved)->0;
    let all = placeholder::names(template);
    names_are_those_of_the_parts(parts);
    assert forall|n: Seq<char>| #[trigger] all.contains(n) implies sources.value(n, reserved)
        is Some && braceless(sources.value(n, reserved)->0) && braceless(n) by {
        placeholder::distinct_keeps_members(names_of(parts), n);
        names_of_holds(parts, n);
        let i = choose|i: int| 0 <= i < parts.len() && #[trigger] parts[i] == Part::Name(n);
        assert(braceless(n));
    }
    let unknown = |n: Seq<char>| placeholder::known_value(n, reserved, sources.env@) is None;
    let open = placeholder::open_names(all, reserved, sources.env@);
    assert(open == all.filter(unknown));
    if open.len() > 0 && sources.answers is None {
        all.lemma_filter_pred(unknown, 0);
        all.lemma_filter_contains_rev(unknown, open[0]);
        assert(sources.value(open[0], reserved) is Some);
    }
    let m = placeholder::values(all, reserved, sources);
    ordered_map::finite_maps_have_a_key_order(all, m);
    let pairs = ordered_map::in_key_order(m);
    assert forall|i: int| 0 <= i < pairs.len() implies braceless((#[trigger] pairs[i]).0)
        && braceless(pairs[i].1) && pairs[i].1 == values(pairs[i].0) by {
        ordered_map::map_of_at(pairs, i);
        assert(m.contains_key(pairs[i].0));
    }
    all_names(parts, pairs);
    let after = settled_all(parts, pairs);
    assert forall|i: int| 0 <= i < parts.len() implies #[trigger] after[i] == match parts[i] {
        Part::Plain(t) => Part::Plain(t),
        Part::Name(n) => Part::Plain(values(n)),
    } by {
        settled_is_the_value(parts[i], pairs, values);
        if let Part::Name(n) = parts[i] {
            names_of_holds(parts, n);
            placeholder::distinct_keeps_members(names_of(parts), n);
            assert(all.contains(n));
            assert(m.contains_key(n));
            assert(ordered_map::map_of(pairs).contains_key(n));
            let k = choose|k: int| ordered_map::key_is_at(pairs, n, k);
            assert(pairs[k].0 == n);
        }
    }
    plain_parts_are_filled(parts, after, values);
}

/// A project's command is filled in with its port for `{port}`, and with the environment's value
/// for every other name.
pub proof fn run_commands_are_filled_in(
    parts: Seq<Part>,
    port: u16,
    sources: Sources,
    r: Result<Seq<char>, Seq<char>>,
)
    requires
        well_formed(parts),
        forall|i: int|
            0 <= i < parts.len() ==> (#[trigger] parts[i] matches Part::Name(n) ==> n == "port"@ || (
            sources.env@.contains_key(n) && braceless(sources.env@[n]@))),
        startup::is_filled_in(written(parts), port, sources, r),
    ensures
        r == Ok::<_, Seq<char>>(
            filled(
                parts,
                |n: Seq<char>|
                    if n == "port"@ {
                        text::decimal(port as nat)
                    } else {
                        sources.env@[n]@
                    },
            ),
        ),
{
    let reserved = choose|reserved: Map<Seq<char>, String>|
        {
            &&& #[trigger] startup::is_reserved_for_run(reserved, port)
            &&& match (placeholder::resolution(written(parts), reserved, sources), r) {
                (Ok(filled), Ok(text)) => text == filled,
                (Err(missing), Err(why)) => why == "missing required value(s): "@ + text::joined(
                    missing,
                    ", "@,
                )
                    + "\n        pass --prompt to be asked interactively, or set them in your environment (see `stack load-env`)"@,
                _ => false,
            }
        };
    let wanted = |n: Seq<char>|
        if n == "port"@ {
            text::decimal(port as nat)
        } else {
            sources.env@[n]@
        };
    let values = |n: Seq<char>| sources.value(n, reserved)->0;
    digits_are_braceless(port as nat);
    assert forall|i: int| 0 <= i < parts.len() implies (#[trigger] parts[i] matches Part::Name(n) ==> (
    sources.value(n, reserved) matches Some(v) && braceless(v) && v == wanted(n))) by {
        if let Part::Name(n) = parts[i] {
            values_come_in_order(n, reserved, sources);
        }
    }
    templates_are_filled_in(parts, reserved, sources);
    same_values_same_text(parts, values, wanted);
}

/// A service's command is filled in with its path, its data directory and its port, and with the
/// environment's value for every other name. Backslashes in the paths become slashes.
pub proof fn launch_commands_are_filled_in(
    parts: Seq<Part>,
    path: Seq<char>,
    data_dir: Seq<char>,
    port: u16,
    sources: Sources,
    reserved: Map<Seq<char>, String>,
)
    requires
        well_formed(parts),
        braceless(path),
        braceless(data_dir),
        forall|i: int|
            0 <= i < parts.len() ==> (#[trigger] parts[i] matches Part::Name(n) ==> n == "path"@ || n
                == "data_dir"@ || n == "port"@ || (sources.env@.contains_key(n) && braceless(
                sources.env@[n]@,
            ))),
        services::is_reserved_for_launch(reserved, path, data_dir, port),
    ensures
        placeholder::resolution(written(parts), reserved, sources) == Ok::<_, Seq<Seq<char>>>(
            filled(
                parts,
                |n: Seq<char>|
                    if n == "path"@ {
                        slashed(path)
                    } else if n == "data_dir"@ {
                        slashed(data_dir)
                    } else if n == "port"@ {
                        text::decimal(port as nat)
                    } else {
                        sources.env@[n]@
                    },
            ),
        ),
{
    reveal_strlit("path");
    reveal_strlit("data_dir");
    reveal_strlit("port");
    assert("path"@[1] != "port"@[1]);
    assert("path"@.len() == 4 && "port"@.len() == 4 && "data_dir"@.len() == 8);
    let wanted = |n: Seq<char>|
        if n == "path"@ {
            slashed(path)
        } else if n == "data_dir"@ {
            slashed(data_dir)
        } else if n == "port"@ {
            text::decimal(port as nat)
        } else {
            sources.env@[n]@
        };
    let values = |n: Seq<char>| sources.value(n, reserved)->0;
    digits_are_braceless(port as nat);
    slashed_is_braceless(path);
    slashed_is_braceless(data_dir);
    assert(services::with_slashes(path) =~= slashed(path));
    assert(services::with_slashes(data_dir) =~= slashed(data_dir));
    assert forall|i: int| 0 <= i < parts.len() implies (#[trigger] parts[i] matches Part::Name(n) ==> (
    sources.value(n, reserved) matches Some(v) && braceless(v) && v == wanted(n))) by {
        if let Part::Name(n) = parts[i] {
            values_come_in_order(n, reserved, sources);
        }
    }
    templates_are_filled_in(parts, reserved, sources);
    same_values_same_text(parts, values, wanted);
}

/// A text with a slash for every backslash.
pub open spec fn slashed(s: Seq<char>) -> Seq<char> {
    Seq::new(
        s.len(),
        |i: int|
            if s[i] == '\\' {
                '/'
            } else {
                s[i]
            },
    )
}

proof fn slashed_is_braceless(s: Seq<char>)
    requires
        braceless(s),
    ensures
        braceless(slashed(s)),
{
    let t = slashed(s);
    if t.contains('{') {
        let i = choose|i: int| 0 <= i < t.len() && t[i] == '{';
        assert(s[i] == '{');
    }
    if t.contains('}') {
        let i = choose|i: int| 0 <= i < t.len() && t[i] == '}';
        assert(s[i] == '}');
    }
}

proof fn digits_are_braceless(n: nat)
    ensures
        braceless(text::decimal(n)),
{
    text::decimal_is_digits(n);
    let t = text::decimal(n);
    if t.contains('{') {
        let i = choose|i: int| 0 <= i < t.len() && t[i] == '{';
        assert(text::is_digit(t[i]));
    }
    if t.contains('}') {
        let i = choose|i: int| 0 <= i < t.len() && t[i] == '}';
        assert(text::is_digit(t[i]));
    }
}

proof fn same_values_same_text(
    parts: Seq<Part>,
    f: spec_fn(Seq<char>) -> Seq<char>,
    g: spec_fn(Seq<char>) -> Seq<char>,
)
    requires
        forall|i: int|
            0 <= i < parts.len() ==> (#[trigger] parts[i] matches Part::Name(n) ==> f(n) == g(n)),
    ensures
        filled(parts, f) == filled(parts, g),
    decreases parts.len(),
{
    if parts.len() > 0 {
        let rest = parts.skip(1);
        assert forall|i: int| 0 <= i < rest.len() implies (
        #[trigger] rest[i] matches Part::Name(n) ==> f(n) == g(n)) by {
            assert(rest[i] == parts[i + 1]);
        }
        same_values_same_text(rest, f, g);
        assert(parts[0] == parts[0]);
    }
}

/// A name looks like that of a secret exactly where one of the telling words stands in it.
pub proof fn secrets_have_telling_words(upper: Seq<char>)
    ensures
        placeholder::secret_words_in(upper) <==> exists|w: Seq<char>|
            seq!["PASSWORD"@, "SECRET"@, "TOKEN"@, "KEY"@].contains(w) && #[trigger] text::occurs_in(
                upper,
                w,
            ),
{
    let words = seq!["PASSWORD"@, "SECRET"@, "TOKEN"@, "KEY"@];
    assert(words[0] == "PASSWORD"@ && words[1] == "SECRET"@ && words[2] == "TOKEN"@ && words[3]
        == "KEY"@);
    if exists|w: Seq<char>| words.contains(w) && #[trigger] text::occurs_in(upper, w) {
        let w = choose|w: Seq<char>| words.contains(w) && #[trigger] text::occurs_in(upper, w);
        let i = choose|i: int| 0 <= i < words.len() && words[i] == w;
        assert(i == 0 || i == 1 || i == 2 || i == 3);
    }
}

} // verus!
