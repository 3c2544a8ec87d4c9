//! `{NAME}` placeholders in command templates.
//!
//! A reserved value always wins, so that a built-in such as `{port}` is never read from the
//! environment by accident; then the environment; then, where prompting is allowed, what the
//! user answered. Names that stay open are reported all at once.

use crate::ordered_map;
use crate::ordered_map::OrderedMap;
use crate::text;
use vstd::prelude::*;

verus! {

/// Where the values of names that are not reserved come from.
#[derive(Debug)]
pub struct Sources {
    /// The variables of the environment.
    pub env: OrderedMap<String>,
    /// What the user answered, by name, where prompting is allowed. A name without an answer
    /// counts as answered with nothing.
    pub answers: Option<OrderedMap<String>>,
}

/// The value of `key` in a map of strings.
pub open spec fn text_at(m: Map<Seq<char>, String>, key: Seq<char>) -> Option<Seq<char>> {
    if m.contains_key(key) {
        Some(m[key]@)
    } else {
        None
    }
}

/// The value that is known of a name without asking anybody.
pub open spec fn known_value(
    name: Seq<char>,
    reserved: Map<Seq<char>, String>,
    env: Map<Seq<char>, String>,
) -> Option<Seq<char>> {
    match text_at(reserved, name) {
        Some(v) => Some(v),
        None => text_at(env, name),
    }
}

impl Sources {
    /// The value of a name: reserved first, then the environment, then an answer.
    pub open spec fn value(self, name: Seq<char>, reserved: Map<Seq<char>, String>) -> Option<
        Seq<char>,
    > {
        match known_value(name, reserved, self.env@) {
            Some(v) => Some(v),
            None => match self.answers {
                Some(a) => match text_at(a@, name) {
                    Some(v) => Some(v),
                    None => Some(Seq::empty()),
                },
                None => None,
            },
        }
    }
}

/// The names between braces, in the order in which they stand. An opening brace that is never
/// closed ends the search.
pub open spec fn names_in(s: Seq<char>) -> Seq<Seq<char>>
    decreases s.len(),
{
    let i = text::first_index(s, '{');
    if 0 <= i < s.len() {
        let rest = s.skip(i + 1);
        let j = text::first_index(rest, '}');
        if 0 <= j < rest.len() {
            seq![rest.take(j)] + names_in(rest.skip(j + 1))
        } else {
            Seq::empty()
        }
    } else {
        Seq::empty()
    }
}

/// A list without the items that occurred before.
pub open spec fn distinct(s: Seq<Seq<char>>) -> Seq<Seq<char>>
    decreases s.len(),
{
    if s.len() == 0 {
        s
    } else {
        let d = distinct(s.drop_last());
        if d.contains(s.last()) {
            d
        } else {
            d.push(s.last())
        }
    }
}

/// The names that a template mentions, each once.
pub open spec fn names(template: Seq<char>) -> Seq<Seq<char>> {
    distinct(names_in(template))
}

/// A name between braces is the first of the names, where nothing opens before it.
pub proof fn first_name(before: Seq<char>, name: Seq<char>, after: Seq<char>)
    requires
        !before.contains('{'),
        !name.contains('}'),
    ensures
        names_in(before + mark(name) + after) == seq![name] + names_in(after),
{
    reveal_strlit("{");
    reveal_strlit("}");
    let s = before + mark(name) + after;
    let i = before.len() as int;
    assert forall|j: int| 0 <= j < i implies s[j] != '{' by {
        assert(before.contains(before[j]));
    }
    assert(s[i] == '{');
    text::first_index_is_first(s, '{', i);
    let rest = s.skip(i + 1);
    let n = name.len() as int;
    assert(rest =~= name + "}"@ + after);
    assert forall|j: int| 0 <= j < n implies rest[j] != '}' by {
        assert(name.contains(name[j]));
    }
    assert(rest[n] == '}');
    text::first_index_is_first(rest, '}', n);
    assert(rest.take(n) =~= name);
    assert(rest.skip(n + 1) =~= after);
}

/// Where nothing opens, there are no names.
pub proof fn no_name(s: Seq<char>)
    requires
        !s.contains('{'),
    ensures
        names_in(s) == Seq::<Seq<char>>::empty(),
{
    assert forall|j: int| 0 <= j < s.len() implies s[j] != '{' by {
        assert(s.contains(s[j]));
    }
    text::first_index_is_first(s, '{', s.len() as int);
}

/// Dropping repetitions changes nothing about which items occur.
pub proof fn distinct_keeps_members(s: Seq<Seq<char>>, x: Seq<char>)
    ensures
        distinct(s).contains(x) == s.contains(x),
        distinct(s).no_duplicates(),
    decreases s.len(),
{
    if s.len() > 0 {
        let front = s.drop_last();
        let d = distinct(front);
        distinct_keeps_members(front, x);
        distinct_keeps_members(front, s.last());
        if s.contains(x) {
            let i = choose|i: int| 0 <= i < s.len() && s[i] == x;
            if i < front.len() {
                assert(front[i] == x);
            }
        }
        if front.contains(x) {
            let i = choose|i: int| 0 <= i < front.len() && front[i] == x;
            assert(s[i] == x);
        }
        assert(s[s.len() - 1] == s.last());
        if !d.contains(s.last()) {
            let whole = d.push(s.last());
            assert(whole[d.len() as int] == s.last());
            if d.contains(x) {
                let i = choose|i: int| 0 <= i < d.len() && d[i] == x;
                assert(whole[i] == x);
            }
            if whole.contains(x) && x != s.last() {
                let i = choose|i: int| 0 <= i < whole.len() && whole[i] == x;
                assert(d[i] == x);
            }
            assert forall|i: int, j: int|
                0 <= i < whole.len() && 0 <= j < whole.len() && i != j implies whole[i]
                != whole[j] by {
                if i == d.len() {
                    assert(d.contains(d[j]));
                } else if j == d.len() {
                    assert(d.contains(d[i]));
                }
            }
        }
    }
}

/// The names that a template mentions, each once, in the order in which they first stand there.
pub fn extract_names(template: &str) -> (r: Vec<String>)
    ensures
        text::texts(r@) == names(template@),
{
    let v = text::chars_of(template);
    let n: usize = v.len();
    let mut found: Vec<String> = Vec::new();
    let mut pos: usize = 0;
    let ghost mut seen: Seq<Seq<char>> = Seq::empty();
    assert(v@.skip(0) =~= v@);
    assert(seen + names_in(v@) =~= names_in(v@));
    assert(text::texts(found@) =~= Seq::empty());
    loop
        invariant
            n == v@.len(),
            pos <= n,
            v@ == template@,
            seen + names_in(v@.skip(pos as int)) == names_in(v@),
            text::texts(found@) == distinct(seen),
        ensures
            text::texts(found@) == names(template@),
        decreases n - pos,
    {
        let ghost here = v@.skip(pos as int);
        let open = text::find_char(&v, pos, '{');
        if open >= n {
            proof {
                assert(seen + names_in(here) =~= seen);
            }
            break ;
        }
        let ghost rest = v@.skip(open + 1);
        proof {
            text::first_index_bounds(here, '{');
            assert(here.skip(open - pos + 1) =~= rest);
        }
        let close = text::find_char(&v, open + 1, '}');
        if close >= n {
            proof {
                text::first_index_bounds(rest, '}');
                assert(seen + names_in(here) =~= seen);
            }
            break ;
        }
        let name = text::text_of(&v, open + 1, close);
        proof {
            let j = close - (open + 1);
            assert(rest.take(j) =~= v@.subrange(open + 1, close as int));
            assert(rest.skip(j + 1) =~= v@.skip(close + 1));
            assert(seen + names_in(here) =~= seen.push(name@) + names_in(v@.skip(close + 1)));
            assert(seen.push(name@).drop_last() =~= seen);
            seen = seen.push(name@);
        }
        if !text::is_among(&found, name.as_str()) {
            let ghost before = found@;
            let ghost added = name@;
            found.push(name);
            assert(text::texts(found@) =~= text::texts(before).push(added));
        }
        pos = close + 1;
    }
    found
}

/// The names of a list whose value is not known without asking.
pub open spec fn open_names(
    names: Seq<Seq<char>>,
    reserved: Map<Seq<char>, String>,
    env: Map<Seq<char>, String>,
) -> Seq<Seq<char>> {
    names.filter(|n: Seq<char>| known_value(n, reserved, env) is None)
}

/// The names of a template that neither a reserved value nor the environment decides, in the
/// order in which they first stand there: those to ask the user for.
pub fn unresolved(template: &str, reserved: &OrderedMap<String>, env: &OrderedMap<String>) -> (r:
    Vec<String>)
    ensures
        text::texts(r@) == open_names(names(template@), reserved@, env@),
{
    let found = extract_names(template);
    let mut missing: Vec<String> = Vec::new();
    let mut i: usize = 0;
    let ghost all = text::texts(found@);
    let ghost is_open = |n: Seq<char>| known_value(n, reserved@, env@) is None;
    assert(all.take(0).filter(is_open) =~= Seq::empty()) by {
        reveal_with_fuel(Seq::filter, 2);
    }
    assert(text::texts(missing@) =~= Seq::empty());
    while i < found.len()
        invariant
            i <= found@.len(),
            all == text::texts(found@),
            is_open == (|n: Seq<char>| known_value(n, reserved@, env@) is None),
            text::texts(missing@) == all.take(i as int).filter(is_open),
        decreases found@.len() - i,
    {
        let name = &found[i];
        proof {
            assert(all.take(i + 1).drop_last() =~= all.take(i as int));
            assert(all.take(i + 1).last() == name@);
            reveal_with_fuel(Seq::filter, 2);
        }
        if !reserved.contains_key(name.as_str()) && !env.contains_key(name.as_str()) {
            let ghost before = missing@;
            missing.push(name.clone());
            assert(text::texts(missing@) =~= text::texts(before).push(name@));
        }
        i += 1;
    }
    assert(all.take(i as int) =~= all);
    missing
}

/// What is written for a name in a template: the name between braces.
pub open spec fn mark(name: Seq<char>) -> Seq<char> {
    "{"@ + name + "}"@
}

/// A template with each pair's placeholder replaced by its value, one pair after the other.
pub open spec fn substituted(template: Seq<char>, pairs: Seq<(Seq<char>, Seq<char>)>) -> Seq<char>
    decreases pairs.len(),
{
    if pairs.len() == 0 {
        template
    } else {
        text::replaced(
            substituted(template, pairs.drop_last()),
            mark(pairs.last().0),
            pairs.last().1,
        )
    }
}

/// The value of every name of a list that has one.
pub open spec fn values(names: Seq<Seq<char>>, reserved: Map<Seq<char>, String>, sources: Sources) -> Map<
    Seq<char>,
    Seq<char>,
> {
    Map::new(
        |n: Seq<char>| names.contains(n) && sources.value(n, reserved) is Some,
        |n: Seq<char>| sources.value(n, reserved)->0,
    )
}

/// What a template comes to: its text with all values filled in, in the names' key order, or the
/// names that have no value.
pub open spec fn resolution(
    template: Seq<char>,
    reserved: Map<Seq<char>, String>,
    sources: Sources,
) -> Result<Seq<char>, Seq<Seq<char>>> {
    let open = open_names(names(template), reserved, sources.env@);
    if open.len() > 0 && sources.answers is None {
        Err(open)
    } else {
        Ok(
            substituted(
                template,
                ordered_map::in_key_order(values(names(template), reserved, sources)),
            ),
        )
    }
}

/// The characters of the values of a list of pairs.
pub open spec fn pair_texts(s: Seq<(Seq<char>, String)>) -> Seq<(Seq<char>, Seq<char>)> {
    s.map_values(|p: (Seq<char>, String)| (p.0, p.1@))
}

/// A map of strings and the map of their characters list their pairs in the same order.
proof fn pair_texts_in_order(s: Seq<(Seq<char>, String)>, m: Map<Seq<char>, Seq<char>>)
    requires
        ordered_map::ascending(s),
        forall|k: Seq<char>| #[trigger] m.contains_key(k) == ordered_map::map_of(s).contains_key(k),
        forall|k: Seq<char>| #[trigger]
            m.contains_key(k) ==> m[k] == ordered_map::map_of(s)[k]@,
    ensures
        ordered_map::in_key_order(m) == pair_texts(s),
{
    let t = pair_texts(s);
    assert(ordered_map::ascending(t));
    assert forall|k: Seq<char>| ordered_map::agree_at(ordered_map::map_of(t), m, k) by {
        if ordered_map::map_of(t).contains_key(k) {
            let i = choose|i: int| ordered_map::key_is_at(t, k, i);
            assert(ordered_map::key_is_at(s, k, i));
            ordered_map::map_of_at(s, i);
            ordered_map::map_of_at(t, i);
        }
        if ordered_map::map_of(s).contains_key(k) {
            let i = choose|i: int| ordered_map::key_is_at(s, k, i);
            assert(ordered_map::key_is_at(t, k, i));
        }
        assert(m.contains_key(k) == ordered_map::map_of(s).contains_key(k));
    }
    ordered_map::agreeing_maps_equal(ordered_map::map_of(t), m);
    ordered_map::ascending_list_is_key_order(t);
}

/// Fills in the placeholders of a template, or reports every name that has no value.
pub fn resolve(template: &str, reserved: &OrderedMap<String>, sources: &Sources) -> (r: Result<
    String,
    Vec<String>,
>)
    ensures
        match r {
            Ok(t) => resolution(template@, reserved@, *sources) == Ok::<_, Seq<Seq<char>>>(t@),
            Err(missing) => resolution(template@, reserved@, *sources) == Err::<Seq<char>, _>(
                text::texts(missing@),
            ),
        },
{
    let missing = unresolved(template, reserved, &sources.env);
    if missing.len() > 0 && sources.answers.is_none() {
        return Err(missing);
    }
    let found = extract_names(template);
    let ghost all = names(template@);
    let mut resolved: OrderedMap<String> = OrderedMap::new();
    let mut i: usize = 0;
    proof {
        assert forall|n: Seq<char>| all.contains(n) implies sources.value(n, reserved@) is Some by {
            if known_value(n, reserved@, sources.env@) is None && sources.answers is None {
                let p = |n: Seq<char>| known_value(n, reserved@, sources.env@) is None;
                let k = choose|k: int| 0 <= k < all.len() && all[k] == n;
                all.lemma_filter_contains(p, k);
            }
        }
    }
    while i < found.len()
        invariant
            i <= found@.len(),
            all == text::texts(found@),
            forall|n: Seq<char>| #[trigger] all.contains(n) ==> sources.value(n, reserved@) is Some,
            forall|n: Seq<char>| #[trigger]
                resolved@.contains_key(n) == all.take(i as int).contains(n),
            forall|n: Seq<char>| #[trigger]
                resolved@.contains_key(n) ==> Some(resolved@[n]@) == sources.value(n, reserved@),
        decreases found@.len() - i,
    {
        let name = &found[i];
        let ghost before = resolved@;
        let value = match reserved.get(name.as_str()) {
            Some(v) => v.clone(),
            None => match sources.env.get(name.as_str()) {
                Some(v) => v.clone(),
                None => match &sources.answers {
                    Some(a) => match a.get(name.as_str()) {
                        Some(v) => v.clone(),
                        None => String::new(),
                    },
                    None => String::new(),
                },
            },
        };
        proof {
            assert(all[i as int] == name@);
            assert(all.contains(name@));
            assert(all.take(i + 1) =~= all.take(i as int).push(name@));
            assert forall|n: Seq<char>| #[trigger]
                all.take(i + 1).contains(n) == (all.take(i as int).contains(n) || n == name@) by {
                let t = all.take(i as int);
                if t.contains(n) {
                    let k = choose|k: int| 0 <= k < t.len() && t[k] == n;
                    assert(t.push(name@)[k] == n);
                }
                if t.push(name@).contains(n) && n != name@ {
                    let k = choose|k: int| 0 <= k < t.len() + 1 && t.push(name@)[k] == n;
                    assert(t[k] == n);
                }
                assert(t.push(name@)[t.len() as int] == name@);
            }
        }
        resolved.insert(name.clone(), value);
        i += 1;
    }
    let ghost m = values(all, reserved@, *sources);
    proof {
        assert(all.take(i as int) =~= all);
        use_type_invariant(&resolved);
        resolved.pairs_ascend();
        assert forall|n: Seq<char>| #[trigger]
            m.contains_key(n) == ordered_map::map_of(resolved.pairs()).contains_key(n) by {
            assert(resolved@.contains_key(n) == all.contains(n));
        }
        assert forall|n: Seq<char>| #[trigger] m.contains_key(n) implies m[n]
            == ordered_map::map_of(resolved.pairs())[n]@ by {
            assert(resolved@.contains_key(n));
        }
        pair_texts_in_order(resolved.pairs(), m);
    }
    let mut output = template.to_owned();
    let count: usize = resolved.len();
    let mut k: usize = 0;
    let ghost pairs = pair_texts(resolved.pairs());
    assert(pairs.take(0) =~= Seq::empty());
    while k < count
        invariant
            k <= count,
            count == resolved.pairs().len(),
            pairs == pair_texts(resolved.pairs()),
            output@ == substituted(template@, pairs.take(k as int)),
        decreases count - k,
    {
        let mut placeholder = "{".to_owned();
        placeholder.append(resolved.key_at(k).as_str());
        placeholder.append("}");
        proof {
            reveal_strlit("{");
            assert(pairs.take(k + 1).drop_last() =~= pairs.take(k as int));
            assert(pairs.take(k + 1).last() == pairs[k as int]);
        }
        output = text::replace(output.as_str(), placeholder.as_str(), resolved.value_at(k).as_str());
        k += 1;
    }
    assert(pairs.take(k as int) =~= pairs);
    Ok(output)
}

/// A reserved value is used whatever the environment and the user say of the same name.
pub proof fn reserved_wins(
    name: Seq<char>,
    reserved: Map<Seq<char>, String>,
    sources: Sources,
)
    requires
        reserved.contains_key(name),
    ensures
        sources.value(name, reserved) == Some(reserved[name]@),
{
}

/// Without prompting, a template is refused exactly when some name of it has no value, and then
/// every such name is reported, once.
pub proof fn every_missing_name_is_reported(
    template: Seq<char>,
    reserved: Map<Seq<char>, String>,
    sources: Sources,
)
    requires
        sources.answers is None,
    ensures
        (resolution(template, reserved, sources) is Ok) == (forall|n: Seq<char>|
            names_in(template).contains(n) ==> #[trigger] sources.value(n, reserved) is Some),
        resolution(template, reserved, sources) matches Err(missing) ==> {
            &&& missing.no_duplicates()
            &&& forall|n: Seq<char>| #[trigger]
                missing.contains(n) == (names_in(template).contains(n) && sources.value(
                    n,
                    reserved,
                ) is None)
        },
{
    let all = names(template);
    let p = |n: Seq<char>| known_value(n, reserved, sources.env@) is None;
    let open = all.filter(p);
    assert forall|n: Seq<char>| #[trigger]
        open.contains(n) == (names_in(template).contains(n) && sources.value(n, reserved)
            is None) by {
        distinct_keeps_members(names_in(template), n);
        if all.contains(n) && p(n) {
            let k = choose|k: int| 0 <= k < all.len() && all[k] == n;
            all.lemma_filter_contains(p, k);
        }
        if open.contains(n) {
            all.lemma_filter_contains_rev(p, n);
            let i = choose|i: int| 0 <= i < open.len() && open[i] == n;
            all.lemma_filter_pred(p, i);
        }
    }
    distinct_keeps_members(names_in(template), Seq::empty());
    filter_keeps_distinct(all, p);
    if open.len() > 0 {
        assert(open.contains(open[0]));
        assert(sources.value(open[0], reserved) is None);
    } else {
        assert forall|n: Seq<char>| names_in(template).contains(n) implies #[trigger] sources.value(
            n,
            reserved,
        ) is Some by {
            assert(!open.contains(n));
        }
    }
}

/// What a filter keeps of a list without repetitions has none either.
proof fn filter_keeps_distinct(s: Seq<Seq<char>>, p: spec_fn(Seq<char>) -> bool)
    requires
        s.no_duplicates(),
    ensures
        s.filter(p).no_duplicates(),
    decreases s.len(),
{
    reveal_with_fuel(Seq::filter, 2);
    if s.len() > 0 {
        let front = s.drop_last();
        assert(front.no_duplicates());
        filter_keeps_distinct(front, p);
        let f = front.filter(p);
        assert forall|i: int| 0 <= i < f.len() implies f[i] != s.last() by {
            assert(f.contains(f[i]));
            front.lemma_filter_contains_rev(p, f[i]);
            let k = choose|k: int| 0 <= k < front.len() && front[k] == f[i];
            assert(s[k] == f[i]);
        }
    }
}

/// Whether a name, in upper case, looks as if it stood for a secret.
pub open spec fn secret_words_in(upper: Seq<char>) -> bool {
    text::occurs_in(upper, "PASSWORD"@) || text::occurs_in(upper, "SECRET"@) || text::occurs_in(
        upper,
        "TOKEN"@,
    ) || text::occurs_in(upper, "KEY"@)
}

/// Whether a name that is given in upper case looks as if it stood for a secret.
pub fn upper_looks_secret(upper: &str) -> (r: bool)
    ensures
        r == secret_words_in(upper@),
{
    text::contains(upper, "PASSWORD") || text::contains(upper, "SECRET") || text::contains(
        upper,
        "TOKEN",
    ) || text::contains(upper, "KEY")
}

/// Whether what is typed for a name must not be echoed: the name, in whatever case, holds a word
/// that secrets go by.
pub fn looks_secret(name: &str) -> (r: bool)
    ensures
        r == secret_words_in(text::uppercased(name@)),
{
    upper_looks_secret(text::uppercase(name).as_str())
}

} // verus!
