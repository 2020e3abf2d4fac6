//! Decoding of canonical query strings, and the round trip law: a
//! well-formed parameter map, encoded and decoded, comes back as the
//! same map, so re-encoding it reproduces the same string.

use crate::params::ParamMap;
use crate::params::lemma_sorted_canonical;
use crate::params::map_of;
use crate::params::sorted_entries;
use crate::utils::query_pairs_of;
use vstd::prelude::*;

verus! {

/// No occurrence of a character anywhere in a sequence.
pub open spec fn free_of(s: Seq<char>, c: char) -> bool {
    forall|i: int| 0 <= i < s.len() ==> s[i] != c
}

/// Splitting a pair at its first `=`: what precedes it and what follows
/// it (an absent `=` leaves the whole text as the key, with an empty
/// value).
pub open spec fn pair_of(s: Seq<char>) -> (Seq<char>, Seq<char>)
    decreases s.len(),
{
    if s.len() == 0 {
        (Seq::empty(), Seq::empty())
    } else if s[0] == '=' {
        (Seq::empty(), s.drop_first())
    } else {
        let rest = pair_of(s.drop_first());
        (seq![s[0]] + rest.0, rest.1)
    }
}

/// Splitting at every `&`: the list of separated items, one more than
/// there are separators.
pub open spec fn split_items(s: Seq<char>) -> Seq<Seq<char>>
    decreases s.len(),
{
    if s.len() == 0 {
        seq![Seq::empty()]
    } else if s[0] == '&' {
        seq![Seq::empty()] + split_items(s.drop_first())
    } else {
        let rest = split_items(s.drop_first());
        seq![seq![s[0]] + rest[0]] + rest.drop_first()
    }
}

/// What a query pair list decodes to: each item split at its first `=`.
pub open spec fn parse_pairs(s: Seq<char>) -> Seq<(Seq<char>, Seq<char>)> {
    split_items(s).map_values(|t: Seq<char>| pair_of(t))
}

/// A key free of `=` splits off exactly at the `=` that joined it.
proof fn lemma_pair_of_join(k: Seq<char>, v: Seq<char>)
    requires
        free_of(k, '='),
    ensures
        pair_of(k + seq!['='] + v) == (k, v),
    decreases k.len(),
{
    let s = k + seq!['='] + v;
    if k.len() == 0 {
        assert(s[0] == '=');
        assert(s.drop_first() =~= v);
        assert(pair_of(s) == (Seq::<char>::empty(), s.drop_first()));
        assert(Seq::<char>::empty() =~= k);
    } else {
        assert(s[0] == k[0]);
        assert(s[0] != '=');
        assert(s.drop_first() =~= k.drop_first() + seq!['='] + v);
        assert(free_of(k.drop_first(), '=')) by {
            assert forall|i: int| 0 <= i < k.drop_first().len() implies k.drop_first()[i]
                != '=' by {
                assert(k.drop_first()[i] == k[i + 1]);
            }
        }
        lemma_pair_of_join(k.drop_first(), v);
        assert(seq![s[0]] + (k.drop_first()) =~= k);
        assert(pair_of(s) == (k, v));
    }
}

/// An item free of `&` is its own whole split.
proof fn lemma_split_items_single(a: Seq<char>)
    requires
        free_of(a, '&'),
    ensures
        split_items(a) == seq![a],
    decreases a.len(),
{
    if a.len() == 0 {
        assert(a =~= Seq::<char>::empty());
        assert(split_items(a) =~~= seq![a]);
    } else {
        assert(a[0] != '&');
        assert(free_of(a.drop_first(), '&')) by {
            assert forall|i: int| 0 <= i < a.drop_first().len() implies a.drop_first()[i]
                != '&' by {
                assert(a.drop_first()[i] == a[i + 1]);
            }
        }
        lemma_split_items_single(a.drop_first());
        assert(split_items(a.drop_first())[0] == a.drop_first());
        assert(seq![a[0]] + a.drop_first() =~= a);
        assert(split_items(a.drop_first()).drop_first() =~~= Seq::<Seq<char>>::empty());
        assert(split_items(a) =~~= seq![a]);
    }
}

/// A leading item free of `&` splits off whole at the `&` that joined
/// it.
proof fn lemma_split_items_join(a: Seq<char>, b: Seq<char>)
    requires
        free_of(a, '&'),
    ensures
        split_items(a + seq!['&'] + b) == seq![a] + split_items(b),
    decreases a.len(),
{
    let s = a + seq!['&'] + b;
    if a.len() == 0 {
        assert(s[0] == '&');
        assert(s.drop_first() =~= b);
        assert(a =~= Seq::<char>::empty());
        assert(split_items(s) =~~= seq![a] + split_items(b));
    } else {
        assert(s[0] == a[0]);
        assert(s[0] != '&');
        assert(s.drop_first() =~= a.drop_first() + seq!['&'] + b);
        assert(free_of(a.drop_first(), '&')) by {
            assert forall|i: int| 0 <= i < a.drop_first().len() implies a.drop_first()[i]
                != '&' by {
                assert(a.drop_first()[i] == a[i + 1]);
            }
        }
        lemma_split_items_join(a.drop_first(), b);
        let rest = split_items(s.drop_first());
        assert(rest =~~= seq![a.drop_first()] + split_items(b));
        assert(rest[0] == a.drop_first());
        assert(seq![s[0]] + a.drop_first() =~= a);
        assert(rest.drop_first() =~~= split_items(b));
        assert(split_items(s) =~~= seq![a] + split_items(b));
    }
}

/// A pair free of `=` is all key and no value.
proof fn lemma_pair_of_plain(a: Seq<char>)
    requires
        free_of(a, '='),
    ensures
        pair_of(a) == (a, Seq::<char>::empty()),
    decreases a.len(),
{
    if a.len() == 0 {
        assert(a =~= Seq::<char>::empty());
    } else {
        assert(a[0] != '=');
        assert(free_of(a.drop_first(), '=')) by {
            assert forall|i: int| 0 <= i < a.drop_first().len() implies a.drop_first()[i]
                != '=' by {
                assert(a.drop_first()[i] == a[i + 1]);
            }
        }
        lemma_pair_of_plain(a.drop_first());
        assert(seq![a[0]] + a.drop_first() =~= a);
    }
}

/// Split one item at its first `=`, as the decoder does.
fn split_pair(seg: &str) -> (r: (String, String))
    ensures
        (r.0@, r.1@) == pair_of(seg@),
{
    let n = seg.unicode_len();
    let mut j: usize = 0;
    while j < n && seg.get_char(j) != '='
        invariant
            0 <= j <= n,
            n == seg@.len(),
            forall|x: int| 0 <= x < j ==> seg@[x] != '=',
        decreases n - j,
    {
        j = j + 1;
    }
    if j == n {
        proof {
            lemma_pair_of_plain(seg@);
        }
        (String::from_str(seg), String::new())
    } else {
        let key = seg.substring_char(0, j);
        let value = seg.substring_char(j + 1, n);
        proof {
            assert(seg@[j as int] == '=');
            assert(free_of(key@, '='));
            lemma_pair_of_join(key@, value@);
            assert(key@ + seq!['='] + value@ =~= seg@);
        }
        (String::from_str(key), String::from_str(value))
    }
}

/// Decode a joined query pair string, the inverse of the canonical
/// encoder on safe maps: split at every `&`, split each item at its
/// first `=`, and put the pairs into a map front to back, a later pair
/// overriding an earlier one with the same key.
pub fn parse_query(s: &str) -> (r: ParamMap)
    ensures
        r.wf(),
        r.as_map() == inserted_map(parse_pairs(s@)),
{
    let n = s.unicode_len();
    let mut p = ParamMap::new();
    let ghost mut done: Seq<(Seq<char>, Seq<char>)> = Seq::empty();
    let mut pos: usize = 0;
    proof {
        assert(s@.skip(0) =~= s@);
        assert(parse_pairs(s@) =~= done + parse_pairs(s@.skip(0)));
    }
    loop
        invariant
            0 <= pos <= n,
            n == s@.len(),
            p.wf(),
            p.as_map() == inserted_map(done),
            parse_pairs(s@) == done + parse_pairs(s@.skip(pos as int)),
        decreases n - pos,
    {
        let mut end: usize = pos;
        while end < n && s.get_char(end) != '&'
            invariant
                pos <= end <= n,
                n == s@.len(),
                forall|x: int| pos <= x < end ==> s@[x] != '&',
            decreases n - end,
        {
            end = end + 1;
        }
        let seg = s.substring_char(pos, end);
        let (key, value) = split_pair(seg);
        let ghost pair = (key@, value@);
        proof {
            assert(free_of(seg@, '&'));
            assert(pair == pair_of(seg@));
        }
        p.insert(key.as_str(), value.as_str());
        proof {
            assert(done.push(pair).drop_last() =~= done);
            assert(inserted_map(done.push(pair)) == inserted_map(done).insert(pair.0, pair.1));
        }
        if end == n {
            proof {
                assert(s@.skip(pos as int) =~= seg@);
                lemma_split_items_single(seg@);
                assert(parse_pairs(seg@) =~= seq![pair]);
                assert(parse_pairs(s@) =~= done.push(pair));
                done = done.push(pair);
            }
            return p;
        }
        proof {
            assert(s@.skip(pos as int) =~= seg@ + seq!['&'] + s@.skip(end + 1));
            lemma_split_items_join(seg@, s@.skip(end + 1));
            assert(parse_pairs(s@.skip(pos as int)) =~= seq![pair] + parse_pairs(
                s@.skip(end + 1),
            ));
            done = done.push(pair);
            assert(parse_pairs(s@) =~= done + parse_pairs(s@.skip(end + 1)));
        }
        pos = end + 1;
    }
}

/// Entries whose keys are free of `&` and `=` and whose values are free
/// of `&`, so that the joined query is unambiguous.
pub open spec fn entries_query_safe(entries: Seq<(Seq<char>, Seq<char>)>) -> bool {
    forall|i: int|
        0 <= i < entries.len() ==> free_of(#[trigger] entries[i].0, '&') && free_of(
            entries[i].0,
            '=',
        ) && free_of(entries[i].1, '&')
}

/// Decoding inverts encoding: the joined query pairs of a nonempty safe
/// entry list parse back to exactly that list.
pub proof fn lemma_parse_pairs_of_query(entries: Seq<(Seq<char>, Seq<char>)>)
    requires
        entries.len() > 0,
        entries_query_safe(entries),
    ensures
        parse_pairs(query_pairs_of(entries)) == entries,
    decreases entries.len(),
{
    let k = entries[0].0;
    let v = entries[0].1;
    let item = k + seq!['='] + v;
    assert(free_of(item, '&')) by {
        assert forall|i: int| 0 <= i < item.len() implies item[i] != '&' by {
            if i < k.len() {
                assert(item[i] == k[i]);
            } else if i == k.len() {
                assert(item[i] == '=');
            } else {
                assert(item[i] == v[i - k.len() - 1]);
            }
        }
    }
    lemma_pair_of_join(k, v);
    if entries.len() == 1 {
        assert(query_pairs_of(entries) == item);
        lemma_split_items_single(item);
        assert(parse_pairs(item) =~= seq![(k, v)]);
        assert(seq![(k, v)] =~= entries);
    } else {
        let rest = entries.drop_first();
        assert(query_pairs_of(entries) =~= item + seq!['&'] + query_pairs_of(rest));
        lemma_split_items_join(item, query_pairs_of(rest));
        assert(entries_query_safe(rest)) by {
            assert forall|i: int| 0 <= i < rest.len() implies free_of(
                #[trigger] rest[i].0,
                '&',
            ) && free_of(rest[i].0, '=') && free_of(rest[i].1, '&') by {
                assert(rest[i] == entries[i + 1]);
            }
        }
        lemma_parse_pairs_of_query(rest);
        assert(split_items(query_pairs_of(entries)) == seq![item] + split_items(
            query_pairs_of(rest),
        ));
        assert forall|x: int| 0 <= x < entries.len() implies parse_pairs(query_pairs_of(entries))[x]
            == entries[x] by {
            if x > 0 {
                assert((seq![item] + split_items(query_pairs_of(rest)))[x] == split_items(
                    query_pairs_of(rest),
                )[x - 1]);
                assert(parse_pairs(query_pairs_of(rest))[x - 1] == rest[x - 1]);
                assert(rest[x - 1] == entries[x]);
            }
        }
        assert(parse_pairs(query_pairs_of(entries)) =~= entries);
    }
}

/// The mapping reached by putting a pair list into a map front to back,
/// a later pair overriding an earlier one with the same key, as
/// repeated insertion does.
pub open spec fn inserted_map(ps: Seq<(Seq<char>, Seq<char>)>) -> Map<Seq<char>, Seq<char>>
    decreases ps.len(),
{
    if ps.len() == 0 {
        Map::empty()
    } else {
        inserted_map(ps.drop_last()).insert(ps.last().0, ps.last().1)
    }
}

/// On a sorted entry list the two insertion orders agree: keys are
/// unique, so first-wins and last-wins give the same mapping.
pub proof fn lemma_inserted_map_of_sorted(s: Seq<(Seq<char>, Seq<char>)>)
    requires
        sorted_entries(s),
    ensures
        inserted_map(s) == map_of(s),
    decreases s.len(),
{
    if s.len() > 0 {
        let init = s.drop_last();
        let e = s.last();
        assert(sorted_entries(init)) by {
            assert forall|i: int, j: int| 0 <= i < j < init.len() implies crate::params::lex_lt(
                init[i].0,
                init[j].0,
            ) by {
                assert(init[i] == s[i]);
                assert(init[j] == s[j]);
            }
        }
        lemma_inserted_map_of_sorted(init);
        crate::params::lemma_map_of_contains(init);
        crate::params::lemma_map_of_contains(s);
        assert forall|k: Seq<char>| #[trigger]
            inserted_map(s).dom().contains(k) implies map_of(s).dom().contains(k) && inserted_map(
            s,
        )[k] == map_of(s)[k] by {
            if k == e.0 {
                assert(inserted_map(s)[k] == e.1);
                lemma_last_key_value(s);
            } else {
                assert(map_of(init).dom().contains(k));
                let j = choose|j: int| 0 <= j < init.len() && (#[trigger] init[j]).0 == k;
                assert(s[j] == init[j]);
                assert(map_of(s).dom().contains(s[j].0));
                crate::params::lemma_map_of_value(init, j);
                crate::params::lemma_map_of_value(s, j);
            }
        }
        assert forall|k: Seq<char>| #[trigger]
            map_of(s).dom().contains(k) implies inserted_map(s).dom().contains(k) by {
            if k != e.0 {
                let j = choose|j: int| 0 <= j < s.len() && (#[trigger] s[j]).0 == k;
                assert(j < init.len());
                assert(init[j] == s[j]);
                assert(map_of(init).dom().contains(init[j].0));
            }
        }
        assert(inserted_map(s) =~= map_of(s));
    }
}

/// The last entry of a sorted list owns its key: the mapping assigns it
/// that entry's value.
proof fn lemma_last_key_value(s: Seq<(Seq<char>, Seq<char>)>)
    requires
        sorted_entries(s),
        s.len() > 0,
    ensures
        map_of(s).dom().contains(s.last().0),
        map_of(s)[s.last().0] == s.last().1,
{
    crate::params::lemma_map_of_value(s, s.len() - 1);
}

/// A parameter map's entries are query safe when every key is free of
/// `&` and `=` and every value is free of `&`.
pub open spec fn query_safe(p: ParamMap) -> bool {
    entries_query_safe(p.entries_view())
}

/// Law: re-encoding a decoded encoding changes nothing. If a nonempty,
/// well-formed, query-safe map is encoded, the encoding parsed back to
/// pairs, and the pairs put into any well-formed map, that map has the
/// same entries, and so the same encoding, as the map first encoded.
pub proof fn lemma_query_round_trip(p: ParamMap, q: ParamMap)
    requires
        p.wf(),
        q.wf(),
        p.spec_len() > 0,
        query_safe(p),
        q.as_map() == inserted_map(parse_pairs(query_pairs_of(p.entries_view()))),
    ensures
        q.entries_view() == p.entries_view(),
        query_pairs_of(q.entries_view()) == query_pairs_of(p.entries_view()),
{
    lemma_parse_pairs_of_query(p.entries_view());
    lemma_inserted_map_of_sorted(p.entries_view());
    lemma_sorted_canonical(q.entries_view(), p.entries_view());
}

} // verus!
