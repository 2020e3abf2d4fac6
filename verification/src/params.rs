//! Canonical parameter maps.
//!
//! A [`ParamMap`] maps parameter names to string values and keeps its
//! entries in strictly ascending lexicographic key order at all times, so
//! that the same map always serializes to the same query string and the
//! same JSON body. That determinism is load-bearing: the signature covers
//! the literal serialized bytes.

use vstd::prelude::*;

verus! {

/// Strict lexicographic order on character sequences, comparing scalar
/// values position by position; a proper prefix sorts before its extensions.
pub open spec fn lex_lt(a: Seq<char>, b: Seq<char>) -> bool
    decreases a.len(),
{
    if b.len() == 0 {
        false
    } else if a.len() == 0 {
        true
    } else if (a[0] as u32) < (b[0] as u32) {
        true
    } else if a[0] == b[0] {
        lex_lt(a.drop_first(), b.drop_first())
    } else {
        false
    }
}

/// Characters are equal exactly when their Unicode scalar values are.
pub proof fn lemma_char_scalar_inj(c: char, d: char)
    ensures
        (c == d) <==> (c as u32 == d as u32),
{
}

pub proof fn lemma_lex_lt_irrefl(a: Seq<char>)
    ensures
        !lex_lt(a, a),
    decreases a.len(),
{
    if a.len() > 0 {
        lemma_lex_lt_irrefl(a.drop_first());
    }
}

pub proof fn lemma_lex_lt_trans(a: Seq<char>, b: Seq<char>, c: Seq<char>)
    requires
        lex_lt(a, b),
        lex_lt(b, c),
    ensures
        lex_lt(a, c),
    decreases a.len() + b.len() + c.len(),
{
    if a.len() > 0 && b.len() > 0 && c.len() > 0 {
        if a[0] == b[0] && b[0] == c[0] {
            lemma_lex_lt_trans(a.drop_first(), b.drop_first(), c.drop_first());
        }
    }
}

/// Any two character sequences are equal or ordered one way or the other.
pub proof fn lemma_lex_lt_connex(a: Seq<char>, b: Seq<char>)
    ensures
        a == b || lex_lt(a, b) || lex_lt(b, a),
    decreases a.len(),
{
    if a.len() == 0 && b.len() == 0 {
        assert(a =~= b);
    } else if a.len() == 0 {
        assert(lex_lt(a, b));
    } else if b.len() == 0 {
        assert(lex_lt(b, a));
    } else {
        if a[0] == b[0] {
            lemma_lex_lt_connex(a.drop_first(), b.drop_first());
            if a.drop_first() == b.drop_first() {
                assert(a.len() == b.len()) by {
                    assert(a.drop_first().len() == b.drop_first().len());
                }
                assert forall|i: int| 0 <= i < a.len() implies a[i] == b[i] by {
                    if i > 0 {
                        assert(a[i] == a.subrange(1, a.len() as int)[i - 1]);
                        assert(b[i] == b.subrange(1, b.len() as int)[i - 1]);
                    }
                }
                assert(a =~= b);
            }
        } else if (a[0] as u32) < (b[0] as u32) {
            assert(lex_lt(a, b));
        } else {
            lemma_char_scalar_inj(a[0], b[0]);
            assert((b[0] as u32) < (a[0] as u32));
            assert(lex_lt(b, a));
        }
    }
}

/// Strict order never holds both ways, and never between equal sequences.
pub proof fn lemma_lex_lt_asym(a: Seq<char>, b: Seq<char>)
    requires
        lex_lt(a, b),
    ensures
        !lex_lt(b, a),
        a != b,
{
    if lex_lt(b, a) {
        lemma_lex_lt_trans(a, b, a);
        lemma_lex_lt_irrefl(a);
    }
    if a == b {
        lemma_lex_lt_irrefl(a);
    }
}

/// If two sequences agree on their first `i` characters, their order is
/// decided by the remainders.
pub proof fn lemma_lex_lt_skip(a: Seq<char>, b: Seq<char>, i: int)
    requires
        0 <= i <= a.len(),
        i <= b.len(),
        forall|j: int| 0 <= j < i ==> a[j] == b[j],
    ensures
        lex_lt(a, b) == lex_lt(a.skip(i), b.skip(i)),
    decreases i,
{
    if i > 0 {
        assert(a[0] == b[0]);
        assert(a.drop_first() =~= a.skip(1));
        assert(b.drop_first() =~= b.skip(1));
        lemma_lex_lt_skip(a.skip(1), b.skip(1), i - 1);
        assert(a.skip(1).skip(i - 1) =~= a.skip(i));
        assert(b.skip(1).skip(i - 1) =~= b.skip(i));
    } else {
        assert(a.skip(0) =~= a);
        assert(b.skip(0) =~= b);
    }
}

/// Three-way lexicographic comparison of two strings by characters:
/// -1 when `a` sorts before `b`, 0 when they are equal, 1 otherwise.
pub fn str_cmp(a: &str, b: &str) -> (r: i8)
    ensures
        r == -1i8 <==> lex_lt(a@, b@),
        r == 0i8 <==> a@ == b@,
        r == 1i8 <==> lex_lt(b@, a@),
{
    proof {
        lemma_lex_lt_connex(a@, b@);
    }
    let a_len = a.unicode_len();
    let b_len = b.unicode_len();
    let mut i: usize = 0;
    while i < a_len && i < b_len
        invariant
            0 <= i <= a_len,
            i <= b_len,
            a_len == a@.len(),
            b_len == b@.len(),
            forall|j: int| 0 <= j < i ==> a@[j] == b@[j],
        decreases a_len - i,
    {
        let ca = a.get_char(i);
        let cb = b.get_char(i);
        if (ca as u32) < (cb as u32) {
            proof {
                lemma_lex_lt_skip(a@, b@, i as int);
                lemma_lex_lt_asym(a@, b@);
            }
            return -1;
        }
        if (cb as u32) < (ca as u32) {
            proof {
                lemma_lex_lt_skip(b@, a@, i as int);
                lemma_lex_lt_asym(b@, a@);
            }
            return 1;
        }
        assert(ca == cb);
        i = i + 1;
    }
    proof {
        lemma_lex_lt_skip(a@, b@, i as int);
        lemma_lex_lt_skip(b@, a@, i as int);
    }
    if i == a_len && i == b_len {
        proof {
            assert(a@ =~= b@);
            lemma_lex_lt_irrefl(a@);
        }
        0
    } else if i == a_len {
        proof {
            assert(a@.skip(i as int).len() == 0);
            assert(lex_lt(a@.skip(i as int), b@.skip(i as int)));
            lemma_lex_lt_asym(a@, b@);
        }
        -1
    } else {
        proof {
            assert(b@.skip(i as int).len() == 0);
            assert(lex_lt(b@.skip(i as int), a@.skip(i as int)));
            lemma_lex_lt_asym(b@, a@);
        }
        1
    }
}

/// The view of a list of entries: each pair of strings as a pair of
/// character sequences.
pub open spec fn entry_views(s: Seq<(String, String)>) -> Seq<(Seq<char>, Seq<char>)> {
    s.map_values(|p: (String, String)| (p.0@, p.1@))
}

/// Keys strictly ascending: every key sorts before every later key.
pub open spec fn sorted_entries(s: Seq<(Seq<char>, Seq<char>)>) -> bool {
    forall|i: int, j: int| 0 <= i < j < s.len() ==> lex_lt(s[i].0, s[j].0)
}

/// The mapping that a list of entries denotes; an earlier entry wins over
/// a later one with the same key (sorted lists never repeat a key).
pub open spec fn map_of(s: Seq<(Seq<char>, Seq<char>)>) -> Map<Seq<char>, Seq<char>>
    decreases s.len(),
{
    if s.len() == 0 {
        Map::empty()
    } else {
        map_of(s.drop_first()).insert(s[0].0, s[0].1)
    }
}

/// Where a key-value pair lands when inserted into a key-sorted entry
/// list: before the first key it does not exceed, replacing it if equal.
pub open spec fn seq_insert(
    s: Seq<(Seq<char>, Seq<char>)>,
    k: Seq<char>,
    v: Seq<char>,
) -> Seq<(Seq<char>, Seq<char>)>
    decreases s.len(),
{
    if s.len() == 0 {
        seq![(k, v)]
    } else if lex_lt(k, s[0].0) {
        seq![(k, v)] + s
    } else if k == s[0].0 {
        seq![(k, v)] + s.drop_first()
    } else {
        seq![s[0]] + seq_insert(s.drop_first(), k, v)
    }
}

/// Inserting into a sorted list keeps it sorted.
pub proof fn lemma_seq_insert_sorted(s: Seq<(Seq<char>, Seq<char>)>, k: Seq<char>, v: Seq<char>)
    requires
        sorted_entries(s),
    ensures
        sorted_entries(seq_insert(s, k, v)),
        forall|j: int|
            0 <= j < seq_insert(s, k, v).len() ==> seq_insert(s, k, v)[j].0 == k || (exists|i: int|
                0 <= i < s.len() && s[i] == #[trigger] seq_insert(s, k, v)[j]),
    decreases s.len(),
{
    let t = seq_insert(s, k, v);
    if s.len() == 0 {
    } else if lex_lt(k, s[0].0) {
        assert forall|i: int, j: int| 0 <= i < j < t.len() implies lex_lt(t[i].0, t[j].0) by {
            if i == 0 {
                if j == 1 {
                } else {
                    lemma_lex_lt_trans(k, s[0].0, s[j - 1].0);
                }
            }
        }
        assert forall|j: int| 0 <= j < t.len() implies t[j].0 == k || (exists|i: int|
            0 <= i < s.len() && s[i] == #[trigger] t[j]) by {
            if j > 0 {
                assert(s[j - 1] == t[j]);
            }
        }
    } else if k == s[0].0 {
        assert forall|j: int| 0 <= j < t.len() implies t[j].0 == k || (exists|i: int|
            0 <= i < s.len() && s[i] == #[trigger] t[j]) by {
            if j > 0 {
                assert(s[j] == t[j]);
            }
        }
    } else {
        lemma_lex_lt_connex(k, s[0].0);
        lemma_seq_insert_sorted(s.drop_first(), k, v);
        let t1 = seq_insert(s.drop_first(), k, v);
        assert forall|i: int, j: int| 0 <= i < j < t.len() implies lex_lt(t[i].0, t[j].0) by {
            if i == 0 {
                assert(t[j] == t1[j - 1]);
                if t1[j - 1].0 == k {
                } else {
                    let w = choose|w: int|
                        0 <= w < s.drop_first().len() && s.drop_first()[w] == t1[j - 1];
                    assert(s[w + 1] == t1[j - 1]);
                    assert(lex_lt(s[0].0, s[w + 1].0));
                }
            } else {
                assert(t[i] == t1[i - 1]);
                assert(t[j] == t1[j - 1]);
            }
        }
        assert forall|j: int| 0 <= j < t.len() implies t[j].0 == k || (exists|i: int|
            0 <= i < s.len() && s[i] == #[trigger] t[j]) by {
            if j == 0 {
                assert(s[0] == t[0]);
            } else {
                assert(t[j] == t1[j - 1]);
                if t1[j - 1].0 != k {
                    let w = choose|w: int|
                        0 <= w < s.drop_first().len() && s.drop_first()[w] == t1[j - 1];
                    assert(s[w + 1] == t[j]);
                }
            }
        }
    }
}

/// At the map level, `seq_insert` is exactly `Map::insert`.
pub proof fn lemma_map_of_seq_insert(s: Seq<(Seq<char>, Seq<char>)>, k: Seq<char>, v: Seq<char>)
    ensures
        map_of(seq_insert(s, k, v)) == map_of(s).insert(k, v),
    decreases s.len(),
{
    let t = seq_insert(s, k, v);
    if s.len() == 0 {
        assert(t.drop_first() =~= s);
        assert(t[0] == (k, v));
        assert(map_of(t) == map_of(t.drop_first()).insert(k, v));
    } else if lex_lt(k, s[0].0) {
        assert(t.drop_first() =~= s);
        assert(t[0] == (k, v));
        assert(map_of(t) == map_of(t.drop_first()).insert(k, v));
    } else if k == s[0].0 {
        assert(t.drop_first() =~= s.drop_first());
        assert(map_of(t) == map_of(s.drop_first()).insert(k, v));
        assert(map_of(s) == map_of(s.drop_first()).insert(s[0].0, s[0].1));
        assert(map_of(s).insert(k, v) =~= map_of(s.drop_first()).insert(k, v));
    } else {
        lemma_map_of_seq_insert(s.drop_first(), k, v);
        assert(t.drop_first() =~= seq_insert(s.drop_first(), k, v));
        assert(t[0] == s[0]);
        assert(map_of(t) == map_of(s.drop_first()).insert(k, v).insert(s[0].0, s[0].1));
        assert(map_of(t) =~= map_of(s).insert(k, v));
    }
}

/// The denoted mapping's domain holds every entry's key and nothing
/// else.
pub proof fn lemma_map_of_contains(s: Seq<(Seq<char>, Seq<char>)>)
    ensures
        forall|i: int| 0 <= i < s.len() ==> map_of(s).dom().contains(#[trigger] s[i].0),
        forall|k: Seq<char>|
            map_of(s).dom().contains(k) ==> exists|i: int|
                0 <= i < s.len() && (#[trigger] s[i]).0 == k,
    decreases s.len(),
{
    if s.len() > 0 {
        let s1 = s.drop_first();
        lemma_map_of_contains(s1);
        assert forall|i: int| 0 <= i < s.len() implies map_of(s).dom().contains(
            #[trigger] s[i].0,
        ) by {
            if i > 0 {
                assert(s1[i - 1] == s[i]);
            }
        }
        assert forall|k: Seq<char>| map_of(s).dom().contains(k) implies exists|i: int|
            0 <= i < s.len() && (#[trigger] s[i]).0 == k by {
            if k != s[0].0 {
                assert(map_of(s1).dom().contains(k));
                let j = choose|j: int| 0 <= j < s1.len() && (#[trigger] s1[j]).0 == k;
                assert(s[j + 1] == s1[j]);
            }
        }
    }
}

/// Entries after the first of a sorted list are sorted too.
pub proof fn lemma_sorted_drop(s: Seq<(Seq<char>, Seq<char>)>)
    requires
        sorted_entries(s),
        s.len() > 0,
    ensures
        sorted_entries(s.drop_first()),
{
    let s1 = s.drop_first();
    assert forall|i: int, j: int| 0 <= i < j < s1.len() implies lex_lt(s1[i].0, s1[j].0) by {
        assert(s1[i] == s[i + 1]);
        assert(s1[j] == s[j + 1]);
    }
}

/// In a sorted entry list, the mapping assigns every key its own
/// entry's value.
pub proof fn lemma_map_of_value(s: Seq<(Seq<char>, Seq<char>)>, i: int)
    requires
        sorted_entries(s),
        0 <= i < s.len(),
    ensures
        map_of(s).dom().contains(s[i].0),
        map_of(s)[s[i].0] == s[i].1,
    decreases s.len(),
{
    lemma_map_of_contains(s);
    if i > 0 {
        let s1 = s.drop_first();
        assert(lex_lt(s[0].0, s[i].0));
        lemma_lex_lt_asym(s[0].0, s[i].0);
        lemma_sorted_drop(s);
        assert(s1[i - 1] == s[i]);
        lemma_map_of_value(s1, i - 1);
    }
}

/// The mapping of the tail of a sorted list is the whole mapping less
/// the head's key.
pub proof fn lemma_map_of_remove(s: Seq<(Seq<char>, Seq<char>)>)
    requires
        sorted_entries(s),
        s.len() > 0,
    ensures
        map_of(s.drop_first()) == map_of(s).remove(s[0].0),
{
    let s1 = s.drop_first();
    lemma_map_of_contains(s1);
    if map_of(s1).dom().contains(s[0].0) {
        let j = choose|j: int| 0 <= j < s1.len() && (#[trigger] s1[j]).0 == s[0].0;
        assert(s1[j] == s[j + 1]);
        assert(lex_lt(s[0].0, s[j + 1].0));
        lemma_lex_lt_asym(s[0].0, s[j + 1].0);
    }
    assert(map_of(s).remove(s[0].0) =~= map_of(s1));
}

/// A sorted entry list is the canonical form of its mapping: two sorted
/// lists denoting the same mapping are the same list. Hence everything
/// derived from the entries alone, the canonical query string and JSON
/// body included, depends only on the mapping.
pub proof fn lemma_sorted_canonical(s1: Seq<(Seq<char>, Seq<char>)>, s2: Seq<(Seq<char>, Seq<char>)>)
    requires
        sorted_entries(s1),
        sorted_entries(s2),
        map_of(s1) == map_of(s2),
    ensures
        s1 == s2,
    decreases s1.len(),
{
    lemma_map_of_contains(s1);
    lemma_map_of_contains(s2);
    if s1.len() == 0 && s2.len() == 0 {
        assert(s1 =~= s2);
    } else if s1.len() == 0 {
        assert(map_of(s2).dom().contains(s2[0].0));
        assert(map_of(s1).dom() =~= Set::<Seq<char>>::empty());
    } else if s2.len() == 0 {
        assert(map_of(s1).dom().contains(s1[0].0));
        assert(map_of(s2).dom() =~= Set::<Seq<char>>::empty());
    } else {
        assert(map_of(s2).dom().contains(s1[0].0));
        let j = choose|j: int| 0 <= j < s2.len() && (#[trigger] s2[j]).0 == s1[0].0;
        assert(map_of(s1).dom().contains(s2[0].0));
        let i = choose|i: int| 0 <= i < s1.len() && (#[trigger] s1[i]).0 == s2[0].0;
        if j > 0 {
            assert(lex_lt(s2[0].0, s2[j].0));
            if i > 0 {
                assert(lex_lt(s1[0].0, s1[i].0));
                lemma_lex_lt_trans(s2[0].0, s1[0].0, s2[0].0);
                lemma_lex_lt_irrefl(s2[0].0);
            } else {
                lemma_lex_lt_irrefl(s2[0].0);
            }
        }
        assert(s1[0].0 == s2[0].0);
        lemma_map_of_value(s1, 0);
        lemma_map_of_value(s2, 0);
        assert(s1[0].1 == s2[0].1);
        lemma_map_of_remove(s1);
        lemma_map_of_remove(s2);
        lemma_sorted_drop(s1);
        lemma_sorted_drop(s2);
        lemma_sorted_canonical(s1.drop_first(), s2.drop_first());
        assert forall|x: int| 0 <= x < s1.len() implies s1[x] == s2[x] by {
            if x > 0 {
                assert(s1[x] == s1.drop_first()[x - 1]);
                assert(s2[x] == s2.drop_first()[x - 1]);
            }
        }
        assert(s1 =~= s2);
    }
}

/// A mapping of parameter names to string values whose entries stand in
/// strictly ascending lexicographic key order.
pub struct ParamMap {
    entries: Vec<(String, String)>,
}

impl ParamMap {
    /// Entry list as character sequences, in storage (that is, key) order.
    pub closed spec fn entries_view(self) -> Seq<(Seq<char>, Seq<char>)> {
        entry_views(self.entries@)
    }

    /// The mapping the entries denote.
    pub open spec fn as_map(self) -> Map<Seq<char>, Seq<char>> {
        map_of(self.entries_view())
    }

    /// Keys strictly ascending, hence unique.
    pub open spec fn wf(self) -> bool {
        sorted_entries(self.entries_view())
    }

    pub open spec fn spec_len(self) -> nat {
        self.entries_view().len()
    }

    pub fn new() -> (r: ParamMap)
        ensures
            r.wf(),
            r.entries_view() =~= Seq::<(Seq<char>, Seq<char>)>::empty(),
            r.as_map() =~= Map::<Seq<char>, Seq<char>>::empty(),
    {
        ParamMap { entries: Vec::new() }
    }

    pub fn len(&self) -> (r: usize)
        ensures
            r == self.spec_len(),
    {
        self.entries.len()
    }

    pub fn is_empty(&self) -> (r: bool)
        ensures
            r == (self.spec_len() == 0),
    {
        self.entries.len() == 0
    }

    /// The key of the entry at a storage position.
    pub fn key_at(&self, i: usize) -> (r: &String)
        requires
            i < self.spec_len(),
        ensures
            r@ == self.entries_view()[i as int].0,
    {
        &self.entries[i].0
    }

    /// The value of the entry at a storage position.
    pub fn value_at(&self, i: usize) -> (r: &String)
        requires
            i < self.spec_len(),
        ensures
            r@ == self.entries_view()[i as int].1,
    {
        &self.entries[i].1
    }

    /// Put a value under a key; an existing value under the same key is
    /// replaced, and key order is maintained.
    pub fn insert(&mut self, key: &str, value: &str)
        requires
            old(self).wf(),
        ensures
            final(self).wf(),
            final(self).entries_view() == seq_insert(old(self).entries_view(), key@, value@),
            final(self).as_map() == old(self).as_map().insert(key@, value@),
    {
        let ghost s0 = self.entries_view();
        let n = self.entries.len();
        let mut i: usize = 0;
        while i < n && str_cmp(self.entries[i].0.as_str(), key) == -1
            invariant
                self == old(self),
                n == self.entries@.len(),
                0 <= i <= n,
                forall|j: int| 0 <= j < i ==> lex_lt(self.entries_view()[j].0, key@),
            decreases n - i,
        {
            i = i + 1;
        }
        proof {
            lemma_seq_insert_position(s0, key@, value@, i as int);
        }
        if i < n && str_cmp(self.entries[i].0.as_str(), key) == 0 {
            self.entries[i] = (String::from_str(key), String::from_str(value));
            proof {
                assert(self.entries_view() =~= s0.update(i as int, (key@, value@)));
            }
        } else {
            proof {
                if i < n {
                    lemma_lex_lt_connex(key@, s0[i as int].0);
                }
            }
            self.entries.insert(i, (String::from_str(key), String::from_str(value)));
            proof {
                assert(self.entries_view() =~= s0.subrange(0, i as int) + seq![(key@, value@)]
                    + s0.subrange(i as int, s0.len() as int));
            }
        }
        proof {
            lemma_map_of_seq_insert(s0, key@, value@);
        }
    }
}

/// Where the scan of `insert` stops is exactly where `seq_insert` places
/// the new entry.
pub proof fn lemma_seq_insert_position(
    s: Seq<(Seq<char>, Seq<char>)>,
    k: Seq<char>,
    v: Seq<char>,
    i: int,
)
    requires
        sorted_entries(s),
        0 <= i <= s.len(),
        forall|j: int| 0 <= j < i ==> lex_lt(s[j].0, k),
        i < s.len() ==> !lex_lt(s[i].0, k),
    ensures
        i < s.len() && s[i].0 == k ==> seq_insert(s, k, v) == s.update(i, (k, v)),
        !(i < s.len() && s[i].0 == k) ==> seq_insert(s, k, v) == s.subrange(0, i) + seq![(k, v)]
            + s.subrange(i, s.len() as int),
        sorted_entries(seq_insert(s, k, v)),
    decreases i,
{
    lemma_seq_insert_sorted(s, k, v);
    if i == 0 {
        if s.len() == 0 {
            assert(seq_insert(s, k, v) =~= s.subrange(0, 0) + seq![(k, v)] + s.subrange(0, 0));
        } else if s[0].0 == k {
            lemma_lex_lt_irrefl(k);
            assert(seq_insert(s, k, v) =~= s.update(0, (k, v)));
        } else {
            lemma_lex_lt_connex(k, s[0].0);
            assert(seq_insert(s, k, v) =~= s.subrange(0, 0) + seq![(k, v)] + s.subrange(
                0,
                s.len() as int,
            ));
        }
    } else {
        lemma_lex_lt_asym(s[0].0, k);
        let s1 = s.drop_first();
        assert(forall|j: int| 0 <= j < i - 1 ==> lex_lt(s1[j].0, k));
        lemma_seq_insert_position(s1, k, v, i - 1);
        if i < s.len() && s[i].0 == k {
            assert(s1[i - 1].0 == k);
            assert(seq_insert(s, k, v) =~= s.update(i, (k, v)));
        } else {
            assert(seq_insert(s, k, v) =~= s.subrange(0, i) + seq![(k, v)] + s.subrange(
                i,
                s.len() as int,
            ));
        }
    }
}

} // verus!
