//! A table sorted by key: one row per key, rows in ascending key order.

use crate::text::{
    precedes, same_text, text_precedes, text_precedes_irreflexive, text_precedes_total,
    text_precedes_transitive,
};
use vstd::prelude::*;

verus! {

/// How one key stands to another.
#[derive(Clone, Copy, Debug, PartialEq, Eq, Structural)]
pub enum Place {
    Before,
    Same,
    After,
}

/// A key with a strict total order on its view.
pub trait OrderedKey: View + Sized {
    /// The strict order on the keys' views.
    spec fn before(a: Self::V, b: Self::V) -> bool;

    /// No key comes before itself.
    proof fn before_irreflexive(a: Self::V)
        ensures
            !Self::before(a, a),
    ;

    /// The order is transitive.
    proof fn before_transitive(a: Self::V, b: Self::V, c: Self::V)
        requires
            Self::before(a, b),
            Self::before(b, c),
        ensures
            Self::before(a, c),
    ;

    /// How this key stands to `other`.
    fn place(&self, other: &Self) -> (place: Place)
        ensures
            match place {
                Place::Before => Self::before(self@, other@),
                Place::Same => self@ == other@,
                Place::After => Self::before(other@, self@),
            },
    ;
}

impl OrderedKey for String {
    open spec fn before(a: Seq<char>, b: Seq<char>) -> bool {
        text_precedes(a, b)
    }

    proof fn before_irreflexive(a: Seq<char>) {
        text_precedes_irreflexive(a);
    }

    proof fn before_transitive(a: Seq<char>, b: Seq<char>, c: Seq<char>) {
        text_precedes_transitive(a, b, c);
    }

    fn place(&self, other: &Self) -> (place: Place) {
        proof {
            text_precedes_total(self@, other@);
        }
        if same_text(self.as_str(), other.as_str()) {
            Place::Same
        } else if precedes(self.as_str(), other.as_str()) {
            Place::Before
        } else {
            Place::After
        }
    }
}

/// Two texts, ordered by the first and then by the second.
#[derive(Debug)]
pub struct TextPair {
    pub first: String,
    pub second: String,
}

impl Clone for TextPair {
    fn clone(&self) -> (copy: Self)
        ensures
            copy == self,
    {
        TextPair { first: self.first.clone(), second: self.second.clone() }
    }
}

impl View for TextPair {
    type V = (Seq<char>, Seq<char>);

    open spec fn view(&self) -> (Seq<char>, Seq<char>) {
        (self.first@, self.second@)
    }
}

impl OrderedKey for TextPair {
    open spec fn before(a: (Seq<char>, Seq<char>), b: (Seq<char>, Seq<char>)) -> bool {
        text_precedes(a.0, b.0) || (a.0 == b.0 && text_precedes(a.1, b.1))
    }

    proof fn before_irreflexive(a: (Seq<char>, Seq<char>)) {
        text_precedes_irreflexive(a.0);
        text_precedes_irreflexive(a.1);
    }

    proof fn before_transitive(
        a: (Seq<char>, Seq<char>),
        b: (Seq<char>, Seq<char>),
        c: (Seq<char>, Seq<char>),
    ) {
        if text_precedes(a.0, b.0) && text_precedes(b.0, c.0) {
            text_precedes_transitive(a.0, b.0, c.0);
        }
        if text_precedes(a.1, b.1) && text_precedes(b.1, c.1) {
            text_precedes_transitive(a.1, b.1, c.1);
        }
    }

    fn place(&self, other: &Self) -> (place: Place) {
        match self.first.place(&other.first) {
            Place::Same => self.second.place(&other.second),
            unequal => unequal,
        }
    }
}

/// Rows in strictly ascending key order.
pub open spec fn ascending<K: OrderedKey, V>(rows: Seq<(K, V)>) -> bool {
    forall|i: int, j: int|
        0 <= i < j < rows.len() ==> #[trigger] K::before(rows[i].0@, rows[j].0@)
}

/// Whether `rows` holds a row under `key`.
pub open spec fn has_key<K: OrderedKey, V>(rows: Seq<(K, V)>, key: K::V) -> bool {
    exists|i: int| 0 <= i < rows.len() && #[trigger] rows[i].0@ == key
}

/// A key stands in at most one row.
pub proof fn key_is_unique<K: OrderedKey, V>(rows: Seq<(K, V)>, i: int, j: int)
    requires
        ascending(rows),
        0 <= i < rows.len(),
        0 <= j < rows.len(),
        rows[i].0@ == rows[j].0@,
    ensures
        i == j,
{
    K::before_irreflexive(rows[i].0@);
    if i < j {
        assert(K::before(rows[i].0@, rows[j].0@));
    } else if j < i {
        assert(K::before(rows[j].0@, rows[i].0@));
    }
}

/// The row of `key`, or where a row for it belongs.
pub enum Spot {
    Found(usize),
    Gap(usize),
}

/// Finds the row of `key` in ascending rows.
pub fn find<K: OrderedKey, V>(rows: &Vec<(K, V)>, key: &K) -> (spot: Spot)
    requires
        ascending(rows@),
    ensures
        match spot {
            Spot::Found(i) => i < rows@.len() && rows@[i as int].0@ == key@,
            Spot::Gap(i) => {
                &&& i <= rows@.len()
                &&& !has_key(rows@, key@)
                &&& forall|j: int| 0 <= j < i ==> K::before(#[trigger] rows@[j].0@, key@)
                &&& forall|j: int|
                    i <= j < rows@.len() ==> K::before(key@, #[trigger] rows@[j].0@)
            },
        },
{
    let mut i: usize = 0;
    while i < rows.len()
        invariant
            ascending(rows@),
            i <= rows@.len(),
            forall|j: int| 0 <= j < i ==> K::before(#[trigger] rows@[j].0@, key@),
        decreases rows@.len() - i,
    {
        match key.place(&rows[i].0) {
            Place::Same => {
                return Spot::Found(i);
            },
            Place::Before => {
                proof {
                    assert forall|j: int| i <= j < rows@.len() implies K::before(
                        key@,
                        #[trigger] rows@[j].0@,
                    ) by {
                        if i < j {
                            assert(K::before(rows@[i as int].0@, rows@[j].0@));
                            K::before_transitive(key@, rows@[i as int].0@, rows@[j].0@);
                        }
                    }
                    K::before_irreflexive(key@);
                }
                return Spot::Gap(i);
            },
            Place::After => {},
        }
        i = i + 1;
    }
    proof {
        K::before_irreflexive(key@);
    }
    Spot::Gap(i)
}

/// A row put into its gap keeps the rows ascending.
pub proof fn ascending_insert<K: OrderedKey, V>(rows: Seq<(K, V)>, i: int, row: (K, V))
    requires
        ascending(rows),
        0 <= i <= rows.len(),
        forall|j: int| 0 <= j < i ==> K::before(#[trigger] rows[j].0@, row.0@),
        forall|j: int| i <= j < rows.len() ==> K::before(row.0@, #[trigger] rows[j].0@),
    ensures
        ascending(rows.insert(i, row)),
{
    let after = rows.insert(i, row);
    assert forall|a: int, b: int| 0 <= a < b < after.len() implies #[trigger] K::before(
        after[a].0@,
        after[b].0@,
    ) by {
        let ra = if a < i { a } else { a - 1 };
        let rb = if b < i { b } else { b - 1 };
        if a != i && b != i {
            assert(K::before(rows[ra].0@, rows[rb].0@));
        }
    }
}

/// Puts a value under a key, over any value that stood there.
pub fn put<K: OrderedKey, V>(rows: &mut Vec<(K, V)>, key: K, value: V)
    requires
        ascending(old(rows)@),
    ensures
        ascending(final(rows)@),
        lookup(final(rows)@, key@) == Some(value),
        forall|k: K::V| k != key@ ==> #[trigger] lookup(final(rows)@, k) == lookup(old(rows)@, k),
        final(rows)@.len() == old(rows)@.len() + (if has_key(old(rows)@, key@) {
            0int
        } else {
            1int
        }),
{
    let ghost before = rows@;
    match find(rows, &key) {
        Spot::Found(i) => {
            rows.set(i, (key, value));
            proof {
                lemma_lookup_replaced(before, rows@, i as int);
            }
        },
        Spot::Gap(i) => {
            rows.insert(i, (key, value));
            proof {
                ascending_insert(before, i as int, (key, value));
                lemma_lookup_inserted(before, i as int, (key, value));
            }
        },
    }
}

/// The value under a key.
pub open spec fn lookup<K: OrderedKey, V>(rows: Seq<(K, V)>, key: K::V) -> Option<V> {
    if has_key(rows, key) {
        let i = choose|i: int| 0 <= i < rows.len() && #[trigger] rows[i].0@ == key;
        Some(rows[i].1)
    } else {
        None
    }
}

/// A row of an ascending table is what its key looks up.
pub proof fn lookup_of_row<K: OrderedKey, V>(rows: Seq<(K, V)>, i: int)
    requires
        ascending(rows),
        0 <= i < rows.len(),
    ensures
        lookup(rows, rows[i].0@) == Some(rows[i].1),
{
    let key = rows[i].0@;
    assert(has_key(rows, key));
    let j = choose|j: int| 0 <= j < rows.len() && #[trigger] rows[j].0@ == key;
    key_is_unique(rows, i, j);
}

proof fn lemma_lookup_replaced<K: OrderedKey, V>(before: Seq<(K, V)>, after: Seq<(K, V)>, i: int)
    requires
        ascending(before),
        0 <= i < before.len(),
        after == before.update(i, after[i]),
        after[i].0@ == before[i].0@,
    ensures
        ascending(after),
        lookup(after, after[i].0@) == Some(after[i].1),
        forall|k: K::V|
            k != after[i].0@ ==> #[trigger] lookup(after, k) == lookup(before, k),
        has_key(before, after[i].0@),
{
    assert forall|a: int, b: int| 0 <= a < b < after.len() implies #[trigger] K::before(
        after[a].0@,
        after[b].0@,
    ) by {
        assert(K::before(before[a].0@, before[b].0@));
    }
    lookup_of_row(after, i);
    assert forall|k: K::V| k != after[i].0@ implies #[trigger] lookup(after, k) == lookup(
        before,
        k,
    ) by {
        if has_key(before, k) {
            let j = choose|j: int| 0 <= j < before.len() && #[trigger] before[j].0@ == k;
            lookup_of_row(before, j);
            assert(after[j].0@ == k);
            lookup_of_row(after, j);
        } else if has_key(after, k) {
            let j = choose|j: int| 0 <= j < after.len() && #[trigger] after[j].0@ == k;
            assert(before[j].0@ == k);
        }
    }
}

proof fn lemma_lookup_inserted<K: OrderedKey, V>(before: Seq<(K, V)>, i: int, row: (K, V))
    requires
        ascending(before),
        ascending(before.insert(i, row)),
        0 <= i <= before.len(),
        !has_key(before, row.0@),
    ensures
        lookup(before.insert(i, row), row.0@) == Some(row.1),
        forall|k: K::V|
            k != row.0@ ==> #[trigger] lookup(before.insert(i, row), k) == lookup(before, k),
{
    let after = before.insert(i, row);
    assert(after[i] == row);
    lookup_of_row(after, i);
    assert forall|k: K::V| k != row.0@ implies #[trigger] lookup(after, k) == lookup(
        before,
        k,
    ) by {
        if has_key(before, k) {
            let j = choose|j: int| 0 <= j < before.len() && #[trigger] before[j].0@ == k;
            lookup_of_row(before, j);
            let m = if j < i { j } else { j + 1 };
            assert(after[m] == before[j]);
            lookup_of_row(after, m);
        } else if has_key(after, k) {
            let m = choose|m: int| 0 <= m < after.len() && #[trigger] after[m].0@ == k;
            let j = if m < i { m } else { m - 1 };
            assert(before[j] == after[m]);
        }
    }
}

/// A key that stands in no row looks up nothing.
pub proof fn absent_key_looks_up_nothing<K: OrderedKey, V>(rows: Seq<(K, V)>, key: K::V)
    requires
        forall|i: int| 0 <= i < rows.len() ==> #[trigger] rows[i].0@ != key,
    ensures
        lookup(rows, key) is None,
{
}

/// In a table by text each row's key comes before those of all later rows, in the order
/// of text; in a table by pairs the first texts decide, and the second ones where the
/// first are equal.
pub proof fn rows_stand_in_the_order_of_text<V>(
    rows: Seq<(String, V)>,
    pairs: Seq<(TextPair, V)>,
    i: int,
    j: int,
)
    requires
        ascending(rows),
        ascending(pairs),
    ensures
        0 <= i < j < rows.len() ==> text_precedes(rows[i].0@, rows[j].0@),
        0 <= i < j < pairs.len() ==> text_precedes(pairs[i].0.first@, pairs[j].0.first@) || (
        pairs[i].0.first@ == pairs[j].0.first@ && text_precedes(
            pairs[i].0.second@,
            pairs[j].0.second@,
        )),
{
    if 0 <= i < j < rows.len() {
        assert(String::before(rows[i].0@, rows[j].0@));
    }
    if 0 <= i < j < pairs.len() {
        assert(TextPair::before(pairs[i].0@, pairs[j].0@));
    }
}

} // verus!
