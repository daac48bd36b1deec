//! Plugin registries: which adapter answers a protocol, which transport a form.
//!
//! A registry is assembled once and read from then on. Keys are listed in
//! ascending order, and a key that is not registered selects nothing.

use crate::table::{
    ascending, find, has_key, lookup, lookup_of_row, put, OrderedKey, Spot,
};
use vstd::prelude::*;

verus! {

/// The last item under `key`, which is the one a registry keeps.
pub open spec fn last_under<T>(items: Seq<(String, T)>, key: Seq<char>) -> Option<T>
    decreases items.len(),
{
    if items.len() == 0 {
        None
    } else if items.last().0@ == key {
        Some(items.last().1)
    } else {
        last_under(items.drop_last(), key)
    }
}

/// `rows` is the registry of `items`: ascending, and under each key the last item
/// that carries it.
pub open spec fn registers<T>(rows: Seq<(String, T)>, items: Seq<(String, T)>) -> bool {
    &&& ascending(rows)
    &&& forall|key: Seq<char>| #[trigger] lookup(rows, key) == last_under(items, key)
}

fn assemble<T>(items: Vec<(String, T)>) -> (rows: Vec<(String, T)>)
    ensures
        registers(rows@, items@),
{
    let mut rows: Vec<(String, T)> = Vec::new();
    let ghost all = items@;
    proof {
        assert forall|key: Seq<char>| #[trigger] lookup(rows@, key) == last_under(all.take(0), key)
            by {
            assert(!has_key(rows@, key));
        }
    }
    for item in it: items
        invariant
            it.seq() == all,
            registers(rows@, all.take(it.index() as int)),
    {
        let ghost i = it.index() as int;
        proof {
            assert(all.take(i + 1).drop_last() =~= all.take(i));
            assert(all.take(i + 1).last() == item);
        }
        let (key, value) = item;
        put(&mut rows, key, value);
    }
    assert(all.take(all.len() as int) =~= all);
    rows
}

fn select<'a, T>(rows: &'a Vec<(String, T)>, key: &str) -> (found: Option<&'a T>)
    requires
        ascending(rows@),
    ensures
        match found {
            Some(value) => lookup(rows@, key@) == Some(*value),
            None => lookup(rows@, key@) is None,
        },
{
    let key: String = key.to_owned();
    match find(rows, &key) {
        Spot::Found(i) => {
            proof {
                lookup_of_row(rows@, i as int);
            }
            Some(&rows[i].1)
        },
        Spot::Gap(_) => None,
    }
}

fn keys<T>(rows: &Vec<(String, T)>) -> (keys: Vec<String>)
    ensures
        keys@.len() == rows@.len(),
        forall|i: int| 0 <= i < rows@.len() ==> (#[trigger] keys@[i])@ == rows@[i].0@,
{
    let mut out: Vec<String> = Vec::new();
    let mut i: usize = 0;
    while i < rows.len()
        invariant
            i <= rows@.len(),
            out@.len() == i,
            forall|j: int| 0 <= j < i ==> (#[trigger] out@[j])@ == rows@[j].0@,
        decreases rows@.len() - i,
    {
        out.push(rows[i].0.clone());
        i = i + 1;
    }
    out
}

/// The adapters by protocol.
pub struct AdapterRegistry<A> {
    table: Vec<(String, A)>,
}

impl<A> AdapterRegistry<A> {
    /// The rows of the registry, one per protocol.
    pub closed spec fn rows(&self) -> Seq<(String, A)> {
        self.table@
    }

    /// The rows are in ascending protocol order.
    pub open spec fn wf(&self) -> bool {
        ascending(self.rows())
    }

    /// Registers each adapter under its protocol; of two with one protocol the
    /// later stays.
    pub fn new(adapters: Vec<(String, A)>) -> (registry: Self)
        ensures
            registry.wf(),
            registers(registry.rows(), adapters@),
    {
        Self { table: assemble(adapters) }
    }

    /// The adapter of a protocol, if one is registered.
    pub fn adapter_for(&self, protocol: &str) -> (adapter: Option<&A>)
        requires
            self.wf(),
        ensures
            match adapter {
                Some(found) => lookup(self.rows(), protocol@) == Some(*found),
                None => lookup(self.rows(), protocol@) is None,
            },
    {
        select(&self.table, protocol)
    }

    /// The registered protocols, in ascending order.
    pub fn protocols(&self) -> (protocols: Vec<String>)
        requires
            self.wf(),
        ensures
            protocols@.len() == self.rows().len(),
            forall|i: int|
                0 <= i < self.rows().len() ==> (#[trigger] protocols@[i])@ == self.rows()[i].0@,
            forall|i: int, j: int|
                0 <= i < j < protocols@.len() ==> String::before(
                    (#[trigger] protocols@[i])@,
                    (#[trigger] protocols@[j])@,
                ),
    {
        keys(&self.table)
    }

    /// How many protocols are registered.
    pub fn len(&self) -> (n: usize)
        ensures
            n == self.rows().len(),
    {
        self.table.len()
    }

    /// Whether no protocol is registered.
    pub fn is_empty(&self) -> (empty: bool)
        ensures
            empty == (self.rows().len() == 0),
    {
        self.table.len() == 0
    }
}

/// The transports by form.
pub struct TransportRegistry<T> {
    table: Vec<(String, T)>,
}

impl<T> TransportRegistry<T> {
    /// The rows of the registry, one per form.
    pub closed spec fn rows(&self) -> Seq<(String, T)> {
        self.table@
    }

    /// The rows are in ascending order of form.
    pub open spec fn wf(&self) -> bool {
        ascending(self.rows())
    }

    /// Registers each transport under its form; of two with one form the later
    /// stays.
    pub fn new(transports: Vec<(String, T)>) -> (registry: Self)
        ensures
            registry.wf(),
            registers(registry.rows(), transports@),
    {
        Self { table: assemble(transports) }
    }

    /// The transport of a form, if one is registered.
    pub fn transport_for(&self, kind: &str) -> (transport: Option<&T>)
        requires
            self.wf(),
        ensures
            match transport {
                Some(found) => lookup(self.rows(), kind@) == Some(*found),
                None => lookup(self.rows(), kind@) is None,
            },
    {
        select(&self.table, kind)
    }

    /// The registered forms, in ascending order.
    pub fn kinds(&self) -> (kinds: Vec<String>)
        requires
            self.wf(),
        ensures
            kinds@.len() == self.rows().len(),
            forall|i: int|
                0 <= i < self.rows().len() ==> (#[trigger] kinds@[i])@ == self.rows()[i].0@,
            forall|i: int, j: int|
                0 <= i < j < kinds@.len() ==> String::before(
                    (#[trigger] kinds@[i])@,
                    (#[trigger] kinds@[j])@,
                ),
    {
        keys(&self.table)
    }

    /// How many forms are registered.
    pub fn len(&self) -> (n: usize)
        ensures
            n == self.rows().len(),
    {
        self.table.len()
    }

    /// Whether no form is registered.
    pub fn is_empty(&self) -> (empty: bool)
        ensures
            empty == (self.rows().len() == 0),
    {
        self.table.len() == 0
    }
}

/// A form that no transport was registered under selects nothing, and the one
/// registered last under a form is the one selected.
pub proof fn selection_follows_registration<T>(
    rows: Seq<(String, T)>,
    items: Seq<(String, T)>,
    item: (String, T),
    key: Seq<char>,
)
    requires
        registers(rows, items.push(item)),
    ensures
        lookup(rows, item.0@) == Some(item.1),
        (forall|i: int| 0 <= i < items.len() ==> (#[trigger] items[i]).0@ != key) && item.0@ != key
            ==> lookup(rows, key) is None,
{
    assert(items.push(item).drop_last() =~= items);
    if forall|i: int| 0 <= i < items.len() ==> (#[trigger] items[i]).0@ != key {
        lemma_absent(items, key);
    }
}

proof fn lemma_absent<T>(items: Seq<(String, T)>, key: Seq<char>)
    requires
        forall|i: int| 0 <= i < items.len() ==> (#[trigger] items[i]).0@ != key,
    ensures
        last_under(items, key) is None,
    decreases items.len(),
{
    if items.len() > 0 {
        lemma_absent(items.drop_last(), key);
    }
}

/// Under a key the registry has the last item that carries it, whatever stands before or
/// behind that item under other keys; under a key that no item carries it has nothing.
pub proof fn last_item_of_a_key_stays<T>(
    rows: Seq<(String, T)>,
    items: Seq<(String, T)>,
    key: Seq<char>,
    i: int,
)
    requires
        registers(rows, items),
        -1 <= i < items.len(),
        i >= 0 ==> items[i].0@ == key,
        forall|j: int| i < j < items.len() ==> (#[trigger] items[j]).0@ != key,
    ensures
        i >= 0 ==> lookup(rows, key) == Some(items[i].1),
        i < 0 ==> lookup(rows, key) is None,
{
    if i < 0 {
        lemma_absent(items, key);
    } else {
        lemma_last_under(items, key, i);
    }
    assert(lookup(rows, key) == last_under(items, key));
}

proof fn lemma_last_under<T>(items: Seq<(String, T)>, key: Seq<char>, i: int)
    requires
        0 <= i < items.len(),
        items[i].0@ == key,
        forall|j: int| i < j < items.len() ==> (#[trigger] items[j]).0@ != key,
    ensures
        last_under(items, key) == Some(items[i].1),
    decreases items.len(),
{
    if i < items.len() - 1 {
        assert(items[items.len() - 1].0@ != key);
        lemma_last_under(items.drop_last(), key, i);
    }
}

} // verus!
