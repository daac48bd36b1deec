//! The connection pool.
//!
//! A healthy idle connection is lent before a new one is opened. A new one is
//! opened within the limits, outside the backoff window; beyond the limits a
//! caller takes a seat in a bounded queue or is refused. A connection goes back
//! to its own key only when its session is clean and it was not cut off while it
//! was lent.
//!
//! The pool decides. Opening connections, waiting and waking is done around it:
//! [`ConnPool::acquire`] says what a caller has to do next,
//! [`ConnPool::connected`] takes the outcome of an attempt to connect, and each
//! call that frees a seat says under which keys one waiting caller is to be woken.
//! Instants and delays are milliseconds.

use super::backoff::{delay_after, delay_is_bounded, Backoff, BACKOFF_BASE, BACKOFF_CAP};
use super::lease::Lease;
use super::{AcquireError, ConnPhase, ConnectionEvent, ConnectionFacts};
use crate::registry::TransportRegistry;
use crate::table::{ascending, ascending_insert, find, lookup, OrderedKey, Spot, TextPair};
use crate::text::same_text;
use vstd::prelude::*;

verus! {

/// The form of the direct transport.
pub const TRANSPORT_KIND_DIRECT: &'static str = "direct";

/// A pool key: resource code and tier name.
pub type KeyView = (Seq<char>, Seq<char>);

/// The limits of a pool.
#[derive(Clone, Copy, Debug, PartialEq, Eq, Structural)]
pub struct PoolCaps {
    /// How many connections of one key may be in use.
    pub per_key: usize,
    /// How many connections of all keys together may be in use.
    pub global: usize,
    /// How many callers may be queued for one key.
    pub queue: usize,
}

/// What the pool knows of a transport.
#[derive(Clone, Copy, Debug, PartialEq, Eq, Structural)]
pub struct TransportForm {
    /// Whether its connections outlive one use, and so are pooled.
    pub persistent: bool,
}

/// The state of one pool key.
pub struct KeySlot<C> {
    idle: Vec<C>,
    in_use: usize,
    abort_epoch: u64,
    backoff: Backoff,
    retry_after: Option<u64>,
    waiters: usize,
}

/// What the state of a pool key amounts to.
#[verifier::ext_equal]
pub struct SlotState<C> {
    /// The clean connections that wait to be lent again.
    pub idle: Seq<C>,
    /// How many connections are lent or being opened.
    pub in_use: nat,
    /// How often the connections of the key were cut off.
    pub epoch: nat,
    /// How many attempts to connect failed in a row.
    pub failures: u32,
    /// The instant before which no new connection may be opened.
    pub retry_after: Option<u64>,
    /// How many callers are queued.
    pub waiters: nat,
}

/// The state of a key that was never used.
pub open spec fn unused_slot<C>() -> SlotState<C> {
    SlotState {
        idle: Seq::empty(),
        in_use: 0,
        epoch: 0,
        failures: 0,
        retry_after: None,
        waiters: 0,
    }
}

impl<C> View for KeySlot<C> {
    type V = SlotState<C>;

    closed spec fn view(&self) -> SlotState<C> {
        SlotState {
            idle: self.idle@,
            in_use: self.in_use as nat,
            epoch: self.abort_epoch as nat,
            failures: self.backoff.failures(),
            retry_after: self.retry_after,
            waiters: self.waiters as nat,
        }
    }
}

impl<C> KeySlot<C> {
    fn new() -> (slot: Self)
        ensures
            slot@ == unused_slot::<C>(),
    {
        KeySlot {
            idle: Vec::new(),
            in_use: 0,
            abort_epoch: 0,
            backoff: Backoff::new(),
            retry_after: None,
            waiters: 0,
        }
    }
}


/// What a caller that asks for a connection is told.
pub enum Admission<C> {
    /// Here is an idle connection.
    Lend(Lease<C>),
    /// A seat is reserved: open a connection, then report the outcome.
    Connect,
    /// The caller is queued: ask again when woken.
    Wait,
    /// There is no connection to be had.
    Deny(AcquireError),
}

/// How an attempt to connect came out.
pub enum ConnectOutcome<C> {
    /// No credential could be had.
    NoCredential,
    /// The resource code could not be resolved.
    Unresolved,
    /// The transport could not open the connection.
    Unreachable,
    /// The connection is open.
    Opened(C),
}

/// What the pool decides on a request for a connection.
pub enum Verdict {
    NoTransport,
    Reuse,
    BackingOff,
    Connect,
    Wait,
    Full,
}

/// The decision on a request for a connection, from the state of its key, the
/// number of connections in use under all keys, whether the caller is queued
/// already and the time.
pub open spec fn verdict<C>(
    form: Option<TransportForm>,
    caps: PoolCaps,
    slot: SlotState<C>,
    total: nat,
    queued: bool,
    now: u64,
) -> Verdict {
    if form is None {
        Verdict::NoTransport
    } else if form->0.persistent && slot.idle.len() > 0 && total < caps.global {
        Verdict::Reuse
    } else if slot.retry_after is Some && now < slot.retry_after->0 {
        Verdict::BackingOff
    } else if slot.in_use < caps.per_key && total < caps.global {
        Verdict::Connect
    } else if queued || slot.waiters < caps.queue {
        Verdict::Wait
    } else {
        Verdict::Full
    }
}

/// The queue once a caller leaves it, if that caller was queued.
pub open spec fn left_queue(waiters: nat, queued: bool) -> nat {
    if queued && waiters > 0 {
        (waiters - 1) as nat
    } else {
        waiters
    }
}

/// The state of the key after a decision.
pub open spec fn admitted<C>(slot: SlotState<C>, verdict: Verdict, queued: bool) -> SlotState<C> {
    match verdict {
        Verdict::NoTransport => slot,
        Verdict::Reuse => SlotState {
            idle: slot.idle.drop_last(),
            in_use: slot.in_use + 1,
            waiters: left_queue(slot.waiters, queued),
            ..slot
        },
        Verdict::BackingOff => SlotState { waiters: left_queue(slot.waiters, queued), ..slot },
        Verdict::Connect => SlotState {
            in_use: slot.in_use + 1,
            retry_after: None,
            waiters: left_queue(slot.waiters, queued),
            ..slot
        },
        Verdict::Wait => SlotState {
            retry_after: None,
            waiters: if queued {
                slot.waiters
            } else {
                slot.waiters + 1
            },
            ..slot
        },
        Verdict::Full => SlotState { retry_after: None, ..slot },
    }
}

/// The answer that tells a decision.
pub open spec fn tells<C>(
    admission: Admission<C>,
    verdict: Verdict,
    slot: SlotState<C>,
    key: KeyView,
) -> bool {
    match verdict {
        Verdict::NoTransport => admission == Admission::<C>::Deny(AcquireError::NoTransport),
        Verdict::Reuse => admission matches Admission::Lend(lease) && {
            &&& lease.channel() == slot.idle.last()
            &&& !lease.damaged()
            &&& lease.key() == key
            &&& lease.persistent()
            &&& lease.epoch() == slot.epoch
        },
        Verdict::BackingOff => admission == Admission::<C>::Deny(AcquireError::BackoffActive),
        Verdict::Connect => admission == Admission::<C>::Connect,
        Verdict::Wait => admission == Admission::<C>::Wait,
        Verdict::Full => admission == Admission::<C>::Deny(AcquireError::CapacityExceeded),
    }
}

/// One more failure on record.
pub open spec fn one_more(failures: u32) -> u32 {
    if failures == u32::MAX {
        failures
    } else {
        (failures + 1) as u32
    }
}

/// The end of a delay that begins at `now`, the last instant where it lies beyond.
pub open spec fn end_of_delay(now: u64, delay: u64) -> u64 {
    if now + delay > u64::MAX {
        u64::MAX
    } else {
        (now + delay) as u64
    }
}

/// The state of a key with one failure more, backed off from `now` on.
pub open spec fn backed_off<C>(slot: SlotState<C>, now: u64) -> SlotState<C> {
    let failures = one_more(slot.failures);
    SlotState {
        failures,
        retry_after: Some(end_of_delay(now, delay_after(failures)->0)),
        ..slot
    }
}

/// The state of the key after an attempt to connect. Only a transport failure
/// backs off, and only where connections are pooled.
pub open spec fn settled<C>(
    slot: SlotState<C>,
    outcome: ConnectOutcome<C>,
    persistent: bool,
    now: u64,
) -> SlotState<C> {
    let freed = SlotState { in_use: (slot.in_use - 1) as nat, ..slot };
    match outcome {
        ConnectOutcome::NoCredential => freed,
        ConnectOutcome::Unresolved => freed,
        ConnectOutcome::Unreachable => if persistent {
            backed_off(freed, now)
        } else {
            freed
        },
        ConnectOutcome::Opened(_) => SlotState { failures: 0, retry_after: None, ..slot },
    }
}

/// Whether a connection that comes back is pooled again: it may be pooled, its
/// session is clean, and no abort fell between lending and return.
pub open spec fn returns_to_pool<C>(slot: SlotState<C>, lease: Lease<C>) -> bool {
    lease.persistent() && !lease.damaged() && lease.epoch() == slot.epoch
}

/// The state of the key after a connection came back.
pub open spec fn given_back<C>(slot: SlotState<C>, lease: Lease<C>) -> SlotState<C> {
    SlotState {
        in_use: (slot.in_use - 1) as nat,
        idle: if returns_to_pool(slot, lease) {
            slot.idle.push(lease.channel())
        } else {
            slot.idle
        },
        ..slot
    }
}

/// How many connections of a key there are, lent and idle.
pub open spec fn live<C>(slot: SlotState<C>) -> nat {
    slot.in_use + slot.idle.len()
}

/// The state of a key after its connections were cut off.
pub open spec fn aborted<C>(slot: SlotState<C>) -> SlotState<C> {
    SlotState {
        idle: Seq::empty(),
        epoch: if live(slot) > 0 {
            slot.epoch + 1
        } else {
            slot.epoch
        },
        ..slot
    }
}

/// The state of a key after its idle connections were found dead.
pub open spec fn evicted<C>(slot: SlotState<C>, now: u64) -> SlotState<C> {
    if slot.idle.len() > 0 {
        backed_off(SlotState { idle: Seq::empty(), ..slot }, now)
    } else {
        slot
    }
}

/// `count` records of one kind.
pub open spec fn records(
    count: nat,
    phase: ConnPhase,
    resource: Seq<char>,
    tier: Seq<char>,
) -> Seq<ConnectionFacts> {
    Seq::new(
        count,
        |i: int|
            ConnectionFacts { phase, resource, tier, transport_kind: TRANSPORT_KIND_DIRECT@ },
    )
}

/// The states of the keys, in key order.
pub open spec fn states<C>(rows: Seq<(TextPair, KeySlot<C>)>) -> Seq<(KeyView, SlotState<C>)> {
    rows.map_values(|row: (TextPair, KeySlot<C>)| (row.0@, row.1@))
}

/// The abort records for `resource`: one per live connection, by tier in order.
pub open spec fn abort_records<C>(
    slots: Seq<(KeyView, SlotState<C>)>,
    resource: Seq<char>,
) -> Seq<ConnectionFacts>
    decreases slots.len(),
{
    if slots.len() == 0 {
        Seq::empty()
    } else {
        let (key, slot) = slots.last();
        abort_records(slots.drop_last(), resource) + if key.0 == resource {
            records(live(slot), ConnPhase::Abort, key.0, key.1)
        } else {
            Seq::empty()
        }
    }
}

/// The eviction records for `resource`: one per idle connection, by tier in order.
pub open spec fn evict_records<C>(
    slots: Seq<(KeyView, SlotState<C>)>,
    resource: Seq<char>,
) -> Seq<ConnectionFacts>
    decreases slots.len(),
{
    if slots.len() == 0 {
        Seq::empty()
    } else {
        let (key, slot) = slots.last();
        evict_records(slots.drop_last(), resource) + if key.0 == resource {
            records(slot.idle.len(), ConnPhase::HealthEvict, key.0, key.1)
        } else {
            Seq::empty()
        }
    }
}

/// The keys under which callers are queued, in key order.
pub open spec fn waiting_keys<C>(slots: Seq<(KeyView, SlotState<C>)>) -> Seq<KeyView>
    decreases slots.len(),
{
    if slots.len() == 0 {
        Seq::empty()
    } else {
        let (key, slot) = slots.last();
        let before = waiting_keys(slots.drop_last());
        if slot.waiters > 0 {
            before.push(key)
        } else {
            before
        }
    }
}

/// How many connections of all keys together are in use.
pub open spec fn total_in_use<C>(slots: Seq<(KeyView, SlotState<C>)>) -> nat
    decreases slots.len(),
{
    if slots.len() == 0 {
        0
    } else {
        total_in_use(slots.drop_last()) + slots.last().1.in_use
    }
}

/// The state under a key; a key without a row was never used.
pub open spec fn slot_in<C>(slots: Seq<(KeyView, SlotState<C>)>, key: KeyView) -> SlotState<C> {
    if exists|i: int| 0 <= i < slots.len() && (#[trigger] slots[i]).0 == key {
        let i = choose|i: int| 0 <= i < slots.len() && (#[trigger] slots[i]).0 == key;
        slots[i].1
    } else {
        unused_slot()
    }
}

/// No key stands twice.
pub open spec fn distinct_keys<C>(slots: Seq<(KeyView, SlotState<C>)>) -> bool {
    forall|i: int, j: int|
        0 <= i < j < slots.len() ==> (#[trigger] slots[i]).0 != (#[trigger] slots[j]).0
}

/// The limits of a pool key.
pub open spec fn slot_within<C>(
    slot: SlotState<C>,
    caps: PoolCaps,
    form: Option<TransportForm>,
    recorded: nat,
) -> bool {
    &&& live(slot) <= caps.per_key
    &&& slot.waiters <= caps.queue
    &&& slot.epoch <= recorded
    &&& (form matches Some(f) && f.persistent) || slot.idle.len() == 0
}

/// The limits of a pool: no key has more live connections than the limit per key
/// or more queued callers than the queue has seats, all keys together have no more
/// connections in use than the global limit, and what is not persistent is not
/// pooled.
pub open spec fn within_limits<C>(
    slots: Seq<(KeyView, SlotState<C>)>,
    caps: PoolCaps,
    form: Option<TransportForm>,
    recorded: nat,
) -> bool {
    &&& forall|i: int|
        0 <= i < slots.len() ==> slot_within((#[trigger] slots[i]).1, caps, form, recorded)
    &&& total_in_use(slots) <= caps.global
}

proof fn lemma_slot_of_row<C>(slots: Seq<(KeyView, SlotState<C>)>, i: int)
    requires
        distinct_keys(slots),
        0 <= i < slots.len(),
    ensures
        slot_in(slots, slots[i].0) == slots[i].1,
{
    let key = slots[i].0;
    let j = choose|j: int| 0 <= j < slots.len() && (#[trigger] slots[j]).0 == key;
    if i < j || j < i {
        assert(slots[i].0 != slots[j].0);
    }
}

proof fn lemma_slot_updated<C>(
    before: Seq<(KeyView, SlotState<C>)>,
    after: Seq<(KeyView, SlotState<C>)>,
    i: int,
    slot: SlotState<C>,
)
    requires
        distinct_keys(before),
        0 <= i < before.len(),
        after == before.update(i, (before[i].0, slot)),
    ensures
        distinct_keys(after),
        slot_in(after, before[i].0) == slot,
        forall|k: KeyView| k != before[i].0 ==> #[trigger] slot_in(after, k) == slot_in(before, k),
        total_in_use(after) + before[i].1.in_use == total_in_use(before) + slot.in_use,
{
    lemma_same_keys(before, after);
    lemma_slot_of_row(after, i);
    assert forall|k: KeyView| k != before[i].0 implies #[trigger] slot_in(after, k) == slot_in(
        before,
        k,
    ) by {
        lemma_unmoved(before, after, k);
    }
    lemma_total_updated(before, i, (before[i].0, slot));
}

proof fn lemma_same_keys<C>(
    before: Seq<(KeyView, SlotState<C>)>,
    after: Seq<(KeyView, SlotState<C>)>,
)
    requires
        distinct_keys(before),
        after.len() == before.len(),
        forall|j: int| 0 <= j < before.len() ==> (#[trigger] after[j]).0 == before[j].0,
    ensures
        distinct_keys(after),
{
    assert forall|a: int, b: int| 0 <= a < b < after.len() implies (#[trigger] after[a]).0 != (
    #[trigger] after[b]).0 by {
        assert(before[a].0 != before[b].0);
    }
}

/// A key whose row, if any, is the same in both has the same state in both.
proof fn lemma_unmoved<C>(
    before: Seq<(KeyView, SlotState<C>)>,
    after: Seq<(KeyView, SlotState<C>)>,
    key: KeyView,
)
    requires
        distinct_keys(before),
        distinct_keys(after),
        after.len() == before.len(),
        forall|j: int| 0 <= j < before.len() ==> (#[trigger] after[j]).0 == before[j].0,
        forall|j: int|
            0 <= j < before.len() && before[j].0 == key ==> (#[trigger] after[j]).1 == before[j].1,
    ensures
        slot_in(after, key) == slot_in(before, key),
{
    if exists|j: int| 0 <= j < before.len() && (#[trigger] before[j]).0 == key {
        let j = choose|j: int| 0 <= j < before.len() && (#[trigger] before[j]).0 == key;
        assert(after[j].0 == key);
        lemma_slot_of_row(before, j);
        lemma_slot_of_row(after, j);
    } else if exists|j: int| 0 <= j < after.len() && (#[trigger] after[j]).0 == key {
        let j = choose|j: int| 0 <= j < after.len() && (#[trigger] after[j]).0 == key;
        assert(before[j].0 == key);
    }
}

proof fn lemma_total_updated<C>(
    slots: Seq<(KeyView, SlotState<C>)>,
    i: int,
    row: (KeyView, SlotState<C>),
)
    requires
        0 <= i < slots.len(),
    ensures
        total_in_use(slots.update(i, row)) + slots[i].1.in_use == total_in_use(slots)
            + row.1.in_use,
        slots[i].1.in_use <= total_in_use(slots),
    decreases slots.len(),
{
    let after = slots.update(i, row);
    if i == slots.len() - 1 {
        assert(after.drop_last() =~= slots.drop_last());
    } else {
        lemma_total_updated(slots.drop_last(), i, row);
        assert(after.drop_last() =~= slots.drop_last().update(i, row));
    }
}

proof fn lemma_total_inserted<C>(
    slots: Seq<(KeyView, SlotState<C>)>,
    i: int,
    row: (KeyView, SlotState<C>),
)
    requires
        0 <= i <= slots.len(),
    ensures
        total_in_use(slots.insert(i, row)) == total_in_use(slots) + row.1.in_use,
    decreases slots.len(),
{
    let after = slots.insert(i, row);
    if i == slots.len() {
        assert(after.drop_last() =~= slots);
    } else {
        lemma_total_inserted(slots.drop_last(), i, row);
        assert(after.drop_last() =~= slots.drop_last().insert(i, row));
        assert(after.last() == slots.last());
    }
}

proof fn lemma_total_same<C>(
    before: Seq<(KeyView, SlotState<C>)>,
    after: Seq<(KeyView, SlotState<C>)>,
)
    requires
        before.len() == after.len(),
        forall|i: int|
            0 <= i < before.len() ==> (#[trigger] after[i]).1.in_use == before[i].1.in_use,
    ensures
        total_in_use(before) == total_in_use(after),
    decreases before.len(),
{
    if before.len() > 0 {
        lemma_total_same(before.drop_last(), after.drop_last());
        assert(after.last() == after[after.len() - 1]);
        assert(before.last() == before[before.len() - 1]);
    }
}

proof fn lemma_slot_inserted<C>(
    before: Seq<(KeyView, SlotState<C>)>,
    after: Seq<(KeyView, SlotState<C>)>,
    i: int,
    key: KeyView,
)
    requires
        distinct_keys(before),
        distinct_keys(after),
        0 <= i <= before.len(),
        after == before.insert(i, (key, unused_slot())),
    ensures
        forall|k: KeyView| #[trigger] slot_in(after, k) == slot_in(before, k),
        total_in_use(after) == total_in_use(before),
{
    assert(after[i].0 == key);
    lemma_slot_of_row(after, i);
    assert forall|k: KeyView| #[trigger] slot_in(after, k) == slot_in(before, k) by {
        if exists|j: int| 0 <= j < before.len() && (#[trigger] before[j]).0 == k {
            let j = choose|j: int| 0 <= j < before.len() && (#[trigger] before[j]).0 == k;
            let m = if j < i { j } else { j + 1 };
            assert(after[m] == before[j]);
            lemma_slot_of_row(before, j);
            lemma_slot_of_row(after, m);
        } else if exists|m: int| 0 <= m < after.len() && (#[trigger] after[m]).0 == k {
            let m = choose|m: int| 0 <= m < after.len() && (#[trigger] after[m]).0 == k;
            if m != i {
                let j = if m < i { m } else { m - 1 };
                assert(before[j] == after[m]);
            }
        }
    }
    lemma_total_inserted(before, i, (key, unused_slot()));
}

proof fn lemma_rows_distinct<C>(rows: Seq<(TextPair, KeySlot<C>)>)
    requires
        ascending(rows),
    ensures
        distinct_keys(states(rows)),
{
    let slots = states(rows);
    assert forall|i: int, j: int| 0 <= i < j < slots.len() implies (#[trigger] slots[i]).0 != (
    #[trigger] slots[j]).0 by {
        assert(TextPair::before(rows[i].0@, rows[j].0@));
        TextPair::before_irreflexive(rows[i].0@);
    }
}

enum Step<C> {
    Reuse(C),
    BackingOff,
    Connect,
    Wait,
    Full,
}

impl<C> KeySlot<C> {
    fn leave_queue(&mut self, queued: bool)
        ensures
            final(self)@ == (SlotState { waiters: left_queue(old(self)@.waiters, queued), ..old(self)@ }),
    {
        if queued {
            self.waiters = self.waiters.saturating_sub(1);
        }
    }

    /// Decides on a request for a connection of a registered transport.
    fn decide(
        &mut self,
        form: TransportForm,
        caps: PoolCaps,
        total: usize,
        queued: bool,
        now: u64,
    ) -> (step: Step<C>)
        requires
            live(old(self)@) <= caps.per_key,
            old(self)@.waiters <= caps.queue,
        ensures
            ({
                let verdict = verdict(Some(form), caps, old(self)@, total as nat, queued, now);
                &&& final(self)@ == admitted(old(self)@, verdict, queued)
                &&& match verdict {
                    Verdict::NoTransport => false,
                    Verdict::Reuse => step == Step::Reuse(old(self)@.idle.last()),
                    Verdict::BackingOff => step == Step::<C>::BackingOff,
                    Verdict::Connect => step == Step::<C>::Connect,
                    Verdict::Wait => step == Step::<C>::Wait,
                    Verdict::Full => step == Step::<C>::Full,
                }
            }),
    {
        if form.persistent && total < caps.global {
            if let Some(channel) = self.idle.pop() {
                self.in_use = self.in_use + 1;
                self.leave_queue(queued);
                return Step::Reuse(channel);
            }
        }
        if let Some(t) = self.retry_after {
            if now < t {
                self.leave_queue(queued);
                return Step::BackingOff;
            }
            self.retry_after = None;
        }
        if self.in_use < caps.per_key && total < caps.global {
            self.in_use = self.in_use + 1;
            self.leave_queue(queued);
            return Step::Connect;
        }
        if queued {
            Step::Wait
        } else if self.waiters >= caps.queue {
            Step::Full
        } else {
            self.waiters = self.waiters + 1;
            Step::Wait
        }
    }

    /// Counts a failure and opens the backoff window.
    fn back_off(&mut self, now: u64)
        ensures
            final(self)@ == backed_off(old(self)@, now),
    {
        self.backoff.record_failure();
        proof {
            delay_is_bounded(self.backoff.failures());
        }
        if let Some(delay) = self.backoff.next_delay() {
            self.retry_after = Some(now.saturating_add(delay));
        }
    }
}

/// Connections pooled by resource and credential tier.
pub struct ConnPool<C> {
    transports: TransportRegistry<TransportForm>,
    caps: PoolCaps,
    rows: Vec<(TextPair, KeySlot<C>)>,
    total: usize,
    events: Vec<ConnectionEvent>,
}

impl<C> ConnPool<C> {
    /// The states of the keys that were used, in key order.
    pub closed spec fn slots(&self) -> Seq<(KeyView, SlotState<C>)> {
        states(self.rows@)
    }

    /// The records of the connections' lives so far.
    pub closed spec fn events(&self) -> Seq<ConnectionFacts> {
        self.events@.map_values(|e: ConnectionEvent| e@)
    }

    /// The direct transport, if one is registered.
    pub closed spec fn form(&self) -> Option<TransportForm> {
        lookup(self.transports.rows(), TRANSPORT_KIND_DIRECT@)
    }

    /// The limits of the pool.
    pub closed spec fn caps(&self) -> PoolCaps {
        self.caps
    }

    /// The state under a key.
    pub open spec fn slot(&self, key: KeyView) -> SlotState<C> {
        slot_in(self.slots(), key)
    }

    /// The rows are in key order and the count of connections in use is right.
    pub closed spec fn consistent(&self) -> bool {
        &&& ascending(self.rows@)
        &&& self.transports.wf()
        &&& self.total == total_in_use(states(self.rows@))
    }

    /// The pool keeps its limits.
    pub open spec fn wf(&self) -> bool {
        &&& self.consistent()
        &&& distinct_keys(self.slots())
        &&& within_limits(self.slots(), self.caps(), self.form(), self.events().len())
    }

    /// The same registry and limits stand behind both pools.
    pub open spec fn same_setup(&self, other: &Self) -> bool {
        self.form() == other.form() && self.caps() == other.caps()
    }

    /// A pool without connections.
    pub fn new(transports: TransportRegistry<TransportForm>, caps: PoolCaps) -> (pool: Self)
        requires
            transports.wf(),
        ensures
            pool.wf(),
            pool.caps() == caps,
            pool.form() == lookup(transports.rows(), TRANSPORT_KIND_DIRECT@),
            pool.slots() == Seq::<(KeyView, SlotState<C>)>::empty(),
            forall|key: KeyView| #[trigger] pool.slot(key) == unused_slot::<C>(),
            pool.events() == Seq::<ConnectionFacts>::empty(),
    {
        let pool = ConnPool { transports, caps, rows: Vec::new(), total: 0, events: Vec::new() };
        assert(pool.slots() =~= Seq::<(KeyView, SlotState<C>)>::empty());
        assert(pool.events() =~= Seq::<ConnectionFacts>::empty());
        pool
    }

    /// The row of a key, made if there was none.
    fn locate(&mut self, key: &TextPair) -> (i: usize)
        requires
            old(self).wf(),
        ensures
            final(self).wf(),
            final(self).same_setup(old(self)),
            final(self).events() == old(self).events(),
            final(self).total == old(self).total,
            forall|k: KeyView| #[trigger] final(self).slot(k) == old(self).slot(k),
            i < final(self).rows@.len(),
            final(self).slots()[i as int].0 == key@,
            final(self).slots()[i as int].1 == old(self).slot(key@),
            total_in_use(final(self).slots()) == total_in_use(old(self).slots()),
            waiting_keys(final(self).slots()) == waiting_keys(old(self).slots()),
    {
        match find(&self.rows, key) {
            Spot::Found(i) => {
                proof {
                    lemma_slot_of_row(self.slots(), i as int);
                }
                i
            },
            Spot::Gap(i) => {
                let ghost before = self.rows@;
                let slot = KeySlot::new();
                let row = (key.clone(), slot);
                let ghost added = row;
                self.rows.insert(i, row);
                proof {
                    ascending_insert(before, i as int, added);
                    lemma_rows_distinct(self.rows@);
                    assert(states(self.rows@) =~= states(before).insert(
                        i as int,
                        (key@, unused_slot()),
                    ));
                    lemma_slot_inserted(states(before), states(self.rows@), i as int, key@);
                    lemma_waiting_inserted(states(before), i as int, key@);
                    lemma_slot_of_row(self.slots(), i as int);
                    let slots = self.slots();
                    assert forall|j: int| 0 <= j < slots.len() implies slot_within(
                        (#[trigger] slots[j]).1,
                        self.caps(),
                        self.form(),
                        self.events().len(),
                    ) by {
                        if j != i {
                            let m = if j < i { j } else { j - 1 };
                            assert(slots[j] == states(before)[m]);
                        }
                    }
                }
                i
            },
        }
    }

    /// Asks for a connection under a key.
    ///
    /// `queued` tells whether the caller was told to wait before, so that it holds
    /// a seat in the queue.
    pub fn acquire(&mut self, resource: &str, tier: &str, queued: bool, now: u64) -> (admission:
        Admission<C>)
        requires
            old(self).wf(),
        ensures
            final(self).wf(),
            final(self).same_setup(old(self)),
            final(self).events() == old(self).events(),
            ({
                let key = (resource@, tier@);
                let slot = old(self).slot(key);
                let verdict = verdict(
                    old(self).form(),
                    old(self).caps(),
                    slot,
                    total_in_use(old(self).slots()),
                    queued,
                    now,
                );
                &&& tells(admission, verdict, slot, key)
                &&& final(self).slot(key) == admitted(slot, verdict, queued)
                &&& total_in_use(final(self).slots()) == total_in_use(old(self).slots()) + (
                if verdict is Reuse || verdict is Connect {
                    1nat
                } else {
                    0nat
                })
                &&& forall|k: KeyView|
                    k != key ==> #[trigger] final(self).slot(k) == old(self).slot(k)
            }),
    {
        let form: TransportForm = match self.transports.transport_for(TRANSPORT_KIND_DIRECT) {
            Some(form) => *form,
            None => {
                return Admission::Deny(AcquireError::NoTransport);
            },
        };
        let key = TextPair { first: resource.to_owned(), second: tier.to_owned() };
        let i: usize = self.locate(&key);
        let ghost located = *self;
        let caps: PoolCaps = self.caps;
        let total: usize = self.total;
        let ghost before = self.slots();
        let ghost rows = self.rows@;
        let ghost slot = before[i as int].1;
        let ghost verdict = verdict(self.form(), caps, slot, total as nat, queued, now);
        proof {
            assert(slot_within(before[i as int].1, caps, self.form(), self.events().len()));
        }
        let step = self.rows[i].1.decide(form, caps, total, queued, now);
        let ghost after = admitted(slot, verdict, queued);
        proof {
            assert(states(self.rows@) =~= before.update(i as int, (key@, after)));
            lemma_slot_updated(before, states(self.rows@), i as int, after);
            lemma_rows_keep_order(rows, self.rows@);
            lemma_limits_updated(before, i as int, after, caps, self.form(), self.events().len());
            assert forall|k: KeyView| k != key@ implies #[trigger] slot_in(states(self.rows@), k)
                == old(self).slot(k) by {
                assert(located.slot(k) == old(self).slot(k));
            }
        }
        match step {
            Step::Reuse(channel) => {
                self.total = self.total + 1;
                let epoch: u64 = self.rows[i].1.abort_epoch;
                Admission::Lend(Lease::new(channel, key, true, epoch))
            },
            Step::BackingOff => Admission::Deny(AcquireError::BackoffActive),
            Step::Connect => {
                self.total = self.total + 1;
                Admission::Connect
            },
            Step::Wait => Admission::Wait,
            Step::Full => Admission::Deny(AcquireError::CapacityExceeded),
        }
    }

    /// The keys under which callers are queued.
    fn waiting(&self) -> (keys: Vec<TextPair>)
        ensures
            keys@.map_values(|key: TextPair| key@) == waiting_keys(self.slots()),
    {
        let mut keys: Vec<TextPair> = Vec::new();
        let mut i: usize = 0;
        let ghost slots = self.slots();
        while i < self.rows.len()
            invariant
                i <= self.rows@.len(),
                slots == states(self.rows@),
                keys@.map_values(|key: TextPair| key@) == waiting_keys(slots.take(i as int)),
            decreases self.rows@.len() - i,
        {
            proof {
                assert(slots.take(i + 1).drop_last() =~= slots.take(i as int));
                assert(slots.take(i + 1).last() == slots[i as int]);
            }
            if self.rows[i].1.waiters > 0 {
                let ghost before = keys@;
                keys.push(self.rows[i].0.clone());
                assert(keys@.map_values(|key: TextPair| key@) =~= before.map_values(
                    |key: TextPair| key@,
                ).push(self.rows@[i as int].0@));
            }
            i = i + 1;
        }
        assert(slots.take(slots.len() as int) =~= slots);
        keys
    }

    /// Appends `count` records of one kind.
    fn record(&mut self, count: usize, phase: ConnPhase, resource: &str, tier: &str)
        ensures
            final(self).events() == old(self).events() + records(
                count as nat,
                phase,
                resource@,
                tier@,
            ),
            final(self).rows == old(self).rows,
            final(self).transports == old(self).transports,
            final(self).caps == old(self).caps,
            final(self).total == old(self).total,
    {
        let mut done: usize = 0;
        while done < count
            invariant
                done <= count,
                self.events() =~= old(self).events() + records(
                    done as nat,
                    phase,
                    resource@,
                    tier@,
                ),
                self.rows == old(self).rows,
                self.transports == old(self).transports,
                self.caps == old(self).caps,
                self.total == old(self).total,
            decreases count - done,
        {
            let event = ConnectionEvent {
                phase,
                resource: resource.to_owned(),
                tier: tier.to_owned(),
                transport_kind: TRANSPORT_KIND_DIRECT.to_owned(),
            };
            let ghost before = self.events();
            let ghost fact = event@;
            self.events.push(event);
            assert(self.events() =~= before.push(fact));
            done = done + 1;
        }
    }

    /// How many connections of a key are lent or being opened.
    pub fn in_use(&self, resource: &str, tier: &str) -> (n: usize)
        requires
            self.wf(),
        ensures
            n == self.slot((resource@, tier@)).in_use,
    {
        let key = TextPair { first: resource.to_owned(), second: tier.to_owned() };
        match find(&self.rows, &key) {
            Spot::Found(i) => {
                proof {
                    lemma_slot_of_row(self.slots(), i as int);
                    assert(self.slots()[i as int].0 == key@);
                }
                self.rows[i].1.in_use
            },
            Spot::Gap(_) => {
                proof {
                    let slots = self.slots();
                    if exists|j: int| 0 <= j < slots.len() && (#[trigger] slots[j]).0 == key@ {
                        let j = choose|j: int| 0 <= j < slots.len() && (#[trigger] slots[j]).0 == key@;
                        assert(self.rows@[j].0@ == key@);
                    }
                }
                0
            },
        }
    }

    /// Whether a seat is reserved or taken under a key of a registered transport.
    pub fn reserved(&self, resource: &str, tier: &str) -> (yes: bool)
        requires
            self.wf(),
        ensures
            yes == (self.form() is Some && self.slot((resource@, tier@)).in_use > 0),
    {
        match self.transports.transport_for(TRANSPORT_KIND_DIRECT) {
            Some(_) => self.in_use(resource, tier) > 0,
            None => false,
        }
    }

    /// Whether a lease can be one that this pool lent and did not get back yet.
    pub fn lent(&self, lease: &Lease<C>) -> (yes: bool)
        requires
            self.wf(),
        ensures
            yes == {
                &&& self.form() matches Some(form)
                &&& lease.persistent() == form.persistent
                &&& self.slot(lease.key()).in_use > 0
            },
    {
        let key = lease.pool_key();
        match self.transports.transport_for(TRANSPORT_KIND_DIRECT) {
            Some(form) => lease.is_persistent() == form.persistent && self.in_use(
                key.first.as_str(),
                key.second.as_str(),
            ) > 0,
            None => false,
        }
    }

    /// Takes the outcome of an attempt to connect for which a seat was reserved.
    ///
    /// Also tells under which keys one waiting caller is to be woken.
    pub fn connected(
        &mut self,
        resource: &str,
        tier: &str,
        outcome: ConnectOutcome<C>,
        now: u64,
    ) -> (result: (Result<Lease<C>, AcquireError>, Vec<TextPair>))
        requires
            old(self).wf(),
            old(self).form() is Some,
            old(self).slot((resource@, tier@)).in_use > 0,
        ensures
            final(self).wf(),
            final(self).same_setup(old(self)),
            ({
                let key = (resource@, tier@);
                let slot = old(self).slot(key);
                let persistent = old(self).form()->0.persistent;
                &&& final(self).slot(key) == settled(slot, outcome, persistent, now)
                &&& forall|k: KeyView|
                    k != key ==> #[trigger] final(self).slot(k) == old(self).slot(k)
                &&& match outcome {
                    ConnectOutcome::NoCredential => {
                        &&& result.0 == Err::<Lease<C>, _>(AcquireError::Credential)
                        &&& final(self).events() == old(self).events()
                    },
                    ConnectOutcome::Unresolved => {
                        &&& result.0 == Err::<Lease<C>, _>(AcquireError::Resolve)
                        &&& final(self).events() == old(self).events()
                    },
                    ConnectOutcome::Unreachable => {
                        &&& result.0 == Err::<Lease<C>, _>(AcquireError::Transport)
                        &&& final(self).events() == old(self).events()
                    },
                    ConnectOutcome::Opened(channel) => {
                        &&& result.0 matches Ok(lease) && {
                            &&& lease.channel() == channel
                            &&& !lease.damaged()
                            &&& lease.key() == key
                            &&& lease.persistent() == persistent
                            &&& lease.epoch() == slot.epoch
                        }
                        &&& final(self).events() == old(self).events() + records(
                            1,
                            ConnPhase::Establish,
                            key.0,
                            key.1,
                        )
                    },
                }
                &&& result.1@.map_values(|k: TextPair| k@) == if outcome is Opened {
                    Seq::empty()
                } else {
                    waiting_keys(final(self).slots())
                }
                &&& total_in_use(final(self).slots()) == total_in_use(old(self).slots()) - (
                if outcome is Opened {
                    0int
                } else {
                    1int
                })
            }),
    {
        let persistent: bool = match self.transports.transport_for(TRANSPORT_KIND_DIRECT) {
            Some(form) => form.persistent,
            None => false,
        };
        let key = TextPair { first: resource.to_owned(), second: tier.to_owned() };
        let i: usize = self.locate(&key);
        let ghost located = *self;
        let ghost before = self.slots();
        let ghost rows = self.rows@;
        let ghost slot = before[i as int].1;
        let ghost recorded = self.events().len();
        proof {
            assert(slot_within(before[i as int].1, self.caps, self.form(), recorded));
            lemma_total_updated(before, i as int, before[i as int]);
        }
        let result = match outcome {
            ConnectOutcome::Opened(channel) => {
                self.rows[i].1.backoff.reset();
                self.rows[i].1.retry_after = None;
                let epoch: u64 = self.rows[i].1.abort_epoch;
                self.record(1, ConnPhase::Establish, resource, tier);
                Ok(Lease::new(channel, key.clone(), persistent, epoch))
            },
            ConnectOutcome::NoCredential => {
                self.rows[i].1.in_use = self.rows[i].1.in_use - 1;
                self.total = self.total - 1;
                Err(AcquireError::Credential)
            },
            ConnectOutcome::Unresolved => {
                self.rows[i].1.in_use = self.rows[i].1.in_use - 1;
                self.total = self.total - 1;
                Err(AcquireError::Resolve)
            },
            ConnectOutcome::Unreachable => {
                self.rows[i].1.in_use = self.rows[i].1.in_use - 1;
                self.total = self.total - 1;
                if persistent {
                    self.rows[i].1.back_off(now);
                }
                Err(AcquireError::Transport)
            },
        };
        let ghost after = settled(slot, outcome, persistent, now);
        proof {
            assert(states(self.rows@) =~= before.update(i as int, (key@, after)));
            lemma_slot_updated(before, states(self.rows@), i as int, after);
            lemma_rows_keep_order(rows, self.rows@);
            assert(recorded <= self.events().len());
            lemma_limits_recorded(before, self.caps, self.form(), recorded, self.events().len());
            lemma_limits_updated(
                before,
                i as int,
                after,
                self.caps,
                self.form(),
                self.events().len(),
            );
            assert forall|k: KeyView| k != key@ implies #[trigger] slot_in(states(self.rows@), k)
                == old(self).slot(k) by {
                assert(located.slot(k) == old(self).slot(k));
            }
        }
        let wakes: Vec<TextPair> = match result {
            Ok(_) => Vec::new(),
            Err(_) => self.waiting(),
        };
        proof {
            if outcome is Opened {
                assert(wakes@.map_values(|k: TextPair| k@) =~= Seq::<KeyView>::empty());
            }
        }
        (result, wakes)
    }

    /// Takes a lent connection back: pooled again where it may be, destroyed
    /// otherwise. A pooled connection that could not be cleaned leaves a record.
    ///
    /// Tells under which keys one waiting caller is to be woken.
    pub fn give_back(&mut self, lease: Lease<C>) -> (wakes: Vec<TextPair>)
        requires
            old(self).wf(),
            old(self).form() matches Some(form) && lease.persistent() == form.persistent,
            old(self).slot(lease.key()).in_use > 0,
        ensures
            final(self).wf(),
            final(self).same_setup(old(self)),
            final(self).slot(lease.key()) == given_back(old(self).slot(lease.key()), lease),
            forall|k: KeyView|
                k != lease.key() ==> #[trigger] final(self).slot(k) == old(self).slot(k),
            final(self).events() == old(self).events() + (if lease.persistent()
                && lease.damaged() {
                records(1, ConnPhase::Recycle, lease.key().0, lease.key().1)
            } else {
                Seq::empty()
            }),
            wakes@.map_values(|k: TextPair| k@) == waiting_keys(final(self).slots()),
            total_in_use(final(self).slots()) == total_in_use(old(self).slots()) - 1,
    {
        let parts = lease.into_parts();
        let i: usize = self.locate(&parts.key);
        let ghost located = *self;
        let ghost before = self.slots();
        let ghost rows = self.rows@;
        let ghost slot = before[i as int].1;
        let ghost recorded = self.events().len();
        proof {
            assert(slot_within(before[i as int].1, self.caps, self.form(), recorded));
            lemma_total_updated(before, i as int, before[i as int]);
        }
        self.rows[i].1.in_use = self.rows[i].1.in_use - 1;
        self.total = self.total - 1;
        if parts.persistent && parts.clean && self.rows[i].1.abort_epoch == parts.epoch {
            self.rows[i].1.idle.push(parts.channel);
        }
        let ghost after = given_back(slot, lease);
        proof {
            assert(states(self.rows@) =~= before.update(i as int, (parts.key@, after)));
        }
        if parts.persistent && !parts.clean {
            self.record(
                1,
                ConnPhase::Recycle,
                parts.key.first.as_str(),
                parts.key.second.as_str(),
            );
        }
        proof {
            lemma_slot_updated(before, states(self.rows@), i as int, after);
            lemma_rows_keep_order(rows, self.rows@);
            assert(recorded <= self.events().len());
            lemma_limits_recorded(before, self.caps, self.form(), recorded, self.events().len());
            lemma_limits_updated(
                before,
                i as int,
                after,
                self.caps,
                self.form(),
                self.events().len(),
            );
            assert forall|k: KeyView| k != lease.key() implies #[trigger] slot_in(
                states(self.rows@),
                k,
            ) == old(self).slot(k) by {
                assert(located.slot(k) == old(self).slot(k));
            }
        }
        self.waiting()
    }

    /// Cuts off every connection of a resource, under all tiers: idle ones are
    /// destroyed, and lent ones will not be pooled again.
    pub fn force_abort(&mut self, resource: &str)
        requires
            old(self).wf(),
        ensures
            final(self).wf(),
            final(self).same_setup(old(self)),
            forall|k: KeyView|
                #![trigger final(self).slot(k)]
                final(self).slot(k) == if k.0 == resource@ {
                    aborted(old(self).slot(k))
                } else {
                    old(self).slot(k)
                },
            final(self).events() == old(self).events() + abort_records(
                old(self).slots(),
                resource@,
            ),
            total_in_use(final(self).slots()) == total_in_use(old(self).slots()),
    {
        let ghost before = self.slots();
        let ghost rows = self.rows@;
        let mut i: usize = 0;
        assert(before.take(0) =~= Seq::<(KeyView, SlotState<C>)>::empty());
        while i < self.rows.len()
            invariant
                i <= self.rows@.len(),
                before == old(self).slots(),
                rows == old(self).rows@,
                old(self).wf(),
                self.rows@.len() == rows.len(),
                self.transports == old(self).transports,
                self.caps == old(self).caps,
                self.total == old(self).total,
                self.events() =~= old(self).events() + abort_records(
                    before.take(i as int),
                    resource@,
                ),
                forall|j: int|
                    0 <= j < rows.len() ==> (#[trigger] self.rows@[j]).0@ == rows[j].0@,
                forall|j: int|
                    i <= j < rows.len() ==> (#[trigger] self.rows@[j]).1@ == before[j].1,
                forall|j: int|
                    0 <= j < i ==> (#[trigger] self.rows@[j]).1@ == if before[j].0.0 == resource@ {
                        aborted(before[j].1)
                    } else {
                        before[j].1
                    },
                forall|j: int|
                    0 <= j < i ==> (#[trigger] self.rows@[j]).1@.epoch <= self.events().len(),
            decreases self.rows@.len() - i,
        {
            let ghost earlier = *self;
            proof {
                assert(before.take(i + 1).drop_last() =~= before.take(i as int));
                assert(before.take(i + 1).last() == before[i as int]);
                assert(slot_within(
                    before[i as int].1,
                    self.caps(),
                    self.form(),
                    old(self).events().len(),
                ));
                assert(self.rows@[i as int].1@ == before[i as int].1);
            }
            let key = self.rows[i].0.clone();
            if same_text(key.first.as_str(), resource) {
                let count: usize = self.rows[i].1.in_use + self.rows[i].1.idle.len();
                self.record(count, ConnPhase::Abort, key.first.as_str(), key.second.as_str());
                self.rows[i].1.idle.clear();
                if count > 0 {
                    proof {
                        let recorded: usize = self.events.len();
                        assert(self.rows@[i as int].1@.epoch == before[i as int].1.epoch);
                        assert(earlier.events().len() >= old(self).events().len());
                        assert(self.events().len() == earlier.events().len() + count);
                        assert(self.events().len() == recorded);
                    }
                    self.rows[i].1.abort_epoch = self.rows[i].1.abort_epoch + 1;
                }
                assert(self.rows@[i as int].1@ =~= aborted(before[i as int].1));
            }
            proof {
                assert forall|j: int| 0 <= j < rows.len() && j != i implies (
                #[trigger] self.rows@[j]) == earlier.rows@[j] by {}
            }
            i = i + 1;
        }
        proof {
            assert(before.take(before.len() as int) =~= before);
            let after = self.slots();
            lemma_rows_keep_order(rows, self.rows@);
            lemma_same_keys(before, after);
            lemma_total_same(before, after);
            assert forall|k: KeyView|
                #![trigger slot_in(after, k)]
                slot_in(after, k) == if k.0 == resource@ {
                    aborted(slot_in(before, k))
                } else {
                    slot_in(before, k)
                } by {
                lemma_mapped(
                    before,
                    after,
                    k,
                    if k.0 == resource@ {
                        aborted(slot_in(before, k))
                    } else {
                        slot_in(before, k)
                    },
                );
            }
            assert forall|j: int| 0 <= j < after.len() implies slot_within(
                (#[trigger] after[j]).1,
                self.caps(),
                self.form(),
                self.events().len(),
            ) by {
                assert(slot_within(
                    before[j].1,
                    self.caps(),
                    self.form(),
                    old(self).events().len(),
                ));
                assert(self.rows@[j].1@.epoch <= self.events().len());
            }
        }
    }

    /// Drops the idle connections of a resource as dead, under all tiers, and backs
    /// those keys off.
    pub fn health_evict(&mut self, resource: &str, now: u64)
        requires
            old(self).wf(),
        ensures
            final(self).wf(),
            final(self).same_setup(old(self)),
            forall|k: KeyView|
                #![trigger final(self).slot(k)]
                final(self).slot(k) == if k.0 == resource@ {
                    evicted(old(self).slot(k), now)
                } else {
                    old(self).slot(k)
                },
            final(self).events() == old(self).events() + evict_records(
                old(self).slots(),
                resource@,
            ),
            total_in_use(final(self).slots()) == total_in_use(old(self).slots()),
    {
        let ghost before = self.slots();
        let ghost rows = self.rows@;
        let mut i: usize = 0;
        assert(before.take(0) =~= Seq::<(KeyView, SlotState<C>)>::empty());
        while i < self.rows.len()
            invariant
                i <= self.rows@.len(),
                before == old(self).slots(),
                rows == old(self).rows@,
                self.rows@.len() == rows.len(),
                self.transports == old(self).transports,
                self.caps == old(self).caps,
                self.total == old(self).total,
                self.events() =~= old(self).events() + evict_records(
                    before.take(i as int),
                    resource@,
                ),
                forall|j: int|
                    0 <= j < rows.len() ==> (#[trigger] self.rows@[j]).0@ == rows[j].0@,
                forall|j: int|
                    i <= j < rows.len() ==> (#[trigger] self.rows@[j]).1@ == before[j].1,
                forall|j: int|
                    0 <= j < i ==> (#[trigger] self.rows@[j]).1@ == if before[j].0.0 == resource@ {
                        evicted(before[j].1, now)
                    } else {
                        before[j].1
                    },
            decreases self.rows@.len() - i,
        {
            let ghost earlier = *self;
            proof {
                assert(before.take(i + 1).drop_last() =~= before.take(i as int));
                assert(before.take(i + 1).last() == before[i as int]);
                assert(self.rows@[i as int].1@ == before[i as int].1);
            }
            let key = self.rows[i].0.clone();
            if same_text(key.first.as_str(), resource) {
                let count: usize = self.rows[i].1.idle.len();
                self.record(count, ConnPhase::HealthEvict, key.first.as_str(), key.second.as_str());
                if count > 0 {
                    self.rows[i].1.idle.clear();
                    assert(self.rows@[i as int].1@ =~= SlotState {
                        idle: Seq::empty(),
                        ..before[i as int].1
                    });
                    self.rows[i].1.back_off(now);
                }
            }
            proof {
                assert forall|j: int| 0 <= j < rows.len() && j != i implies (
                #[trigger] self.rows@[j]) == earlier.rows@[j] by {}
            }
            i = i + 1;
        }
        proof {
            assert(before.take(before.len() as int) =~= before);
            let after = self.slots();
            lemma_rows_keep_order(rows, self.rows@);
            lemma_same_keys(before, after);
            lemma_total_same(before, after);
            assert forall|k: KeyView|
                #![trigger slot_in(after, k)]
                slot_in(after, k) == if k.0 == resource@ {
                    evicted(slot_in(before, k), now)
                } else {
                    slot_in(before, k)
                } by {
                lemma_mapped(
                    before,
                    after,
                    k,
                    if k.0 == resource@ {
                        evicted(slot_in(before, k), now)
                    } else {
                        slot_in(before, k)
                    },
                );
            }
            assert forall|j: int| 0 <= j < after.len() implies slot_within(
                (#[trigger] after[j]).1,
                self.caps(),
                self.form(),
                self.events().len(),
            ) by {
                assert(slot_within(
                    before[j].1,
                    self.caps(),
                    self.form(),
                    old(self).events().len(),
                ));
            }
        }
    }

    /// The records of the connections' lives so far.
    pub fn recorded_events(&self) -> (events: Vec<ConnectionEvent>)
        ensures
            events@.map_values(|e: ConnectionEvent| e@) == self.events(),
    {
        let mut out: Vec<ConnectionEvent> = Vec::new();
        let mut i: usize = 0;
        while i < self.events.len()
            invariant
                i <= self.events@.len(),
                out@ == self.events@.take(i as int),
            decreases self.events@.len() - i,
        {
            out.push(self.events[i].clone());
            i = i + 1;
        }
        assert(out@ =~= self.events@);
        out
    }
}

proof fn lemma_rows_keep_order<C>(
    before: Seq<(TextPair, KeySlot<C>)>,
    after: Seq<(TextPair, KeySlot<C>)>,
)
    requires
        ascending(before),
        after.len() == before.len(),
        forall|j: int| 0 <= j < before.len() ==> (#[trigger] after[j]).0@ == before[j].0@,
    ensures
        ascending(after),
{
    assert forall|i: int, j: int| 0 <= i < j < after.len() implies #[trigger] TextPair::before(
        after[i].0@,
        after[j].0@,
    ) by {
        assert(TextPair::before(before[i].0@, before[j].0@));
    }
}

proof fn lemma_limits_updated<C>(
    slots: Seq<(KeyView, SlotState<C>)>,
    i: int,
    slot: SlotState<C>,
    caps: PoolCaps,
    form: Option<TransportForm>,
    recorded: nat,
)
    requires
        0 <= i < slots.len(),
        within_limits(slots, caps, form, recorded),
        slot_within(slot, caps, form, recorded),
        total_in_use(slots.update(i, (slots[i].0, slot))) <= caps.global,
    ensures
        within_limits(slots.update(i, (slots[i].0, slot)), caps, form, recorded),
{
}

proof fn lemma_waiting_inserted<C>(slots: Seq<(KeyView, SlotState<C>)>, i: int, key: KeyView)
    requires
        0 <= i <= slots.len(),
    ensures
        waiting_keys(slots.insert(i, (key, unused_slot()))) == waiting_keys(slots),
    decreases slots.len(),
{
    let after = slots.insert(i, (key, unused_slot()));
    if i == slots.len() {
        assert(after.drop_last() =~= slots);
    } else {
        lemma_waiting_inserted(slots.drop_last(), i, key);
        assert(after.drop_last() =~= slots.drop_last().insert(i, (key, unused_slot())));
        assert(after.last() == slots.last());
    }
}

proof fn lemma_limits_recorded<C>(
    slots: Seq<(KeyView, SlotState<C>)>,
    caps: PoolCaps,
    form: Option<TransportForm>,
    fewer: nat,
    more: nat,
)
    requires
        within_limits(slots, caps, form, fewer),
        fewer <= more,
    ensures
        within_limits(slots, caps, form, more),
{
    assert forall|i: int| 0 <= i < slots.len() implies slot_within(
        (#[trigger] slots[i]).1,
        caps,
        form,
        more,
    ) by {
        assert(slot_within(slots[i].1, caps, form, fewer));
    }
}

/// A key's state follows from its row, where every row was changed in one way that
/// leaves an unused key unused.
proof fn lemma_mapped<C>(
    before: Seq<(KeyView, SlotState<C>)>,
    after: Seq<(KeyView, SlotState<C>)>,
    key: KeyView,
    changed: SlotState<C>,
)
    requires
        distinct_keys(before),
        distinct_keys(after),
        after.len() == before.len(),
        forall|j: int| 0 <= j < before.len() ==> (#[trigger] after[j]).0 == before[j].0,
        forall|j: int|
            0 <= j < before.len() && before[j].0 == key && slot_in(before, key) == before[j].1
                ==> (#[trigger] after[j]).1 == changed,
        slot_in(before, key) == unused_slot::<C>() ==> changed == unused_slot::<C>(),
    ensures
        slot_in(after, key) == changed,
{
    if exists|j: int| 0 <= j < before.len() && (#[trigger] before[j]).0 == key {
        let j = choose|j: int| 0 <= j < before.len() && (#[trigger] before[j]).0 == key;
        assert(after[j].0 == key);
        lemma_slot_of_row(before, j);
        lemma_slot_of_row(after, j);
    } else if exists|j: int| 0 <= j < after.len() && (#[trigger] after[j]).0 == key {
        let j = choose|j: int| 0 <= j < after.len() && (#[trigger] after[j]).0 == key;
        assert(before[j].0 == key);
    }
}

/// Under every key the pool keeps to its limits: live connections to the limit
/// per key, queued callers to the seats of the queue, and connections in use of all
/// keys together to the global limit.
pub proof fn limits_hold<C>(pool: &ConnPool<C>, key: KeyView)
    requires
        pool.wf(),
    ensures
        live(pool.slot(key)) <= pool.caps().per_key,
        pool.slot(key).waiters <= pool.caps().queue,
        pool.slot(key).in_use <= total_in_use(pool.slots()) <= pool.caps().global,
{
    let slots = pool.slots();
    if exists|i: int| 0 <= i < slots.len() && (#[trigger] slots[i]).0 == key {
        let i = choose|i: int| 0 <= i < slots.len() && (#[trigger] slots[i]).0 == key;
        lemma_slot_of_row(slots, i);
        lemma_total_updated(slots, i, slots[i]);
        assert(slot_within(slots[i].1, pool.caps(), pool.form(), pool.events().len()));
    }
}

/// The keys to wake are those, and only those, under which a caller is queued.
pub proof fn wakes_reach_the_queued<C>(slots: Seq<(KeyView, SlotState<C>)>, key: KeyView)
    requires
        distinct_keys(slots),
    ensures
        waiting_keys(slots).contains(key) <==> slot_in(slots, key).waiters > 0,
{
    lemma_waiting_rows(slots, key);
    if exists|i: int| 0 <= i < slots.len() && (#[trigger] slots[i]).0 == key {
        let i = choose|i: int| 0 <= i < slots.len() && (#[trigger] slots[i]).0 == key;
        lemma_slot_of_row(slots, i);
        assert forall|j: int|
            0 <= j < slots.len() && (#[trigger] slots[j]).0 == key implies slots[j].1
            == slots[i].1 by {
            lemma_slot_of_row(slots, j);
        }
    }
}

proof fn lemma_waiting_rows<C>(slots: Seq<(KeyView, SlotState<C>)>, key: KeyView)
    ensures
        waiting_keys(slots).contains(key) <==> exists|i: int|
            0 <= i < slots.len() && (#[trigger] slots[i]).0 == key && slots[i].1.waiters > 0,
    decreases slots.len(),
{
    if slots.len() > 0 {
        let shorter = slots.drop_last();
        let before = waiting_keys(shorter);
        lemma_waiting_rows(shorter, key);
        if slots.last().1.waiters > 0 {
            let all = before.push(slots.last().0);
            if before.contains(key) {
                let m = choose|m: int| 0 <= m < before.len() && before[m] == key;
                assert(all[m] == key);
            }
            assert(all[before.len() as int] == slots.last().0);
            if all.contains(key) && !before.contains(key) {
                assert(slots[slots.len() - 1].0 == key);
            }
        }
        if exists|i: int|
            0 <= i < shorter.len() && (#[trigger] shorter[i]).0 == key && shorter[i].1.waiters
                > 0 {
            let i = choose|i: int|
                0 <= i < shorter.len() && (#[trigger] shorter[i]).0 == key && shorter[i].1.waiters
                    > 0;
            assert(slots[i].0 == key);
        }
        if exists|i: int|
            0 <= i < slots.len() && (#[trigger] slots[i]).0 == key && slots[i].1.waiters > 0 {
            let i = choose|i: int|
                0 <= i < slots.len() && (#[trigger] slots[i]).0 == key && slots[i].1.waiters > 0;
            if i < shorter.len() {
                assert(shorter[i].0 == key);
            }
        }
    }
}

/// After a transport failure no new connection is opened under the key until the
/// window is over: whoever asks is refused, unless an idle connection can be lent. The
/// window lasts at least the base and at most the cap, but for where the clock ends.
pub proof fn no_reconnect_inside_the_window<C>(
    form: TransportForm,
    caps: PoolCaps,
    slot: SlotState<C>,
    total: nat,
    queued: bool,
    failed: u64,
    now: u64,
)
    requires
        form.persistent,
    ensures
        ({
            let after = settled(slot, ConnectOutcome::Unreachable, true, failed);
            let verdict = verdict(Some(form), caps, after, total, queued, now);
            &&& after.retry_after matches Some(end) && {
                &&& end <= failed + BACKOFF_CAP
                &&& failed + BACKOFF_BASE <= end || end == u64::MAX
                &&& now < end ==> verdict is BackingOff || verdict is Reuse
                &&& now < end && slot.idle.len() == 0 ==> verdict is BackingOff
            }
        }),
{
    delay_is_bounded(one_more(slot.failures));
}

/// An attempt to connect that fails leaves the key as it was before the seat was
/// taken, but for the queue and the backoff: the seat is free again, and nothing
/// became idle.
pub proof fn failed_attempts_give_the_seat_back<C>(
    slot: SlotState<C>,
    queued: bool,
    outcome: ConnectOutcome<C>,
    persistent: bool,
    now: u64,
)
    requires
        outcome !is Opened,
    ensures
        ({
            let after = settled(
                admitted(slot, Verdict::Connect, queued),
                outcome,
                persistent,
                now,
            );
            &&& after.in_use == slot.in_use
            &&& after.idle == slot.idle
            &&& after.epoch == slot.epoch
        }),
{
}

/// Dead idle connections are gone, and their key is backed off: until the window is
/// over, whoever asks is refused while nothing came back to be lent. What is lent,
/// the queue and the epoch stay; a key without idle connections stays as it is.
pub proof fn dead_connections_back_off<C>(
    form: Option<TransportForm>,
    caps: PoolCaps,
    slot: SlotState<C>,
    total: nat,
    queued: bool,
    found: u64,
    now: u64,
)
    requires
        form is Some,
    ensures
        ({
            let after = evicted(slot, found);
            &&& after.idle.len() == 0
            &&& after.in_use == slot.in_use
            &&& after.waiters == slot.waiters
            &&& after.epoch == slot.epoch
            &&& slot.idle.len() == 0 ==> after == slot
            &&& slot.idle.len() > 0 ==> {
                &&& after.failures == one_more(slot.failures)
                &&& after.retry_after matches Some(end) && {
                    &&& end <= found + BACKOFF_CAP
                    &&& found + BACKOFF_BASE <= end || end == u64::MAX
                    &&& now < end ==> verdict(form, caps, after, total, queued, now) is BackingOff
                }
            }
        }),
{
    delay_is_bounded(one_more(slot.failures));
}

/// How often a record stands in a log.
pub open spec fn times(events: Seq<ConnectionFacts>, event: ConnectionFacts) -> nat
    decreases events.len(),
{
    if events.len() == 0 {
        0
    } else {
        times(events.drop_last(), event) + if events.last() == event {
            1nat
        } else {
            0nat
        }
    }
}

proof fn lemma_times_joined(
    one: Seq<ConnectionFacts>,
    other: Seq<ConnectionFacts>,
    event: ConnectionFacts,
)
    ensures
        times(one + other, event) == times(one, event) + times(other, event),
    decreases other.len(),
{
    if other.len() == 0 {
        assert(one + other =~= one);
    } else {
        lemma_times_joined(one, other.drop_last(), event);
        assert((one + other).drop_last() =~= one + other.drop_last());
        assert((one + other).last() == other.last());
    }
}

proof fn lemma_times_of_records(
    count: nat,
    phase: ConnPhase,
    resource: Seq<char>,
    tier: Seq<char>,
    event: ConnectionFacts,
)
    ensures
        times(records(count, phase, resource, tier), event) == if event == (ConnectionFacts {
            phase,
            resource,
            tier,
            transport_kind: TRANSPORT_KIND_DIRECT@,
        }) {
            count
        } else {
            0
        },
    decreases count,
{
    if count > 0 {
        let fewer = (count - 1) as nat;
        lemma_times_of_records(fewer, phase, resource, tier, event);
        assert(records(count, phase, resource, tier).drop_last() =~= records(
            fewer,
            phase,
            resource,
            tier,
        ));
    }
}

/// Every idle connection of a resource that was found dead leaves one record, by its
/// tier; nothing else leaves any.
pub proof fn one_record_per_dead_connection<C>(
    slots: Seq<(KeyView, SlotState<C>)>,
    resource: Seq<char>,
    event: ConnectionFacts,
)
    requires
        distinct_keys(slots),
    ensures
        times(evict_records(slots, resource), event) == if event.phase == ConnPhase::HealthEvict
            && event.resource == resource && event.transport_kind == TRANSPORT_KIND_DIRECT@ {
            slot_in(slots, (resource, event.tier)).idle.len()
        } else {
            0
        },
    decreases slots.len(),
{
    let key = (resource, event.tier);
    if slots.len() > 0 {
        let shorter = slots.drop_last();
        let last = slots.last();
        assert(distinct_keys(shorter)) by {
            assert forall|i: int, j: int| 0 <= i < j < shorter.len() implies (
            #[trigger] shorter[i]).0 != (#[trigger] shorter[j]).0 by {
                assert(slots[i].0 != slots[j].0);
            }
        }
        one_record_per_dead_connection(shorter, resource, event);
        let more = if last.0.0 == resource {
            records(last.1.idle.len(), ConnPhase::HealthEvict, last.0.0, last.0.1)
        } else {
            Seq::empty()
        };
        lemma_times_joined(evict_records(shorter, resource), more, event);
        lemma_times_of_records(
            last.1.idle.len(),
            ConnPhase::HealthEvict,
            last.0.0,
            last.0.1,
            event,
        );
        if last.0 == key {
            lemma_slot_of_row(slots, slots.len() - 1);
            if exists|i: int| 0 <= i < shorter.len() && (#[trigger] shorter[i]).0 == key {
                let i = choose|i: int| 0 <= i < shorter.len() && (#[trigger] shorter[i]).0 == key;
                assert(slots[i].0 != slots[slots.len() - 1].0);
            }
        } else if exists|i: int| 0 <= i < slots.len() && (#[trigger] slots[i]).0 == key {
            let i = choose|i: int| 0 <= i < slots.len() && (#[trigger] slots[i]).0 == key;
            assert(shorter[i] == slots[i]);
            lemma_slot_of_row(slots, i);
            lemma_slot_of_row(shorter, i);
        } else if exists|i: int| 0 <= i < shorter.len() && (#[trigger] shorter[i]).0 == key {
            let i = choose|i: int| 0 <= i < shorter.len() && (#[trigger] shorter[i]).0 == key;
            assert(slots[i].0 == key);
        }
    }
}

/// A connection that was lent when its key was cut off is not pooled again, and
/// neither is a damaged one.
pub proof fn cut_off_or_damaged_is_not_pooled<C>(slot: SlotState<C>, lease: Lease<C>)
    requires
        slot.in_use > 0,
        lease.epoch() <= slot.epoch,
    ensures
        !returns_to_pool(aborted(slot), lease),
        lease.damaged() ==> !returns_to_pool(slot, lease),
{
}

/// An idle connection that is lent and comes back unharmed leaves its key as it
/// was.
pub proof fn lending_is_undone_by_return<C>(slot: SlotState<C>, lease: Lease<C>, key: KeyView)
    requires
        slot.idle.len() > 0,
        tells(Admission::Lend(lease), Verdict::Reuse, slot, key),
    ensures
        given_back(admitted(slot, Verdict::Reuse, false), lease) == slot,
{
    assert(slot.idle.drop_last().push(slot.idle.last()) =~= slot.idle);
}

/// Keys do not share connections, and so neither do tiers: one that is lent was idle
/// under the very key it is asked for, and what is idle under a key after a return
/// was idle there before or was lent under it.
pub proof fn keys_do_not_share<C>(
    slot: SlotState<C>,
    admission: Admission<C>,
    verdict: Verdict,
    key: KeyView,
    returned: Lease<C>,
    idle: C,
)
    requires
        tells(admission, verdict, slot, key),
        verdict is Reuse ==> slot.idle.len() > 0,
    ensures
        admission matches Admission::Lend(lease) ==> lease.key() == key && slot.idle.contains(
            lease.channel(),
        ),
        given_back(slot, returned).idle.contains(idle) ==> slot.idle.contains(idle) || idle
            == returned.channel(),
{
    if verdict is Reuse {
        assert(slot.idle[slot.idle.len() - 1] == slot.idle.last());
    }
    let after = given_back(slot, returned).idle;
    if after.contains(idle) {
        let i = choose|i: int| 0 <= i < after.len() && after[i] == idle;
        if i < slot.idle.len() {
            assert(slot.idle[i] == idle);
        }
    }
}

/// A transport that is not persistent is never backed off.
pub proof fn unpooled_transports_never_back_off<C>(slot: SlotState<C>, now: u64)
    requires
        slot.retry_after is None,
    ensures
        settled(slot, ConnectOutcome::Unreachable, false, now).retry_after is None,
{
}

} // verus!
