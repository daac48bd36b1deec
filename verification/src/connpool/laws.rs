//! What the pool does to a key, stated of its connections, its queue and its window.

use super::backoff::delay_doubles_up_to_a_minute;
use super::lease::Lease;
use super::pool::{
    abort_records, aborted, admitted, backed_off, distinct_keys, end_of_delay, evicted, given_back,
    left_queue, live, one_more, records, returns_to_pool, settled, slot_in, tells, times,
    total_in_use, verdict, waiting_keys, Admission, ConnectOutcome, ConnPool, KeyView,
    PoolCaps, SlotState, TransportForm, Verdict, TRANSPORT_KIND_DIRECT,
};
use super::{AcquireError, ConnPhase, ConnectionEvent, ConnectionFacts};
use vstd::prelude::*;

verus! {

/// A request for a connection is refused where no transport is registered. It gets an
/// idle connection where connections are pooled, one is idle and the pool is not full.
/// Otherwise it is refused inside the backoff window; opens a connection where both the
/// key and the pool have room; waits where it is queued already or the queue has a seat;
/// and is refused where neither is so.
pub proof fn requests_are_decided_by_room_and_window<C>(
    form: Option<TransportForm>,
    caps: PoolCaps,
    slot: SlotState<C>,
    total: nat,
    queued: bool,
    now: u64,
)
    ensures
        ({
            let v = verdict(form, caps, slot, total, queued, now);
            let lends = form is Some && form->0.persistent && slot.idle.len() > 0 && total
                < caps.global;
            let window = slot.retry_after is Some && now < slot.retry_after->0;
            let room = slot.in_use < caps.per_key && total < caps.global;
            let seat = queued || slot.waiters < caps.queue;
            &&& v is NoTransport <==> form is None
            &&& v is Reuse <==> lends
            &&& v is BackingOff <==> form is Some && !lends && window
            &&& v is Connect <==> form is Some && !lends && !window && room
            &&& v is Wait <==> form is Some && !lends && !window && !room && seat
            &&& v is Full <==> form is Some && !lends && !window && !room && !seat
        }),
{
}

/// Inside the window no connection is opened, and at its end one may be.
pub proof fn window_ends_at_its_instant<C>(
    form: TransportForm,
    caps: PoolCaps,
    slot: SlotState<C>,
    total: nat,
    queued: bool,
    now: u64,
    end: u64,
)
    requires
        slot.retry_after == Some(end),
        slot.idle.len() == 0,
        slot.in_use < caps.per_key,
        total < caps.global,
    ensures
        now < end ==> verdict(Some(form), caps, slot, total, queued, now) is BackingOff,
        now >= end ==> verdict(Some(form), caps, slot, total, queued, now) is Connect,
{
}

/// A caller that is lent or may open a connection takes one place, and leaves the queue if
/// it stood there; one that is told to wait takes a seat unless it has one; one that is
/// refused for want of room takes nothing. The connection that is lent is the one that
/// became idle last. A window that was asked after outside of it is gone.
pub proof fn admission_takes_one_place<C>(slot: SlotState<C>, v: Verdict, queued: bool)
    ensures
        admitted(slot, v, queued).in_use == slot.in_use + (if v is Reuse || v is Connect {
            1nat
        } else {
            0nat
        }),
        v is Reuse && slot.idle.len() > 0 ==> admitted(slot, v, queued).idle == slot.idle.take(
            slot.idle.len() - 1,
        ),
        !(v is Reuse) ==> admitted(slot, v, queued).idle == slot.idle,
        (v is Reuse || v is Connect || v is BackingOff) && queued && slot.waiters > 0 ==> admitted(
            slot,
            v,
            queued,
        ).waiters == slot.waiters - 1,
        (v is Reuse || v is Connect || v is BackingOff) && !queued ==> admitted(
            slot,
            v,
            queued,
        ).waiters == slot.waiters,
        v is Wait && queued ==> admitted(slot, v, queued).waiters == slot.waiters,
        v is Wait && !queued ==> admitted(slot, v, queued).waiters == slot.waiters + 1,
        v is Full || v is NoTransport ==> admitted(slot, v, queued).waiters == slot.waiters,
        v is Connect || v is Wait || v is Full ==> admitted(slot, v, queued).retry_after is None,
        v is Reuse || v is BackingOff || v is NoTransport ==> admitted(slot, v, queued).retry_after
            == slot.retry_after,
        admitted(slot, v, queued).epoch == slot.epoch,
        admitted(slot, v, queued).failures == slot.failures,
{
}

/// Only a caller that stands in the queue leaves it, one at a time.
pub proof fn one_caller_leaves_the_queue(waiters: nat)
    ensures
        left_queue(waiters, false) == waiters,
        left_queue(0, true) == 0,
        waiters > 0 ==> left_queue(waiters, true) == waiters - 1,
{
}

/// What a caller is told is what was decided: a connection that is lent is the one that
/// became idle last, under the very key and the current epoch, and not damaged; each
/// refusal names its own reason.
pub proof fn callers_are_told_the_decision<C>(
    admission: Admission<C>,
    v: Verdict,
    slot: SlotState<C>,
    key: KeyView,
)
    requires
        tells(admission, v, slot, key),
    ensures
        admission is Lend <==> v is Reuse,
        admission matches Admission::Lend(lease) ==> lease.channel() == slot.idle[slot.idle.len()
            - 1] && !lease.damaged() && lease.key() == key && lease.persistent() && lease.epoch()
            == slot.epoch,
        admission is Connect <==> v is Connect,
        admission is Wait <==> v is Wait,
        v is NoTransport ==> admission == Admission::<C>::Deny(AcquireError::NoTransport),
        v is BackingOff ==> admission == Admission::<C>::Deny(AcquireError::BackoffActive),
        v is Full ==> admission == Admission::<C>::Deny(AcquireError::CapacityExceeded),
{
}

/// One failure more opens a window of one second after the first failure, of two, four,
/// eight, sixteen and thirty-two after the next, each lengthened by less than a quarter,
/// and of one minute from the seventh on, or up to where the clock ends. Nothing but the
/// count of failures and the window changes.
pub proof fn failures_open_the_window<C>(slot: SlotState<C>, now: u64)
    requires
        now + 60000 <= u64::MAX,
    ensures
        slot.failures < u32::MAX ==> backed_off(slot, now).failures == slot.failures + 1,
        slot.failures == u32::MAX ==> backed_off(slot, now).failures == slot.failures,
        backed_off(slot, now).retry_after matches Some(end) && {
            &&& slot.failures == 0 ==> now + 1000 <= end < now + 1250
            &&& slot.failures == 1 ==> now + 2000 <= end < now + 2500
            &&& slot.failures == 2 ==> now + 4000 <= end < now + 5000
            &&& slot.failures == 3 ==> now + 8000 <= end < now + 10000
            &&& slot.failures == 4 ==> now + 16000 <= end < now + 20000
            &&& slot.failures == 5 ==> now + 32000 <= end < now + 40000
            &&& slot.failures >= 6 ==> end == now + 60000
        },
        backed_off(slot, now).idle == slot.idle,
        backed_off(slot, now).in_use == slot.in_use,
        backed_off(slot, now).epoch == slot.epoch,
        backed_off(slot, now).waiters == slot.waiters,
{
    delay_doubles_up_to_a_minute(one_more(slot.failures));
}

/// A delay ends where it leads, and at the last instant where that lies beyond it.
pub proof fn delays_end_where_they_lead(now: u64, delay: u64)
    ensures
        now + delay <= u64::MAX ==> end_of_delay(now, delay) == now + delay,
        now + delay > u64::MAX ==> end_of_delay(now, delay) == u64::MAX,
{
}

/// An attempt that opened a connection keeps its place and ends the backoff. One that
/// failed gives its place back; only an unreachable transport whose connections are pooled
/// counts as a failure, and a missing credential or address does not.
pub proof fn attempts_settle_by_their_outcome<C>(
    slot: SlotState<C>,
    channel: C,
    persistent: bool,
    now: u64,
)
    requires
        slot.in_use > 0,
    ensures
        settled(slot, ConnectOutcome::Opened(channel), persistent, now) == (SlotState {
            failures: 0,
            retry_after: None,
            ..slot
        }),
        settled(slot, ConnectOutcome::<C>::NoCredential, persistent, now) == (SlotState {
            in_use: (slot.in_use - 1) as nat,
            ..slot
        }),
        settled(slot, ConnectOutcome::<C>::Unresolved, persistent, now) == (SlotState {
            in_use: (slot.in_use - 1) as nat,
            ..slot
        }),
        settled(slot, ConnectOutcome::<C>::Unreachable, false, now) == (SlotState {
            in_use: (slot.in_use - 1) as nat,
            ..slot
        }),
        settled(slot, ConnectOutcome::<C>::Unreachable, true, now).in_use == slot.in_use - 1,
        settled(slot, ConnectOutcome::<C>::Unreachable, true, now).idle == slot.idle,
        settled(slot, ConnectOutcome::<C>::Unreachable, true, now).waiters == slot.waiters,
        slot.failures < u32::MAX ==> settled(
            slot,
            ConnectOutcome::<C>::Unreachable,
            true,
            now,
        ).failures == slot.failures + 1,
        settled(slot, ConnectOutcome::<C>::Unreachable, true, now).retry_after is Some,
{
}

/// A connection that comes back is pooled exactly where it may be pooled, is not damaged
/// and was lent since the last cut; it then becomes the one to be lent next. Pooled or
/// not, its place is free again and nothing else changes.
pub proof fn returned_connections_are_pooled_or_destroyed<C>(slot: SlotState<C>, lease: Lease<C>)
    requires
        slot.in_use > 0,
    ensures
        returns_to_pool(slot, lease) <==> lease.persistent() && !lease.damaged() && lease.epoch()
            == slot.epoch,
        given_back(slot, lease).in_use == slot.in_use - 1,
        lease.persistent() && !lease.damaged() && lease.epoch() == slot.epoch ==> given_back(
            slot,
            lease,
        ).idle == slot.idle + seq![lease.channel()],
        !lease.persistent() || lease.damaged() || lease.epoch() != slot.epoch ==> given_back(
            slot,
            lease,
        ).idle == slot.idle,
        given_back(slot, lease).epoch == slot.epoch,
        given_back(slot, lease).failures == slot.failures,
        given_back(slot, lease).retry_after == slot.retry_after,
        given_back(slot, lease).waiters == slot.waiters,
{
    assert(slot.idle.push(lease.channel()) =~= slot.idle + seq![lease.channel()]);
}

/// To cut a key off drops its idle connections and begins a new epoch, where there was any
/// connection at all, lent or idle. What is lent stays counted until it comes back, and
/// neither the queue nor the backoff changes.
pub proof fn cutting_off_begins_an_epoch<C>(slot: SlotState<C>)
    ensures
        live(slot) == slot.in_use + slot.idle.len(),
        aborted(slot).idle.len() == 0,
        slot.in_use > 0 || slot.idle.len() > 0 ==> aborted(slot).epoch == slot.epoch + 1,
        slot.in_use == 0 && slot.idle.len() == 0 ==> aborted(slot).epoch == slot.epoch,
        aborted(slot).in_use == slot.in_use,
        aborted(slot).failures == slot.failures,
        aborted(slot).retry_after == slot.retry_after,
        aborted(slot).waiters == slot.waiters,
{
}

/// Dead idle connections are dropped and count as one failure, however many they are; a
/// key without idle connections is left as it is.
pub proof fn eviction_counts_one_failure<C>(slot: SlotState<C>, now: u64)
    ensures
        slot.idle.len() == 0 ==> evicted(slot, now) == slot,
        slot.idle.len() > 0 ==> evicted(slot, now).idle.len() == 0 && evicted(slot, now).retry_after
            is Some && (slot.failures < u32::MAX ==> evicted(slot, now).failures == slot.failures
            + 1),
        evicted(slot, now).in_use == slot.in_use,
        evicted(slot, now).epoch == slot.epoch,
        evicted(slot, now).waiters == slot.waiters,
{
}

/// Records of one kind are alike: as many as there are connections, each by the phase, the
/// resource, the tier and the direct transport, and by nothing else.
pub proof fn records_are_by_resource_and_tier(
    count: nat,
    phase: ConnPhase,
    resource: Seq<char>,
    tier: Seq<char>,
    i: int,
)
    ensures
        records(count, phase, resource, tier).len() == count,
        0 <= i < count ==> records(count, phase, resource, tier)[i].phase == phase && records(
            count,
            phase,
            resource,
            tier,
        )[i].resource == resource && records(count, phase, resource, tier)[i].tier == tier
            && records(count, phase, resource, tier)[i].transport_kind == "direct"@,
        TRANSPORT_KIND_DIRECT@ == "direct"@,
{
}

/// A key that was never used has nothing: no connection, no failure, no window, no caller
/// in its queue.
pub proof fn unused_key_has_nothing<C>(slots: Seq<(KeyView, SlotState<C>)>, key: KeyView)
    requires
        forall|i: int| 0 <= i < slots.len() ==> (#[trigger] slots[i]).0 != key,
    ensures
        slot_in(slots, key).idle.len() == 0,
        slot_in(slots, key).in_use == 0,
        slot_in(slots, key).epoch == 0,
        slot_in(slots, key).failures == 0,
        slot_in(slots, key).retry_after is None,
        slot_in(slots, key).waiters == 0,
{
}

/// A key that was used has the state of its row.
pub proof fn used_key_has_its_row<C>(slots: Seq<(KeyView, SlotState<C>)>, i: int)
    requires
        distinct_keys(slots),
        0 <= i < slots.len(),
    ensures
        slot_in(slots, slots[i].0) == slots[i].1,
{
    let key = slots[i].0;
    let j = choose|j: int| 0 <= j < slots.len() && (#[trigger] slots[j]).0 == key;
    if i < j || j < i {
        assert(slots[i].0 != slots[j].0);
    }
}

/// The connections in use of all keys are the sum over the keys, and each key under which
/// a caller is queued is woken once, in key order.
pub proof fn keys_add_up<C>(
    slots: Seq<(KeyView, SlotState<C>)>,
    key: KeyView,
    slot: SlotState<C>,
)
    ensures
        total_in_use(Seq::<(KeyView, SlotState<C>)>::empty()) == 0,
        total_in_use(slots.push((key, slot))) == total_in_use(slots) + slot.in_use,
        waiting_keys(Seq::<(KeyView, SlotState<C>)>::empty()).len() == 0,
        slot.waiters > 0 ==> waiting_keys(slots.push((key, slot))) == waiting_keys(slots) + seq![
            key,
        ],
        slot.waiters == 0 ==> waiting_keys(slots.push((key, slot))) == waiting_keys(slots),
{
    assert(slots.push((key, slot)).drop_last() =~= slots);
    assert(waiting_keys(slots).push(key) =~= waiting_keys(slots) + seq![key]);
}

/// Under every key the lent and the idle connections together keep to the limit per key,
/// the queue to its seats, and no connection is idle where connections are not pooled; all
/// keys together keep to the global limit.
pub proof fn pool_keeps_to_its_limits<C>(pool: &ConnPool<C>, key: KeyView)
    requires
        pool.wf(),
    ensures
        pool.slot(key).in_use + pool.slot(key).idle.len() <= pool.caps().per_key,
        pool.slot(key).waiters <= pool.caps().queue,
        total_in_use(pool.slots()) <= pool.caps().global,
        pool.form() is None || !pool.form()->0.persistent ==> pool.slot(key).idle.len() == 0,
{
    let slots = pool.slots();
    if exists|i: int| 0 <= i < slots.len() && (#[trigger] slots[i]).0 == key {
        let i = choose|i: int| 0 <= i < slots.len() && (#[trigger] slots[i]).0 == key;
        used_key_has_its_row(slots, i);
    }
}

/// To cut a resource off leaves one record for each of its connections, lent or idle, by
/// its tier, and none for another resource. It adds up row by row.
pub proof fn cut_connections_are_recorded<C>(
    slots: Seq<(KeyView, SlotState<C>)>,
    key: KeyView,
    slot: SlotState<C>,
    resource: Seq<char>,
)
    ensures
        abort_records(Seq::<(KeyView, SlotState<C>)>::empty(), resource).len() == 0,
        key.0 != resource ==> abort_records(slots.push((key, slot)), resource) == abort_records(
            slots,
            resource,
        ),
        key.0 == resource ==> {
            let all = abort_records(slots.push((key, slot)), resource);
            let before = abort_records(slots, resource);
            &&& all.len() == before.len() + slot.in_use + slot.idle.len()
            &&& all.take(before.len() as int) == before
            &&& forall|i: int|
                before.len() <= i < all.len() ==> (#[trigger] all[i]) == (ConnectionFacts {
                    phase: ConnPhase::Abort,
                    resource,
                    tier: key.1,
                    transport_kind: "direct"@,
                })
        },
{
    let longer = slots.push((key, slot));
    assert(longer.drop_last() =~= slots);
    let before = abort_records(slots, resource);
    assert(before + Seq::<ConnectionFacts>::empty() =~= before);
    let all = abort_records(longer, resource);
    if key.0 == resource {
        assert(all.take(before.len() as int) =~= before);
    }
}

/// A record stands in a log as often as it was appended.
pub proof fn records_are_counted(
    events: Seq<ConnectionFacts>,
    event: ConnectionFacts,
    other: ConnectionFacts,
)
    ensures
        times(Seq::empty(), event) == 0,
        times(events.push(event), event) == times(events, event) + 1,
        other != event ==> times(events.push(other), event) == times(events, event),
{
    assert(events.push(event).drop_last() =~= events);
    assert(events.push(other).drop_last() =~= events);
}

/// A record of a connection says what its fields hold, each under its own name.
pub proof fn connection_records_say_what_they_hold(event: ConnectionEvent)
    ensures
        event@.phase == event.phase,
        event@.resource == event.resource@,
        event@.tier == event.tier@,
        event@.transport_kind == event.transport_kind@,
{
}

} // verus!
