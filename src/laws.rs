use vstd::prelude::*;

use crate::hub::{
    lemma_fanout_below, lemma_fanout_wf, lemma_index_of_range, fanned_out, hub_wf, ids_below, ids_increasing, index_of, live_count, live_session, pushed,
    registered, released, sample_watch_outcome, sample_watched, status_watch_outcome,
    status_watched, EntryState, HubState,
};
use crate::session::{session_updated, SessionState, WatchOutcome};
use crate::values::{Status, TimeSample, Update};
use crate::watch::{set_reply, value_set, watch_reply, watched, Delivery, FieldState};

verus! {

/// The subscriber named `id` in `subs`, if it is still there.
spec fn live_entry<SR, TR>(subs: Seq<EntryState<SR, TR>>, id: u64) -> Option<
    SessionState<SR, TR>,
> {
    let k = index_of(subs, id);
    if k < 0 {
        None
    } else {
        subs[k].session
    }
}

/// The hub after each of `us` is pushed, in order.
pub open spec fn updates_pushed<SR, TR>(h: HubState<SR, TR>, us: Seq<Update>) -> HubState<SR, TR>
    decreases us.len(),
{
    if us.len() == 0 {
        h
    } else {
        pushed(updates_pushed(h, us.drop_last()), us.last())
    }
}

/// A subscriber after each of `us` reaches it, in order.
pub open spec fn session_after<SR, TR>(s: SessionState<SR, TR>, us: Seq<Update>) -> SessionState<
    SR,
    TR,
>
    decreases us.len(),
{
    if us.len() == 0 {
        s
    } else {
        session_updated(session_after(s, us.drop_last()), us.last())
    }
}

proof fn lemma_index_of_update<SR, TR>(
    subs: Seq<EntryState<SR, TR>>,
    k: int,
    e: EntryState<SR, TR>,
    id: u64,
)
    requires
        0 <= k < subs.len(),
        e.id == subs[k].id,
    ensures
        index_of(subs.update(k, e), id) == index_of(subs, id),
    decreases subs.len(),
{
    let t = subs.update(k, e);
    if k < subs.len() - 1 {
        assert(t.drop_last() =~= subs.drop_last().update(k, e));
        lemma_index_of_update(subs.drop_last(), k, e, id);
    } else {
        assert(t.drop_last() =~= subs.drop_last());
    }
}

proof fn lemma_index_of_absent<SR, TR>(subs: Seq<EntryState<SR, TR>>, id: u64)
    requires
        forall|i: int| 0 <= i < subs.len() ==> #[trigger] subs[i].id != id,
    ensures
        index_of(subs, id) == -1,
    decreases subs.len(),
{
    if subs.len() > 0 {
        lemma_index_of_absent(subs.drop_last(), id);
    }
}



/// Fanning out an update keeps each live subscriber, updated, under its name.
proof fn lemma_fanout_entry<SR, TR>(subs: Seq<EntryState<SR, TR>>, u: Update, id: u64)
    requires
        ids_increasing(subs),
    ensures
        live_entry(fanned_out(subs, u), id) == (match live_entry(subs, id) {
            Some(s) => Some(session_updated(s, u)),
            None => None,
        }),
    decreases subs.len(),
{
    if subs.len() > 0 {
        let pre = subs.drop_last();
        assert(ids_increasing(pre)) by {
            assert forall|i: int, j: int| 0 <= i < j < pre.len() implies #[trigger] pre[i].id
                < #[trigger] pre[j].id by {
                assert(pre[i] == subs[i] && pre[j] == subs[j]);
            }
        }
        lemma_fanout_entry(pre, u, id);
        let last = subs.last();
        let fo = fanned_out(pre, u);
        lemma_index_of_range(pre, id);
        lemma_index_of_range(fo, id);
        if last.id == id {
            assert(ids_below(pre, id)) by {
                assert forall|i: int| 0 <= i < pre.len() implies #[trigger] pre[i].id < id by {
                    assert(pre[i] == subs[i]);
                }
            }
            lemma_fanout_below(pre, u, id);
            lemma_index_of_absent(pre, id);
            lemma_index_of_absent(fo, id);
            if last.session is Some {
                let e = EntryState { id: last.id, session: Some(session_updated(last.session->Some_0, u)) };
                assert(fo.push(e).drop_last() =~= fo);
            }
        } else {
            if index_of(pre, id) >= 0 {
                assert(subs[index_of(pre, id)] == pre[index_of(pre, id)]);
            }
            if last.session is Some {
                let e = EntryState { id: last.id, session: Some(session_updated(last.session->Some_0, u)) };
                assert(fo.push(e).drop_last() =~= fo);
                if index_of(fo, id) >= 0 {
                    assert(fo.push(e)[index_of(fo, id)] == fo[index_of(fo, id)]);
                }
            }
        }
    }
}


/// Fanning out leaves no entry under a name whose subscriber has gone, and
/// keeps exactly one entry for each subscriber still there.
proof fn lemma_fanout_reclaims<SR, TR>(subs: Seq<EntryState<SR, TR>>, u: Update, id: u64)
    requires
        forall|i: int| 0 <= i < subs.len() && #[trigger] subs[i].id == id ==> subs[i].session is None,
    ensures
        forall|i: int| 0 <= i < fanned_out(subs, u).len() ==> #[trigger] fanned_out(subs, u)[i].id != id,
        forall|i: int| 0 <= i < fanned_out(subs, u).len() ==> (#[trigger] fanned_out(subs, u)[i]).session is Some,
        fanned_out(subs, u).len() == live_count(subs),
    decreases subs.len(),
{
    if subs.len() > 0 {
        let pre = subs.drop_last();
        assert forall|i: int| 0 <= i < pre.len() && #[trigger] pre[i].id == id implies pre[i].session is None by {
            assert(pre[i] == subs[i]);
        }
        lemma_fanout_reclaims(pre, u, id);
    }
}

/// Once a watch has parked, a second watch on the same field before any
/// update is a protocol violation: both requests come back to be failed, and
/// the subscriber is disconnected, so that every later watch on either field
/// finds it closed.
pub proof fn lemma_second_sample_watch_is_violation<SR, TR>(
    h: HubState<SR, TR>,
    id: u64,
    first: SR,
    second: SR,
    later_sample: SR,
    later_status: TR,
)
    requires
        hub_wf(h),
        sample_watch_outcome(h, id, first) is Parked,
    ensures
        sample_watch_outcome(sample_watched(h, id, first), id, second) == (WatchOutcome::<
            TimeSample,
            SR,
        >::Violation { rejected: second, pending: first }),
        sample_watch_outcome(sample_watched(sample_watched(h, id, first), id, second), id, later_sample)
            == WatchOutcome::<TimeSample, SR>::Closed(later_sample),
        status_watch_outcome(sample_watched(sample_watched(h, id, first), id, second), id, later_status)
            == WatchOutcome::<Status, TR>::Closed(later_status),
{
    let k = index_of(h.subscribers, id);
    lemma_index_of_range(h.subscribers, id);
    let h1 = sample_watched(h, id, first);
    lemma_index_of_update(h.subscribers, k, h1.subscribers[k], id);
    let h2 = sample_watched(h1, id, second);
    lemma_index_of_update(h1.subscribers, k, h2.subscribers[k], id);
}

/// The status twin of the rule above.
pub proof fn lemma_second_status_watch_is_violation<SR, TR>(
    h: HubState<SR, TR>,
    id: u64,
    first: TR,
    second: TR,
    later_sample: SR,
    later_status: TR,
)
    requires
        hub_wf(h),
        status_watch_outcome(h, id, first) is Parked,
    ensures
        status_watch_outcome(status_watched(h, id, first), id, second) == (WatchOutcome::<
            Status,
            TR,
        >::Violation { rejected: second, pending: first }),
        sample_watch_outcome(status_watched(status_watched(h, id, first), id, second), id, later_sample)
            == WatchOutcome::<TimeSample, SR>::Closed(later_sample),
        status_watch_outcome(status_watched(status_watched(h, id, first), id, second), id, later_status)
            == WatchOutcome::<Status, TR>::Closed(later_status),
{
    let k = index_of(h.subscribers, id);
    lemma_index_of_range(h.subscribers, id);
    let h1 = status_watched(h, id, first);
    lemma_index_of_update(h.subscribers, k, h1.subscribers[k], id);
    let h2 = status_watched(h1, id, second);
    lemma_index_of_update(h1.subscribers, k, h2.subscribers[k], id);
}

/// A subscriber that registers after an update is answered with that update
/// by its first watch on the update's field.
pub proof fn lemma_late_joiner_gets_latest<SR, TR>(
    h: HubState<SR, TR>,
    u: Update,
    rs: SR,
    rt: TR,
)
    requires
        hub_wf(h),
        h.next_id < u64::MAX,
    ensures
        match u {
            Update::Sample(v) => sample_watch_outcome(registered(pushed(h, u)), h.next_id, rs)
                == WatchOutcome::Resolved(Delivery { responder: rs, value: v }),
            Update::Status(v) => status_watch_outcome(registered(pushed(h, u)), h.next_id, rt)
                == WatchOutcome::Resolved(Delivery { responder: rt, value: v }),
        },
{
    let h2 = registered(pushed(h, u));
    assert(h2.subscribers.drop_last() =~= pushed(h, u).subscribers);
}

/// A subscriber's first watch on the status field is answered at once with
/// the latest status.
pub proof fn lemma_first_status_watch_resolves<SR, TR>(h: HubState<SR, TR>, rt: TR)
    requires
        hub_wf(h),
        h.next_id < u64::MAX,
    ensures
        status_watch_outcome(registered(h), h.next_id, rt) == WatchOutcome::<Status, TR>::Resolved(
            Delivery { responder: rt, value: h.latest_status },
        ),
{
    let h2 = registered(h);
    assert(h2.subscribers.drop_last() =~= h.subscribers);
}

proof fn lemma_updates_pushed_wf<SR, TR>(h: HubState<SR, TR>, us: Seq<Update>)
    requires
        hub_wf(h),
    ensures
        hub_wf(updates_pushed(h, us)),
        updates_pushed(h, us).next_id == h.next_id,
    decreases us.len(),
{
    if us.len() > 0 {
        let h1 = updates_pushed(h, us.drop_last());
        lemma_updates_pushed_wf(h, us.drop_last());
        lemma_fanout_wf(h1.subscribers, us.last(), h1.next_id);
    }
}

/// A subscriber that stays connected receives every update, in the order in
/// which they were pushed.
pub proof fn lemma_subscriber_receives_every_update<SR, TR>(
    h: HubState<SR, TR>,
    id: u64,
    us: Seq<Update>,
)
    requires
        hub_wf(h),
        live_session(h, id) is Some,
    ensures
        live_session(updates_pushed(h, us), id) == Some(
            session_after(live_session(h, id)->Some_0, us),
        ),
    decreases us.len(),
{
    if us.len() > 0 {
        let h1 = updates_pushed(h, us.drop_last());
        lemma_subscriber_receives_every_update(h, id, us.drop_last());
        lemma_updates_pushed_wf(h, us.drop_last());
        lemma_fanout_entry(h1.subscribers, us.last(), id);
    }
}

/// A subscriber that stays connected for a run of updates pushed in order
/// ends up holding the last of them: either it has already been handed it,
/// or its next watch on that field is answered with it at once.
pub proof fn lemma_no_missed_update<SR, TR>(
    h: HubState<SR, TR>,
    id: u64,
    us: Seq<Update>,
    rs: SR,
    rt: TR,
)
    requires
        hub_wf(h),
        live_session(h, id) is Some,
        us.len() > 0,
    ensures
        live_session(updates_pushed(h, us), id) is Some,
        match us.last() {
            Update::Sample(v) => {
                let f = live_session(updates_pushed(h, us), id)->Some_0.sample;
                &&& f.current == Some(v)
                &&& f.pending is None
                &&& f.observed == Some(v) || sample_watch_outcome(updates_pushed(h, us), id, rs)
                    == WatchOutcome::<TimeSample, SR>::Resolved(Delivery { responder: rs, value: v })
            },
            Update::Status(v) => {
                let f = live_session(updates_pushed(h, us), id)->Some_0.status;
                &&& f.current == Some(v)
                &&& f.pending is None
                &&& f.observed == Some(v) || status_watch_outcome(updates_pushed(h, us), id, rt)
                    == WatchOutcome::<Status, TR>::Resolved(Delivery { responder: rt, value: v })
            },
        },
{
    lemma_subscriber_receives_every_update(h, id, us);
}

/// A field only ever hands out its current value, which is the latest value
/// set on it, and records it as the caller's last: so a caller is never
/// handed a value older than one it has already been handed.
pub proof fn lemma_delivery_is_latest<T, R>(s: FieldState<T, R>, r: R, v: T)
    ensures
        watch_reply(s, r) matches Ok(Some(d)) ==> s.current == Some(d.value) && watched(
            s,
            r,
        ).observed == s.current && watched(s, r).current == s.current,
        set_reply(s, v) matches Some(d) ==> d.value == v && value_set(s, v).observed == Some(v),
        value_set(s, v).current == Some(v),
{
}

/// A watch answered at once, followed by another watch with no update in
/// between, parks the second one; only a later update answers it.
pub proof fn lemma_repeat_sample_watch_parks<SR, TR>(
    h: HubState<SR, TR>,
    id: u64,
    first: SR,
    second: SR,
)
    requires
        hub_wf(h),
        sample_watch_outcome(h, id, first) is Resolved,
    ensures
        sample_watch_outcome(sample_watched(h, id, first), id, second) is Parked,
        live_session(sample_watched(sample_watched(h, id, first), id, second), id)->Some_0.sample.pending
            == Some(second),
{
    let k = index_of(h.subscribers, id);
    lemma_index_of_range(h.subscribers, id);
    let h1 = sample_watched(h, id, first);
    lemma_index_of_update(h.subscribers, k, h1.subscribers[k], id);
    let h2 = sample_watched(h1, id, second);
    lemma_index_of_update(h1.subscribers, k, h2.subscribers[k], id);
}

/// The status twin of the rule above.
pub proof fn lemma_repeat_status_watch_parks<SR, TR>(
    h: HubState<SR, TR>,
    id: u64,
    first: TR,
    second: TR,
)
    requires
        hub_wf(h),
        status_watch_outcome(h, id, first) is Resolved,
    ensures
        status_watch_outcome(status_watched(h, id, first), id, second) is Parked,
        live_session(status_watched(status_watched(h, id, first), id, second), id)->Some_0.status.pending
            == Some(second),
{
    let k = index_of(h.subscribers, id);
    lemma_index_of_range(h.subscribers, id);
    let h1 = status_watched(h, id, first);
    lemma_index_of_update(h.subscribers, k, h1.subscribers[k], id);
    let h2 = status_watched(h1, id, second);
    lemma_index_of_update(h1.subscribers, k, h2.subscribers[k], id);
}

/// After a subscriber goes, the next update reaches no entry under its name:
/// the hub then keeps one entry per subscriber still there and no more.
pub proof fn lemma_departed_subscriber_reclaimed<SR, TR>(h: HubState<SR, TR>, id: u64, u: Update)
    requires
        hub_wf(h),
    ensures
        live_session(pushed(released(h, id), u), id) is None,
        forall|i: int|
            0 <= i < pushed(released(h, id), u).subscribers.len() ==> #[trigger] pushed(
                released(h, id),
                u,
            ).subscribers[i].id != id,
        forall|i: int|
            0 <= i < pushed(released(h, id), u).subscribers.len() ==> (#[trigger] pushed(
                released(h, id),
                u,
            ).subscribers[i]).session is Some,
        pushed(released(h, id), u).subscribers.len() == live_count(released(h, id).subscribers),
        live_count(released(h, id).subscribers) <= h.subscribers.len(),
{
    let subs = released(h, id).subscribers;
    lemma_index_of_range(h.subscribers, id);
    assert forall|i: int| 0 <= i < subs.len() && #[trigger] subs[i].id == id implies subs[i].session is None by {
        let k = index_of(h.subscribers, id);
        if k >= 0 && i != k {
            assert(h.subscribers[i].id == h.subscribers[k].id);
        }
    }
    lemma_fanout_reclaims(subs, u, id);
    lemma_live_count_bound(subs);
    let out = pushed(released(h, id), u).subscribers;
    lemma_index_of_absent(out, id);
}

proof fn lemma_live_count_bound<SR, TR>(subs: Seq<EntryState<SR, TR>>)
    ensures
        live_count(subs) <= subs.len(),
    decreases subs.len(),
{
    if subs.len() > 0 {
        lemma_live_count_bound(subs.drop_last());
    }
}

} // verus!
