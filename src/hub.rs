use vstd::prelude::*;

use crate::session::{
    field_after_watch, session_created, session_reply, session_updated, watch_outcome, Response,
    Session, SessionState, WatchOutcome,
};
use crate::values::{Status, TimeSample, Update};

verus! {

/// The name under which a subscriber was registered with a hub.
#[derive(Clone, Copy, PartialEq, Eq, Structural, Debug)]
pub struct ClientId {
    pub id: u64,
}

/// One registered subscriber as the hub sees it: `session` is `None` once
/// the subscriber has gone and its entry waits to be reclaimed.
pub struct EntryState<SR, TR> {
    pub id: u64,
    pub session: Option<SessionState<SR, TR>>,
}

/// The hub: the latest value of each field, the next name to hand out, and
/// the registered subscribers.
pub struct HubState<SR, TR> {
    pub latest_sample: Option<TimeSample>,
    pub latest_status: Status,
    pub next_id: u64,
    pub subscribers: Seq<EntryState<SR, TR>>,
}

/// Every id in `subs` is below `bound`.
pub open spec fn ids_below<SR, TR>(subs: Seq<EntryState<SR, TR>>, bound: u64) -> bool {
    forall|i: int| 0 <= i < subs.len() ==> #[trigger] subs[i].id < bound
}

/// The ids in `subs` strictly increase, so none is repeated.
pub open spec fn ids_increasing<SR, TR>(subs: Seq<EntryState<SR, TR>>) -> bool {
    forall|i: int, j: int| 0 <= i < j < subs.len() ==> #[trigger] subs[i].id < #[trigger] subs[j].id
}

/// A well-formed hub: subscribers are named uniquely, by names already handed out.
pub open spec fn hub_wf<SR, TR>(h: HubState<SR, TR>) -> bool {
    &&& ids_increasing(h.subscribers)
    &&& ids_below(h.subscribers, h.next_id)
}

/// The position of the entry named `id` in `subs`, or -1.
pub open spec fn index_of<SR, TR>(subs: Seq<EntryState<SR, TR>>, id: u64) -> int
    decreases subs.len(),
{
    if subs.len() == 0 {
        -1
    } else if subs.last().id == id {
        subs.len() - 1
    } else {
        index_of(subs.drop_last(), id)
    }
}

/// The number of entries whose subscriber is still there.
pub open spec fn live_count<SR, TR>(subs: Seq<EntryState<SR, TR>>) -> nat
    decreases subs.len(),
{
    if subs.len() == 0 {
        0
    } else {
        live_count(subs.drop_last()) + if subs.last().session is Some {
            1nat
        } else {
            0nat
        }
    }
}

/// The live subscriber named `id`, if there is one.
pub open spec fn live_session<SR, TR>(h: HubState<SR, TR>, id: u64) -> Option<SessionState<SR, TR>> {
    let k = index_of(h.subscribers, id);
    if k < 0 {
        None
    } else {
        h.subscribers[k].session
    }
}

/// A hub that has seen no sample and whose status starts at `initial_status`.
pub open spec fn hub_created<SR, TR>(initial_status: Status) -> HubState<SR, TR> {
    HubState {
        latest_sample: None,
        latest_status: initial_status,
        next_id: 0,
        subscribers: Seq::empty(),
    }
}

/// The hub after a registration; nothing changes once every name is used.
pub open spec fn registered<SR, TR>(h: HubState<SR, TR>) -> HubState<SR, TR> {
    if h.next_id == u64::MAX {
        h
    } else {
        HubState {
            next_id: (h.next_id + 1) as u64,
            subscribers: h.subscribers.push(
                EntryState {
                    id: h.next_id,
                    session: Some(session_created(h.latest_sample, h.latest_status)),
                },
            ),
            ..h
        }
    }
}

/// The name a registration hands out.
pub open spec fn register_reply<SR, TR>(h: HubState<SR, TR>) -> Option<ClientId> {
    if h.next_id == u64::MAX {
        None
    } else {
        Some(ClientId { id: h.next_id })
    }
}

/// The hub with the subscriber named `id` gone, its entry left to be reclaimed.
pub open spec fn released<SR, TR>(h: HubState<SR, TR>, id: u64) -> HubState<SR, TR> {
    let k = index_of(h.subscribers, id);
    if k < 0 {
        h
    } else {
        HubState { subscribers: h.subscribers.update(k, EntryState { id, session: None }), ..h }
    }
}

/// The entry after a watch on its sample field; a violation closes it.
pub open spec fn entry_sample_watched<SR, TR>(e: EntryState<SR, TR>, r: SR) -> EntryState<SR, TR> {
    match e.session {
        None => e,
        Some(s) => if s.sample.pending is Some {
            EntryState { session: None, ..e }
        } else {
            EntryState {
                session: Some(SessionState { sample: field_after_watch(s.sample, r), ..s }),
                ..e
            }
        },
    }
}

/// The entry after a watch on its status field; a violation closes it.
pub open spec fn entry_status_watched<SR, TR>(e: EntryState<SR, TR>, r: TR) -> EntryState<SR, TR> {
    match e.session {
        None => e,
        Some(s) => if s.status.pending is Some {
            EntryState { session: None, ..e }
        } else {
            EntryState {
                session: Some(SessionState { status: field_after_watch(s.status, r), ..s }),
                ..e
            }
        },
    }
}

/// What a `watch_sample` from the subscriber named `id` gives.
pub open spec fn sample_watch_outcome<SR, TR>(h: HubState<SR, TR>, id: u64, r: SR) -> WatchOutcome<
    TimeSample,
    SR,
> {
    match live_session(h, id) {
        None => WatchOutcome::Closed(r),
        Some(s) => watch_outcome(s.sample, r),
    }
}

/// What a `watch_status` from the subscriber named `id` gives.
pub open spec fn status_watch_outcome<SR, TR>(h: HubState<SR, TR>, id: u64, r: TR) -> WatchOutcome<
    Status,
    TR,
> {
    match live_session(h, id) {
        None => WatchOutcome::Closed(r),
        Some(s) => watch_outcome(s.status, r),
    }
}

/// The hub after a `watch_sample` from the subscriber named `id`.
pub open spec fn sample_watched<SR, TR>(h: HubState<SR, TR>, id: u64, r: SR) -> HubState<SR, TR> {
    let k = index_of(h.subscribers, id);
    if k < 0 {
        h
    } else {
        HubState {
            subscribers: h.subscribers.update(k, entry_sample_watched(h.subscribers[k], r)),
            ..h
        }
    }
}

/// The hub after a `watch_status` from the subscriber named `id`.
pub open spec fn status_watched<SR, TR>(h: HubState<SR, TR>, id: u64, r: TR) -> HubState<SR, TR> {
    let k = index_of(h.subscribers, id);
    if k < 0 {
        h
    } else {
        HubState {
            subscribers: h.subscribers.update(k, entry_status_watched(h.subscribers[k], r)),
            ..h
        }
    }
}

/// The subscribers after `u` is fanned out: gone ones dropped, the others updated.
pub open spec fn fanned_out<SR, TR>(subs: Seq<EntryState<SR, TR>>, u: Update) -> Seq<
    EntryState<SR, TR>,
>
    decreases subs.len(),
{
    if subs.len() == 0 {
        Seq::empty()
    } else {
        let rest = fanned_out(subs.drop_last(), u);
        match subs.last().session {
            None => rest,
            Some(s) => rest.push(EntryState { id: subs.last().id, session: Some(session_updated(s, u)) }),
        }
    }
}

/// The responses that fanning out `u` releases, in subscriber order.
pub open spec fn fanout_replies<SR, TR>(subs: Seq<EntryState<SR, TR>>, u: Update) -> Seq<
    Response<SR, TR>,
>
    decreases subs.len(),
{
    if subs.len() == 0 {
        Seq::empty()
    } else {
        let rest = fanout_replies(subs.drop_last(), u);
        match subs.last().session {
            None => rest,
            Some(s) => match session_reply(s, u) {
                None => rest,
                Some(d) => rest.push(d),
            },
        }
    }
}

/// The hub after `u`: the cache holds it and every live subscriber has it.
pub open spec fn pushed<SR, TR>(h: HubState<SR, TR>, u: Update) -> HubState<SR, TR> {
    match u {
        Update::Sample(v) => HubState {
            latest_sample: Some(v),
            subscribers: fanned_out(h.subscribers, u),
            ..h
        },
        Update::Status(v) => HubState {
            latest_status: v,
            subscribers: fanned_out(h.subscribers, u),
            ..h
        },
    }
}

pub(crate) proof fn lemma_index_of_range<SR, TR>(subs: Seq<EntryState<SR, TR>>, id: u64)
    ensures
        -1 <= index_of(subs, id) < subs.len(),
        index_of(subs, id) >= 0 ==> subs[index_of(subs, id)].id == id,
        index_of(subs, id) < 0 ==> forall|i: int| 0 <= i < subs.len() ==> #[trigger] subs[i].id != id,
    decreases subs.len(),
{
    if subs.len() > 0 {
        lemma_index_of_range(subs.drop_last(), id);
        if subs.last().id != id {
            assert forall|i: int| 0 <= i < subs.len() && index_of(subs, id) < 0 implies #[trigger] subs[i].id != id by {
                if i < subs.len() - 1 {
                    assert(subs.drop_last()[i] == subs[i]);
                }
            }
        }
    }
}

pub(crate) proof fn lemma_fanout_below<SR, TR>(subs: Seq<EntryState<SR, TR>>, u: Update, bound: u64)
    requires
        ids_below(subs, bound),
    ensures
        ids_below(fanned_out(subs, u), bound),
    decreases subs.len(),
{
    if subs.len() > 0 {
        lemma_fanout_below(subs.drop_last(), u, bound);
    }
}

/// Fanning out keeps names unique and handed out.
pub(crate) proof fn lemma_fanout_wf<SR, TR>(subs: Seq<EntryState<SR, TR>>, u: Update, bound: u64)
    requires
        ids_increasing(subs),
        ids_below(subs, bound),
    ensures
        ids_increasing(fanned_out(subs, u)),
        ids_below(fanned_out(subs, u), bound),
    decreases subs.len(),
{
    lemma_fanout_below(subs, u, bound);
    if subs.len() > 0 {
        let pre = subs.drop_last();
        lemma_fanout_wf(pre, u, bound);
        lemma_fanout_below(pre, u, subs.last().id);
    }
}

struct Slot<SR, TR> {
    id: u64,
    session: Option<Session<SR, TR>>,
}

impl<SR, TR> Slot<SR, TR> {
    spec fn view(&self) -> EntryState<SR, TR> {
        EntryState {
            id: self.id,
            session: match self.session {
                Some(s) => Some(s.view()),
                None => None,
            },
        }
    }

    fn watch_sample(&mut self, responder: SR) -> (r: WatchOutcome<TimeSample, SR>)
        ensures
            r == (match old(self).view().session {
                None => WatchOutcome::Closed(responder),
                Some(s) => watch_outcome(s.sample, responder),
            }),
            final(self).view() == entry_sample_watched(old(self).view(), responder),
    {
        let r = match &mut self.session {
            None => { return WatchOutcome::Closed(responder) },
            Some(s) => s.handle_watch_sample(responder),
        };
        if let WatchOutcome::Violation { .. } = &r {
            self.session = None;
        }
        r
    }

    fn watch_status(&mut self, responder: TR) -> (r: WatchOutcome<Status, TR>)
        ensures
            r == (match old(self).view().session {
                None => WatchOutcome::Closed(responder),
                Some(s) => watch_outcome(s.status, responder),
            }),
            final(self).view() == entry_status_watched(old(self).view(), responder),
    {
        let r = match &mut self.session {
            None => { return WatchOutcome::Closed(responder) },
            Some(s) => s.handle_watch_status(responder),
        };
        if let WatchOutcome::Violation { .. } = &r {
            self.session = None;
        }
        r
    }
}

/// The broadcast hub. It keeps the latest value of each field and one
/// entry for each registered subscriber, reclaims the entries of departed
/// subscribers on the next update, and hands every update to every
/// subscriber still there, exactly once, returning the responses that the
/// update releases.
///
/// Subscribers are reached by name only. The task that serves a subscriber
/// calls `release_client` when its connection ends; from then on no call
/// reaches that subscriber, and its entry is dropped at the next update.
/// Every method runs to completion without waiting, so a caller that keeps
/// the hub behind one lock gets each update's cache write and fan-out as one
/// step with respect to registrations.
pub struct PushSourceInternal<SR, TR> {
    subscribers: Vec<Slot<SR, TR>>,
    next_id: u64,
    latest_sample: Option<TimeSample>,
    latest_status: Status,
}

impl<SR, TR> PushSourceInternal<SR, TR> {
    pub closed spec fn view(&self) -> HubState<SR, TR> {
        HubState {
            latest_sample: self.latest_sample,
            latest_status: self.latest_status,
            next_id: self.next_id,
            subscribers: self.subscribers@.map_values(|s: Slot<SR, TR>| s.view()),
        }
    }

    /// A hub with no subscribers, no sample yet, and status `initial_status`.
    pub fn new(initial_status: Status) -> (h: Self)
        ensures
            h.view() == hub_created::<SR, TR>(initial_status),
            hub_wf(h.view()),
    {
        let h = PushSourceInternal {
            subscribers: Vec::new(),
            next_id: 0,
            latest_sample: None,
            latest_status: initial_status,
        };
        assert(h.view().subscribers =~= Seq::<EntryState<SR, TR>>::empty());
        h
    }

    /// The number of entries kept, departed subscribers not yet reclaimed included.
    pub fn subscriber_count(&self) -> (n: usize)
        ensures
            n == self.view().subscribers.len(),
    {
        self.subscribers.len()
    }

    /// The latest sample, if one has been pushed.
    pub fn latest_sample(&self) -> (r: Option<TimeSample>)
        ensures
            r == self.view().latest_sample,
    {
        self.latest_sample
    }

    /// The latest status.
    pub fn latest_status(&self) -> (r: Status)
        ensures
            r == self.view().latest_status,
    {
        self.latest_status
    }

    fn position(&self, id: u64) -> (r: Option<usize>)
        ensures
            match r {
                Some(k) => k as int == index_of(self.view().subscribers, id),
                None => index_of(self.view().subscribers, id) < 0,
            },
    {
        let ghost subs = self.view().subscribers;
        let mut i: usize = self.subscribers.len();
        assert(subs.take(i as int) =~= subs);
        while i > 0
            invariant
                i <= self.subscribers.len(),
                subs == self.view().subscribers,
                index_of(subs, id) == index_of(subs.take(i as int), id),
            decreases i,
        {
            i = i - 1;
            assert(subs.take(i + 1).drop_last() =~= subs.take(i as int));
            if self.subscribers[i].id == id {
                return Some(i);
            }
        }
        None
    }

    /// Register a new subscriber, seeded with the latest values, and return
    /// its name; `None` once every name has been handed out.
    pub fn register_client(&mut self) -> (r: Option<ClientId>)
        requires
            hub_wf(old(self).view()),
        ensures
            final(self).view() == registered(old(self).view()),
            r == register_reply(old(self).view()),
            hub_wf(final(self).view()),
    {
        if self.next_id == u64::MAX {
            return None;
        }
        let id = self.next_id;
        let session = Session::new(self.latest_sample, self.latest_status);
        self.subscribers.push(Slot { id, session: Some(session) });
        self.next_id = id + 1;
        assert(self.view().subscribers =~= registered(old(self).view()).subscribers);
        Some(ClientId { id })
    }

    /// The subscriber named `id` has gone: its entry no longer reaches it and
    /// is reclaimed on the next update.
    pub fn release_client(&mut self, id: ClientId)
        requires
            hub_wf(old(self).view()),
        ensures
            final(self).view() == released(old(self).view(), id.id),
            hub_wf(final(self).view()),
    {
        proof {
            lemma_index_of_range(self.view().subscribers, id.id);
        }
        match self.position(id.id) {
            None => {},
            Some(k) => {
                self.subscribers[k].session = None;
                assert(self.view().subscribers =~= released(old(self).view(), id.id).subscribers);
            },
        }
    }

    /// A `watch_sample` request from the subscriber named `id`.
    pub fn watch_sample(&mut self, id: ClientId, responder: SR) -> (r: WatchOutcome<
        TimeSample,
        SR,
    >)
        requires
            hub_wf(old(self).view()),
        ensures
            r == sample_watch_outcome(old(self).view(), id.id, responder),
            final(self).view() == sample_watched(old(self).view(), id.id, responder),
            hub_wf(final(self).view()),
    {
        proof {
            lemma_index_of_range(self.view().subscribers, id.id);
        }
        match self.position(id.id) {
            None => WatchOutcome::Closed(responder),
            Some(k) => {
                let r = self.subscribers[k].watch_sample(responder);
                assert(self.view().subscribers =~= sample_watched(
                    old(self).view(),
                    id.id,
                    responder,
                ).subscribers);
                r
            },
        }
    }

    /// A `watch_status` request from the subscriber named `id`.
    pub fn watch_status(&mut self, id: ClientId, responder: TR) -> (r: WatchOutcome<
        Status,
        TR,
    >)
        requires
            hub_wf(old(self).view()),
        ensures
            r == status_watch_outcome(old(self).view(), id.id, responder),
            final(self).view() == status_watched(old(self).view(), id.id, responder),
            hub_wf(final(self).view()),
    {
        proof {
            lemma_index_of_range(self.view().subscribers, id.id);
        }
        match self.position(id.id) {
            None => WatchOutcome::Closed(responder),
            Some(k) => {
                let r = self.subscribers[k].watch_status(responder);
                assert(self.view().subscribers =~= status_watched(
                    old(self).view(),
                    id.id,
                    responder,
                ).subscribers);
                r
            },
        }
    }
    /// Apply `update`: store it as the latest value of its field, reclaim the
    /// entries of departed subscribers, and hand it to every subscriber still
    /// there. Returns the parked requests that it answers.
    pub fn push_update(&mut self, update: Update) -> (r: Vec<Response<SR, TR>>)
        requires
            hub_wf(old(self).view()),
        ensures
            final(self).view() == pushed(old(self).view(), update),
            r@ == fanout_replies(old(self).view().subscribers, update),
            hub_wf(final(self).view()),
    {
        let ghost subs = self.view().subscribers;
        match update {
            Update::Sample(v) => self.latest_sample = Some(v),
            Update::Status(v) => self.latest_status = v,
        }
        let mut entries: Vec<Slot<SR, TR>> = Vec::new();
        std::mem::swap(&mut entries, &mut self.subscribers);
        let mut kept: Vec<Slot<SR, TR>> = Vec::new();
        let mut replies: Vec<Response<SR, TR>> = Vec::new();
        for slot in it: entries
            invariant
                it.seq().map_values(|s: Slot<SR, TR>| s.view()) == subs,
                kept@.map_values(|s: Slot<SR, TR>| s.view()) == fanned_out(
                    subs.take(it.index()),
                    update,
                ),
                replies@ == fanout_replies(subs.take(it.index()), update),
        {
            let ghost i = it.index();
            assert(subs.take(i + 1).drop_last() =~= subs.take(i));
            assert(slot.view() == subs[i]);
            match slot.session {
                None => {},
                Some(mut session) => {
                    let reply = session.handle_update(update);
                    match reply {
                        Some(d) => replies.push(d),
                        None => {},
                    }
                    kept.push(Slot { id: slot.id, session: Some(session) });
                    assert(kept@.map_values(|s: Slot<SR, TR>| s.view()) =~= fanned_out(
                        subs.take(i + 1),
                        update,
                    ));
                },
            }
        }
        proof {
            assert(subs.take(subs.len() as int) =~= subs);
            lemma_fanout_wf(subs, update, self.next_id);
        }
        self.subscribers = kept;
        replies
    }
}

} // verus!
