use vstd::prelude::*;

use crate::values::{Status, TimeSample, Update};
use crate::watch::{
    created, is_fresh, set_reply, value_set, watched, Delivery, FieldState, WatchHandler, WatchValue,
};

verus! {

/// How a watch made by a subscriber ends.
#[derive(Clone, Copy, PartialEq, Eq, Debug)]
pub enum WatchOutcome<T, R> {
    /// Answered at once: `value` is to be sent through `responder`.
    Resolved(Delivery<T, R>),
    /// Parked until a new value is set.
    Parked,
    /// A second watch while one was parked: both requests are to be failed
    /// and the subscriber's connection closed.
    Violation { rejected: R, pending: R },
    /// The subscriber is no longer connected: the request is to be failed.
    Closed(R),
}

/// A response released by an update.
#[derive(Clone, Copy, PartialEq, Eq, Debug)]
pub enum Response<SR, TR> {
    Sample(Delivery<TimeSample, SR>),
    Status(Delivery<Status, TR>),
}

/// What a subscriber's watch on a field in state `s` gives.
pub open spec fn watch_outcome<T, R>(s: FieldState<T, R>, r: R) -> WatchOutcome<T, R> {
    match s.pending {
        Some(p) => WatchOutcome::Violation { rejected: r, pending: p },
        None => if is_fresh(s.current, s.observed) {
            WatchOutcome::Resolved(Delivery { responder: r, value: s.current->Some_0 })
        } else {
            WatchOutcome::Parked
        },
    }
}

/// The field after a subscriber's watch; on a violation the parked request
/// has been taken out to be failed.
pub open spec fn field_after_watch<T, R>(s: FieldState<T, R>, r: R) -> FieldState<T, R> {
    if s.pending is Some {
        FieldState { pending: None, ..s }
    } else {
        watched(s, r)
    }
}

/// The two fields of one subscriber.
pub struct SessionState<SR, TR> {
    pub sample: FieldState<TimeSample, SR>,
    pub status: FieldState<Status, TR>,
}

/// A fresh subscriber seeded with the latest known values.
pub open spec fn session_created<SR, TR>(
    latest_sample: Option<TimeSample>,
    latest_status: Status,
) -> SessionState<SR, TR> {
    SessionState { sample: created(latest_sample), status: created(Some(latest_status)) }
}

/// The subscriber after `u` reaches it.
pub open spec fn session_updated<SR, TR>(s: SessionState<SR, TR>, u: Update) -> SessionState<
    SR,
    TR,
> {
    match u {
        Update::Sample(v) => SessionState { sample: value_set(s.sample, v), ..s },
        Update::Status(v) => SessionState { status: value_set(s.status, v), ..s },
    }
}

/// The response that `u` releases at the subscriber, if any.
pub open spec fn session_reply<SR, TR>(s: SessionState<SR, TR>, u: Update) -> Option<
    Response<SR, TR>,
> {
    match u {
        Update::Sample(v) => match set_reply(s.sample, v) {
            Some(d) => Some(Response::Sample(d)),
            None => None,
        },
        Update::Status(v) => match set_reply(s.status, v) {
            Some(d) => Some(Response::Status(d)),
            None => None,
        },
    }
}

/// Watch one field for a subscriber; on a second watch while one is parked,
/// take the parked request out so that both can be failed.
fn watch_field<T: WatchValue, R>(h: &mut WatchHandler<T, R>, responder: R) -> (r: WatchOutcome<
    T,
    R,
>)
    ensures
        r == watch_outcome(old(h).view(), responder),
        final(h).view() == field_after_watch(old(h).view(), responder),
{
    match h.watch(responder) {
        Ok(Some(d)) => WatchOutcome::Resolved(d),
        Ok(None) => WatchOutcome::Parked,
        Err(e) => {
            let pending = h.take_pending();
            WatchOutcome::Violation { rejected: e.responder, pending: pending.unwrap() }
        },
    }
}

/// The per-subscriber state: one hanging-get handler for the sample field
/// and one for the status field.
pub struct Session<SR, TR> {
    sample: WatchHandler<TimeSample, SR>,
    status: WatchHandler<Status, TR>,
}

impl<SR, TR> Session<SR, TR> {
    pub closed spec fn view(&self) -> SessionState<SR, TR> {
        SessionState { sample: self.sample.view(), status: self.status.view() }
    }

    /// A subscriber seeded with the latest known values, so that it never
    /// waits for a value that already exists.
    pub fn new(latest_sample: Option<TimeSample>, latest_status: Status) -> (s: Self)
        ensures
            s.view() == session_created::<SR, TR>(latest_sample, latest_status),
    {
        Session {
            sample: WatchHandler::create(latest_sample),
            status: WatchHandler::create(Some(latest_status)),
        }
    }

    /// A `watch_sample` request from the subscriber.
    pub fn handle_watch_sample(&mut self, responder: SR) -> (r: WatchOutcome<TimeSample, SR>)
        ensures
            r == watch_outcome(old(self).view().sample, responder),
            final(self).view() == (SessionState {
                sample: field_after_watch(old(self).view().sample, responder),
                ..old(self).view()
            }),
    {
        watch_field(&mut self.sample, responder)
    }

    /// A `watch_status` request from the subscriber.
    pub fn handle_watch_status(&mut self, responder: TR) -> (r: WatchOutcome<Status, TR>)
        ensures
            r == watch_outcome(old(self).view().status, responder),
            final(self).view() == (SessionState {
                status: field_after_watch(old(self).view().status, responder),
                ..old(self).view()
            }),
    {
        watch_field(&mut self.status, responder)
    }

    /// Hand an update to the field it belongs to.
    pub fn handle_update(&mut self, update: Update) -> (r: Option<Response<SR, TR>>)
        ensures
            final(self).view() == session_updated(old(self).view(), update),
            r == session_reply(old(self).view(), update),
    {
        match update {
            Update::Sample(v) => match self.sample.set_value(v) {
                Some(d) => Some(Response::Sample(d)),
                None => None,
            },
            Update::Status(v) => match self.status.set_value(v) {
                Some(d) => Some(Response::Status(d)),
                None => None,
            },
        }
    }
}

} // verus!
