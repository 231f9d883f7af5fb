use vstd::prelude::*;

use crate::values::{Status, TimeSample};

verus! {

/// A value that a watch handler can hand out: copied freely, and compared
/// exactly to decide whether a caller has already seen it.
pub trait WatchValue: Copy + Sized {
    fn same_value(&self, other: &Self) -> (r: bool)
        ensures
            r == (*self == *other),
    ;
}

impl WatchValue for Status {
    fn same_value(&self, other: &Self) -> (r: bool) {
        *self == *other
    }
}

impl WatchValue for TimeSample {
    fn same_value(&self, other: &Self) -> (r: bool) {
        *self == *other
    }
}

/// A response that is due: `value` is to be sent through `responder`.
#[derive(Clone, Copy, PartialEq, Eq, Debug)]
pub struct Delivery<T, R> {
    pub responder: R,
    pub value: T,
}

/// A watch made while another was still pending; it carries the new
/// responder back so that the caller can fail it.
#[derive(Clone, Copy, PartialEq, Eq, Debug)]
pub struct WatchError<R> {
    pub responder: R,
}

/// The state of one hanging-get field as seen by one caller.
pub struct FieldState<T, R> {
    /// The latest value set on the field.
    pub current: Option<T>,
    /// The last value handed to this caller.
    pub observed: Option<T>,
    /// The parked request, if any.
    pub pending: Option<R>,
}

/// The field holds a value that this caller has not been handed.
pub open spec fn is_fresh<T>(current: Option<T>, observed: Option<T>) -> bool {
    &&& current is Some
    &&& observed != current
}

/// A field that has just been created from `initial`.
pub open spec fn created<T, R>(initial: Option<T>) -> FieldState<T, R> {
    FieldState { current: initial, observed: None, pending: None }
}

/// The field after a watch with responder `r`.
pub open spec fn watched<T, R>(s: FieldState<T, R>, r: R) -> FieldState<T, R> {
    if s.pending is Some {
        s
    } else if is_fresh(s.current, s.observed) {
        FieldState { observed: s.current, ..s }
    } else {
        FieldState { pending: Some(r), ..s }
    }
}

/// What a watch with responder `r` answers.
pub open spec fn watch_reply<T, R>(s: FieldState<T, R>, r: R) -> Result<
    Option<Delivery<T, R>>,
    WatchError<R>,
> {
    if s.pending is Some {
        Err(WatchError { responder: r })
    } else if is_fresh(s.current, s.observed) {
        Ok(Some(Delivery { responder: r, value: s.current->Some_0 }))
    } else {
        Ok(None)
    }
}

/// The field after the value `v` is set.
pub open spec fn value_set<T, R>(s: FieldState<T, R>, v: T) -> FieldState<T, R> {
    if s.pending is Some {
        FieldState { current: Some(v), observed: Some(v), pending: None }
    } else {
        FieldState { current: Some(v), ..s }
    }
}

/// What setting the value `v` releases: the parked request, answered with `v`.
pub open spec fn set_reply<T, R>(s: FieldState<T, R>, v: T) -> Option<Delivery<T, R>> {
    match s.pending {
        Some(r) => Some(Delivery { responder: r, value: v }),
        None => None,
    }
}

/// The hanging-get primitive for one field and one caller. At most one
/// request is parked at a time; a parked request is answered by the next
/// value set, and a new watch is answered at once when the caller has not
/// yet been handed the current value.
pub struct WatchHandler<T, R> {
    current: Option<T>,
    observed: Option<T>,
    pending: Option<R>,
}

impl<T: WatchValue, R> WatchHandler<T, R> {
    pub closed spec fn view(&self) -> FieldState<T, R> {
        FieldState { current: self.current, observed: self.observed, pending: self.pending }
    }

    /// A handler whose field starts at `initial` and whose caller has seen nothing.
    pub fn create(initial: Option<T>) -> (h: Self)
        ensures
            h.view() == created::<T, R>(initial),
    {
        WatchHandler { current: initial, observed: None, pending: None }
    }

    /// Whether the field holds a value that the caller has not been handed.
    fn has_fresh_value(&self) -> (r: bool)
        ensures
            r == is_fresh(self.current, self.observed),
    {
        match (&self.current, &self.observed) {
            (None, _) => false,
            (Some(_), None) => true,
            (Some(c), Some(o)) => !c.same_value(o),
        }
    }

    /// Watch the field. Answers at once with the current value when the
    /// caller has not been handed it, parks the request otherwise, and hands
    /// the responder back in an error when a request is already parked,
    /// leaving that one in place.
    pub fn watch(&mut self, responder: R) -> (r: Result<Option<Delivery<T, R>>, WatchError<R>>)
        ensures
            final(self).view() == watched(old(self).view(), responder),
            r == watch_reply(old(self).view(), responder),
    {
        if self.pending.is_some() {
            return Err(WatchError { responder });
        }
        if self.has_fresh_value() {
            let value = self.current.unwrap();
            self.observed = Some(value);
            Ok(Some(Delivery { responder, value }))
        } else {
            self.pending = Some(responder);
            Ok(None)
        }
    }

    /// Set the field to `value`, answering the parked request with it if
    /// there is one. Only the latest value is kept.
    pub fn set_value(&mut self, value: T) -> (r: Option<Delivery<T, R>>)
        ensures
            final(self).view() == value_set(old(self).view(), value),
            r == set_reply(old(self).view(), value),
    {
        self.current = Some(value);
        match self.pending.take() {
            Some(responder) => {
                self.observed = Some(value);
                Some(Delivery { responder, value })
            },
            None => None,
        }
    }

    /// Remove the parked request, if any, so that the caller can fail it.
    pub fn take_pending(&mut self) -> (r: Option<R>)
        ensures
            r == old(self).view().pending,
            final(self).view() == (FieldState { pending: None, ..old(self).view() }),
    {
        self.pending.take()
    }
}

} // verus!
