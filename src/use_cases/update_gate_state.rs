use vstd::prelude::*;

use crate::business_hours::{closed_at, is_outside_of_business_times, BusinessWeek};
use crate::storage::{store_wf, with_state, Storage, UpdateError};
use crate::types::{Gate, GateKey, GateKeyView, GateState, GateView, UtcDateTime};

verus! {

pub struct Input {
    pub group: String,
    pub service: String,
    pub environment: String,
    pub state: GateState,
}

#[derive(Clone, Debug, PartialEq, Eq)]
pub enum Error {
    GateNotFound,
    Internal(String),
    GateClosed(String),
}

pub open spec fn input_key(input: Input) -> GateKeyView {
    GateKeyView { group: input.group@, service: input.service@, environment: input.environment@ }
}

/// The store's answer, as this use case reports it.
pub open spec fn outcome(
    before: Map<GateKeyView, GateView>,
    after: Map<GateKeyView, GateView>,
    k: GateKeyView,
    next: GateView,
    r: Result<Gate, Error>,
) -> bool {
    match r {
        Ok(g) => before.contains_key(k) && g@ == next && after == before.insert(k, next),
        Err(Error::GateNotFound) => !before.contains_key(k) && after == before,
        Err(Error::GateClosed(_)) => false,
        Err(Error::Internal(_)) => after == before || (before.contains_key(k) && after == before.insert(k, next)),
    }
}

/// Sets a gate's state, stamped `now`. While the week is closed at `now`
/// the change is vetoed before the store is touched.
pub fn execute<S: Storage>(input: Input, storage: &mut S, week: &BusinessWeek, now: UtcDateTime) -> (r:
    Result<Gate, Error>)
    requires
        old(storage).inv(),
        store_wf(old(storage).gates()),
    ensures
        final(storage).inv(),
        store_wf(final(storage).gates()),
        r matches Err(Error::GateClosed(_)) <==> closed_at(*week, now),
        closed_at(*week, now) ==> final(storage).gates() == old(storage).gates(),
        !closed_at(*week, now) ==> outcome(
            old(storage).gates(),
            final(storage).gates(),
            input_key(input),
            with_state(old(storage).gates()[input_key(input)], input.state, now),
            r,
        ),
{
    if is_outside_of_business_times(week, now) {
        return Err(
            Error::GateClosed("Already after business hours - rejecting attempt to change state".to_owned()),
        );
    }
    let key = GateKey { group: input.group, service: input.service, environment: input.environment };
    match storage.update_state_and_last_updated(key, input.state, now) {
        Ok(g) => Ok(g),
        Err(UpdateError::ItemToUpdateNotFound(_)) => Err(Error::GateNotFound),
        Err(UpdateError::Other(e)) => Err(Error::Internal(e)),
    }
}

} // verus!
