use vstd::prelude::*;

use crate::storage::{store_wf, with_display_order, Storage, UpdateError};
use crate::types::{Gate, GateKey, GateKeyView, GateView, UtcDateTime};

verus! {

pub struct Input {
    pub group: String,
    pub service: String,
    pub environment: String,
    pub display_order: u32,
}

#[derive(Clone, Debug, PartialEq, Eq)]
pub enum Error {
    GateNotFound,
    Internal(String),
}

pub open spec fn input_key(input: Input) -> GateKeyView {
    GateKeyView { group: input.group@, service: input.service@, environment: input.environment@ }
}

/// The store's answer, as this use case reports it.
pub open spec fn outcome(
    before: Map<GateKeyView, GateView>,
    after: Map<GateKeyView, GateView>,
    k: GateKeyView,
    next: GateView,
    r: Result<Gate, Error>,
) -> bool {
    match r {
        Ok(g) => before.contains_key(k) && g@ == next && after == before.insert(k, next),
        Err(Error::GateNotFound) => !before.contains_key(k) && after == before,
        Err(Error::Internal(_)) => after == before || (before.contains_key(k) && after == before.insert(k, next)),
    }
}

/// Sets a gate's display order, stamped `now`.
pub fn execute<S: Storage>(input: Input, storage: &mut S, now: UtcDateTime) -> (r: Result<Gate, Error>)
    requires
        old(storage).inv(),
        store_wf(old(storage).gates()),
    ensures
        final(storage).inv(),
        store_wf(final(storage).gates()),
        outcome(
            old(storage).gates(),
            final(storage).gates(),
            input_key(input),
            with_display_order(old(storage).gates()[input_key(input)], input.display_order, now),
            r,
        ),
{
    let key = GateKey { group: input.group, service: input.service, environment: input.environment };
    match storage.update_display_order_and_last_updated(key, input.display_order, now) {
        Ok(g) => Ok(g),
        Err(UpdateError::ItemToUpdateNotFound(_)) => Err(Error::GateNotFound),
        Err(UpdateError::Other(e)) => Err(Error::Internal(e)),
    }
}

} // verus!
