use vstd::prelude::*;

use crate::storage::{store_wf, with_comment_removed, Storage, UpdateError};
use crate::types::{has_comment, Gate, GateKey, GateKeyView, GateView, UtcDateTime};

verus! {

pub struct Input {
    pub group: String,
    pub service: String,
    pub environment: String,
    pub comment_id: String,
}

#[derive(Clone, Debug, PartialEq, Eq)]
pub enum Error {
    GateOrCommentNotFound,
    Internal(String),
}

pub open spec fn input_key(input: Input) -> GateKeyView {
    GateKeyView { group: input.group@, service: input.service@, environment: input.environment@ }
}

/// The store's answer, as this use case reports it; `found` is the write's
/// precondition.
pub open spec fn outcome(
    before: Map<GateKeyView, GateView>,
    after: Map<GateKeyView, GateView>,
    k: GateKeyView,
    found: bool,
    next: GateView,
    r: Result<Gate, Error>,
) -> bool {
    match r {
        Ok(g) => found && g@ == next && after == before.insert(k, next),
        Err(Error::GateOrCommentNotFound) => !found && after == before,
        Err(Error::Internal(_)) => after == before || (found && after == before.insert(k, next)),
    }
}

/// Removes the comment with the given id from a gate, stamped `now`; the
/// gate and the comment must both exist.
pub fn execute<S: Storage>(input: Input, storage: &mut S, now: UtcDateTime) -> (r: Result<Gate, Error>)
    requires
        old(storage).inv(),
        store_wf(old(storage).gates()),
    ensures
        final(storage).inv(),
        store_wf(final(storage).gates()),
        outcome(
            old(storage).gates(),
            final(storage).gates(),
            input_key(input),
            old(storage).gates().contains_key(input_key(input)) && has_comment(
                old(storage).gates()[input_key(input)].comments,
                input.comment_id@,
            ),
            with_comment_removed(old(storage).gates()[input_key(input)], input.comment_id@, now),
            r,
        ),
{
    let key = GateKey { group: input.group, service: input.service, environment: input.environment };
    match storage.delete_comment_by_id_and_update_last_updated(key, input.comment_id, now) {
        Ok(g) => Ok(g),
        Err(UpdateError::ItemToUpdateNotFound(_)) => Err(Error::GateOrCommentNotFound),
        Err(UpdateError::Other(e)) => Err(Error::Internal(e)),
    }
}

} // verus!
