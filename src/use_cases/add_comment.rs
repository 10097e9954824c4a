use vstd::prelude::*;

use crate::storage::{store_wf, with_comment, Storage, UpdateError};
use crate::types::{Comment, CommentView, Gate, GateKey, GateKeyView, GateView, UtcDateTime};

verus! {

pub struct Input {
    pub group: String,
    pub service: String,
    pub environment: String,
    pub message: String,
}

#[derive(Clone, Debug, PartialEq, Eq)]
pub enum Error {
    GateNotFound,
    InvalidInputMessage(String),
    Internal(String),
}

/// What `str::trim` leaves of a text.
pub uninterp spec fn trimmed(s: Seq<char>) -> Seq<char>;

/// Relies on `str::trim`: the text without leading and trailing whitespace,
/// a function of the characters alone.
#[verifier::external_body]
fn trim(s: &str) -> (r: String)
    ensures
        r@ == trimmed(s@),
{
    s.trim().to_owned()
}

pub open spec fn input_key(input: Input) -> GateKeyView {
    GateKeyView { group: input.group@, service: input.service@, environment: input.environment@ }
}

/// The comment written for `input`: its trimmed message under `id`, created `now`.
pub open spec fn new_comment(input: Input, id: Seq<char>, now: UtcDateTime) -> CommentView {
    CommentView { id, message: trimmed(input.message@), created: now }
}

/// The store's answer, as this use case reports it: the entry under `k`
/// becomes `next` and is returned; or there is no such gate and nothing
/// changed; or a failure that changed nothing or applied the write.
pub open spec fn outcome(
    before: Map<GateKeyView, GateView>,
    after: Map<GateKeyView, GateView>,
    k: GateKeyView,
    next: GateView,
    r: Result<Gate, Error>,
) -> bool {
    match r {
        Ok(g) => before.contains_key(k) && g@ == next && after == before.insert(k, next),
        Err(Error::GateNotFound) => !before.contains_key(k) && after == before,
        Err(Error::InvalidInputMessage(_)) => false,
        Err(Error::Internal(_)) => after == before || (before.contains_key(k) && after == before.insert(k, next)),
    }
}

/// Adds a comment with id `id` and the trimmed message, created and stamped
/// `now`. A message that trims to nothing is refused before the store is
/// touched.
pub fn execute<S: Storage>(input: Input, storage: &mut S, now: UtcDateTime, id: String) -> (r: Result<
    Gate,
    Error,
>)
    requires
        old(storage).inv(),
        store_wf(old(storage).gates()),
    ensures
        final(storage).inv(),
        store_wf(final(storage).gates()),
        r matches Err(Error::InvalidInputMessage(_)) <==> trimmed(input.message@).len() == 0,
        r matches Err(Error::InvalidInputMessage(_)) ==> final(storage).gates() == old(storage).gates(),
        trimmed(input.message@).len() != 0 ==> outcome(
            old(storage).gates(),
            final(storage).gates(),
            input_key(input),
            with_comment(
                old(storage).gates()[input_key(input)],
                old(storage).stored_comment(new_comment(input, id@, now)),
                now,
            ),
            r,
        ),
{
    let message = trim(input.message.as_str());
    if message.as_str().is_empty() {
        return Err(Error::InvalidInputMessage("cannot add comment without message".to_owned()));
    }
    let key = GateKey { group: input.group, service: input.service, environment: input.environment };
    let comment = Comment { id, message, created: now };
    match storage.update_comment_and_last_updated(key, comment, now) {
        Ok(g) => Ok(g),
        Err(UpdateError::ItemToUpdateNotFound(_)) => Err(Error::GateNotFound),
        Err(UpdateError::Other(e)) => Err(Error::Internal(e)),
    }
}

} // verus!
