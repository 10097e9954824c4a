use vstd::prelude::*;

use crate::storage::{store_wf, InsertError, Storage};
use crate::types::{fresh_gate, Gate, GateKey, GateKeyView, UtcDateTime};

verus! {

pub struct Input {
    pub group: String,
    pub service: String,
    pub environment: String,
    pub display_order: Option<u32>,
}

#[derive(Clone, Debug, PartialEq, Eq)]
pub enum Error {
    InvalidInput(String),
    GateAlreadyExists,
    Internal(String),
}

pub open spec fn input_key(input: Input) -> GateKeyView {
    GateKeyView { group: input.group@, service: input.service@, environment: input.environment@ }
}

pub open spec fn has_empty_part(input: Input) -> bool {
    input.group@.len() == 0 || input.service@.len() == 0 || input.environment@.len() == 0
}

/// Creates a closed gate without comments, stamped `now`. An empty part of the
/// key is refused before the store is touched.
pub fn execute<S: Storage>(input: Input, storage: &mut S, now: UtcDateTime) -> (r: Result<Gate, Error>)
    requires
        old(storage).inv(),
        store_wf(old(storage).gates()),
    ensures
        final(storage).inv(),
        store_wf(final(storage).gates()),
        r matches Err(Error::InvalidInput(_)) <==> has_empty_part(input),
        r matches Err(Error::InvalidInput(_)) ==> final(storage).gates() == old(storage).gates(),
        r matches Ok(g) ==> {
            &&& g@ == fresh_gate(input_key(input), now, input.display_order)
            &&& !old(storage).gates().contains_key(input_key(input))
            &&& final(storage).gates() == old(storage).gates().insert(input_key(input), g@)
        },
        r matches Err(Error::GateAlreadyExists) ==> old(storage).gates().contains_key(input_key(input))
            && final(storage).gates() == old(storage).gates(),
        r matches Err(Error::Internal(_)) ==> final(storage).gates() == old(storage).gates() || (
        !old(storage).gates().contains_key(input_key(input)) && final(storage).gates()
            == old(storage).gates().insert(
            input_key(input),
            fresh_gate(input_key(input), now, input.display_order),
        )),
{
    if input.group.as_str().is_empty() || input.service.as_str().is_empty()
        || input.environment.as_str().is_empty() {
        return Err(Error::InvalidInput("group, service and environment must not be empty".to_owned()));
    }
    let key = GateKey { group: input.group, service: input.service, environment: input.environment };
    let gate = Gate::new(key, now, input.display_order);
    match storage.insert(&gate) {
        Ok(()) => Ok(gate),
        Err(InsertError::ItemAlreadyExists(_)) => Err(Error::GateAlreadyExists),
        Err(InsertError::NotPermitted(e)) => Err(Error::Internal(e)),
        Err(InsertError::Other(e)) => Err(Error::Internal(e)),
    }
}

} // verus!
