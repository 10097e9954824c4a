use vstd::prelude::*;

use crate::storage::{store_wf, DeleteError, Storage};
use crate::types::{GateKey, GateKeyView};

verus! {

pub struct Input {
    pub group: String,
    pub service: String,
    pub environment: String,
}

#[derive(Clone, Debug, PartialEq, Eq)]
pub enum Error {
    GateNotFound,
    Internal(String),
}

pub open spec fn input_key(input: Input) -> GateKeyView {
    GateKeyView { group: input.group@, service: input.service@, environment: input.environment@ }
}

/// Deletes a gate; it must exist.
pub fn execute<S: Storage>(input: Input, storage: &mut S) -> (r: Result<(), Error>)
    requires
        old(storage).inv(),
        store_wf(old(storage).gates()),
    ensures
        final(storage).inv(),
        store_wf(final(storage).gates()),
        r is Ok ==> old(storage).gates().contains_key(input_key(input)) && final(storage).gates()
            == old(storage).gates().remove(input_key(input)),
        r matches Err(Error::GateNotFound) ==> !old(storage).gates().contains_key(input_key(input))
            && final(storage).gates() == old(storage).gates(),
        r matches Err(Error::Internal(_)) ==> final(storage).gates() == old(storage).gates() || (
        old(storage).gates().contains_key(input_key(input)) && final(storage).gates()
            == old(storage).gates().remove(input_key(input))),
{
    let key = GateKey { group: input.group, service: input.service, environment: input.environment };
    match storage.delete(key) {
        Ok(()) => Ok(()),
        Err(DeleteError::ItemToDeleteNotFound(_)) => Err(Error::GateNotFound),
        Err(DeleteError::NotPermitted(e)) => Err(Error::Internal(e)),
        Err(DeleteError::Other(e)) => Err(Error::Internal(e)),
    }
}

} // verus!
