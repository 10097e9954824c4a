use vstd::prelude::*;

use crate::business_hours::{close_if_time, masked, BusinessWeek};
use crate::storage::{store_wf, FindError, Storage};
use crate::types::{Gate, GateKey, GateKeyView, UtcDateTime};

verus! {

pub struct Input {
    pub group: String,
    pub service: String,
    pub environment: String,
}

#[derive(Clone, Debug, PartialEq, Eq)]
pub enum Error {
    Internal(String),
}

pub open spec fn input_key(input: Input) -> GateKeyView {
    GateKeyView { group: input.group@, service: input.service@, environment: input.environment@ }
}

/// Reads one gate as it should be reported at `now`: closed while the week
/// is closed, whatever is stored.
pub fn execute<S: Storage>(input: Input, storage: &S, week: &BusinessWeek, now: UtcDateTime) -> (r:
    Result<Option<Gate>, Error>)
    requires
        storage.inv(),
        store_wf(storage.gates()),
    ensures
        r matches Ok(None) ==> !storage.gates().contains_key(input_key(input)),
        r matches Ok(Some(g)) ==> storage.gates().contains_key(input_key(input)) && g@ == masked(
            *week,
            now,
            storage.gates()[input_key(input)],
        ),
{
    let key = GateKey { group: input.group, service: input.service, environment: input.environment };
    match storage.find_one(key) {
        Ok(Some(g)) => Ok(Some(close_if_time(week, now, g))),
        Ok(None) => Ok(None),
        Err(FindError::ItemCouldNotBeDecoded(e)) => Err(Error::Internal(e)),
        Err(FindError::Other(e)) => Err(Error::Internal(e)),
    }
}

} // verus!
