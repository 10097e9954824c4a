use vstd::prelude::*;

use crate::business_hours::{close_if_time, masked, BusinessWeek};
use crate::storage::{store_wf, gate_views, lists_exactly, FindError, Storage};
use crate::types::{Gate, GateView, UtcDateTime};

verus! {

#[derive(Clone, Debug, PartialEq, Eq)]
pub enum Error {
    Internal(String),
}

/// Each gate as it should be reported at `t`.
pub open spec fn masked_all(w: BusinessWeek, t: UtcDateTime, s: Seq<GateView>) -> Seq<GateView> {
    s.map_values(|g: GateView| masked(w, t, g))
}

/// Every gate, each as it should be reported at `now`. A gate that cannot be
/// read back fails the whole listing.
pub fn execute<S: Storage>(storage: &S, week: &BusinessWeek, now: UtcDateTime) -> (r: Result<Vec<Gate>, Error>)
    requires
        storage.inv(),
        store_wf(storage.gates()),
    ensures
        r matches Ok(v) ==> exists|stored: Seq<GateView>|
            lists_exactly(stored, storage.gates()) && gate_views(v@) == masked_all(*week, now, stored),
{
    match storage.find_all() {
        Ok(gates) => {
            let mut out: Vec<Gate> = Vec::new();
            let mut i: usize = 0;
            while i < gates.len()
                invariant
                    i <= gates@.len(),
                    out@.len() == i,
                    forall|j: int| 0 <= j < i ==> #[trigger] out@[j]@ == masked(*week, now, gates@[j]@),
                decreases gates@.len() - i,
            {
                out.push(close_if_time(week, now, gates[i].duplicate()));
                i = i + 1;
            }
            assert(gate_views(out@) =~= masked_all(*week, now, gate_views(gates@)));
            Ok(out)
        },
        Err(FindError::ItemCouldNotBeDecoded(e)) => Err(Error::Internal(e)),
        Err(FindError::Other(e)) => Err(Error::Internal(e)),
    }
}

} // verus!
