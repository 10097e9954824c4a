use vstd::prelude::*;

verus! {

/// A source of fresh comment ids.
pub trait IdProvider {
    fn get(&self) -> String;
}

/// Relies on `cuid2::create_id`: a new random identifier; nothing is known
/// of its value in advance.
#[verifier::external_body]
fn create_id() -> (r: String) {
    cuid2::create_id()
}

/// Hands out collision-resistant random ids.
pub struct DefaultIdProvider;

impl IdProvider for DefaultIdProvider {
    fn get(&self) -> (r: String) {
        create_id()
    }
}

pub fn default() -> (r: DefaultIdProvider) {
    DefaultIdProvider
}

} // verus!
