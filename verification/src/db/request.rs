use vstd::prelude::*;

verus! {

/// A request to a key-value store, keyed by string identifiers.
#[derive(Clone, Debug)]
pub enum Request<T> {
    Get(String),
    Put { id: String, item: T },
}

} // verus!
