use vstd::prelude::*;

use super::store::datastore::{DataStore, HashMapStore, StoreError};
use crate::communication::event::{DatabaseRequest, DatabaseResponse, RaftResponse};

verus! {

/// Why the database could not answer a request.
#[derive(Clone, Copy, Debug, PartialEq, Eq, Structural)]
pub enum DatabaseError {
    /// No item is stored under the requested identifier.
    NotFound,
    /// The store refused to keep the item.
    Store(StoreError),
}

/// The key-value database of one instance: string items under string
/// identifiers.
#[verifier::reject_recursive_types(T)]
pub struct Database<T> {
    store: HashMapStore<T>,
}

impl<T> Database<T> {
    /// The items the database holds, by identifier.
    pub closed spec fn contents(&self) -> Map<Seq<char>, T> {
        self.store.contents()
    }
}

/// What a `Get` of `id` answers on a database holding `contents`.
pub open spec fn get_outcome(contents: Map<Seq<char>, String>, id: Seq<char>) -> Result<
    DatabaseResponse<String>,
    DatabaseError,
> {
    if contents.contains_key(id) {
        Ok(DatabaseResponse::GetSuccess(contents[id]))
    } else {
        Err(DatabaseError::NotFound)
    }
}

impl Database<String> {
    /// An empty database.
    pub fn new() -> (db: Self)
        ensures
            db.contents() == Map::<Seq<char>, String>::empty(),
    {
        Database { store: HashMapStore::new() }
    }

    /// Applies a request that the Raft peers answered with `raft_response`:
    /// once committed, a `Get` reads and a `Put` writes the local store.
    pub fn handle_raft_response(
        &mut self,
        raft_response: RaftResponse,
        request: DatabaseRequest<String>,
    ) -> (result: Result<DatabaseResponse<String>, DatabaseError>)
        requires
            raft_response == RaftResponse::Committed,
        ensures
            match request {
                DatabaseRequest::Get(id) => {
                    &&& final(self).contents() == old(self).contents()
                    &&& result == get_outcome(old(self).contents(), id@)
                },
                DatabaseRequest::Put { id, item } => {
                    &&& final(self).contents() == old(self).contents().insert(id@, item)
                    &&& result == Ok::<DatabaseResponse<String>, DatabaseError>(
                        DatabaseResponse::PutSuccess { id, item },
                    )
                },
            },
    {
        match raft_response {
            RaftResponse::Committed => match request {
                DatabaseRequest::Get(id) => self.get(id),
                DatabaseRequest::Put { id, item } => self.put(id, item),
            },
            RaftResponse::VoteGranted => {
                assert(false);
                Err(DatabaseError::NotFound)
            },
        }
    }

    /// The item stored under `id`.
    pub fn get(&self, id: String) -> (result: Result<DatabaseResponse<String>, DatabaseError>)
        ensures
            result == get_outcome(self.contents(), id@),
    {
        match self.store.get(&id) {
            Some(item) => Ok(DatabaseResponse::GetSuccess(item.clone())),
            None => Err(DatabaseError::NotFound),
        }
    }

    /// Stores `item` under `id`; answers with both.
    pub fn put(&mut self, id: String, item: String) -> (result: Result<
        DatabaseResponse<String>,
        DatabaseError,
    >)
        ensures
            final(self).contents() == old(self).contents().insert(id@, item),
            result == Ok::<DatabaseResponse<String>, DatabaseError>(
                DatabaseResponse::PutSuccess { id, item },
            ),
    {
        match self.store.put(id.clone(), item.clone()) {
            Ok(()) => Ok(DatabaseResponse::PutSuccess { id, item }),
            Err(err) => Err(DatabaseError::Store(err)),
        }
    }
}

/// What was put under an identifier is what a later `Get` of it answers, and
/// a `Put` leaves the answers for every other identifier as they were.
pub proof fn law_get_after_put(
    contents: Map<Seq<char>, String>,
    id: Seq<char>,
    item: String,
    other: Seq<char>,
)
    ensures
        get_outcome(contents.insert(id, item), id) == Ok::<
            DatabaseResponse<String>,
            DatabaseError,
        >(DatabaseResponse::GetSuccess(item)),
        other != id ==> get_outcome(contents.insert(id, item), other) == get_outcome(
            contents,
            other,
        ),
{
}

} // verus!
