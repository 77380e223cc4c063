use vstd::prelude::*;

use crate::communication::event::DatabaseResponse;

verus! {

/// The item that a database answer carries: the one read by a `Get`, the one
/// written by a `Put`.
pub open spec fn response_item(response: DatabaseResponse<String>) -> String {
    match response {
        DatabaseResponse::GetSuccess(item) => item,
        DatabaseResponse::PutSuccess { item, .. } => item,
    }
}

/// What a client makes of the database's answer once parsed: the item it
/// carries, or the error that came instead.
pub fn read_database_response<E>(response: Result<DatabaseResponse<String>, E>) -> (result:
    Result<String, E>)
    ensures
        result == match response {
            Ok(r) => Ok::<String, E>(response_item(r)),
            Err(err) => Err::<String, E>(err),
        },
{
    match response {
        Ok(db_response) => match db_response {
            DatabaseResponse::GetSuccess(item) => Ok(item),
            DatabaseResponse::PutSuccess { id: _, item } => Ok(item),
        },
        Err(err) => Err(err),
    }
}

} // verus!
