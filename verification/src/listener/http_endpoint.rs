use vstd::prelude::*;

verus! {

/// Why the REST endpoint could not serve a request.
#[derive(Clone, Copy, Debug, PartialEq, Eq, Structural)]
pub enum EndpointError {
    /// The database holds no such item.
    NotFound,
    /// The request names no item.
    UnprocessableEntity,
    /// The database did not store the item.
    InternalServerError,
}

impl EndpointError {
    /// The HTTP status code of the error.
    pub fn status_code(&self) -> (code: u16)
        ensures
            code == match *self {
                EndpointError::NotFound => 404u16,
                EndpointError::UnprocessableEntity => 422u16,
                EndpointError::InternalServerError => 500u16,
            },
    {
        match self {
            EndpointError::NotFound => 404,
            EndpointError::UnprocessableEntity => 422,
            EndpointError::InternalServerError => 500,
        }
    }
}

/// The text that the endpoint's root serves.
pub open spec fn root_text() -> Seq<char> {
    "This is a REST endpoint to the backend database\nYou can send GET and POST requests to /item"@
}

/// The text that the endpoint's root serves.
pub fn root_message() -> (text: String)
    ensures
        text@ == root_text(),
{
    String::from_str(
        "This is a REST endpoint to the backend database\nYou can send GET and POST requests to /item",
    )
}

/// The answer to a GET of an item: `None` when the path names no item, else
/// what the database answered for it.
pub fn get_item_reply<E>(lookup: Option<Result<String, E>>) -> (reply: Result<String, EndpointError>)
    ensures
        reply == match lookup {
            Some(Ok(item)) => Ok::<String, EndpointError>(item),
            Some(Err(_)) => Err::<String, EndpointError>(EndpointError::NotFound),
            None => Err::<String, EndpointError>(EndpointError::UnprocessableEntity),
        },
{
    match lookup {
        Some(result) => match result {
            Ok(item) => Ok(item),
            Err(_) => Err(EndpointError::NotFound),
        },
        None => Err(EndpointError::UnprocessableEntity),
    }
}

/// The answer to a POST of an item, from what the database answered.
pub fn put_item_reply<E>(result: Result<String, E>) -> (reply: Result<String, EndpointError>)
    ensures
        reply == match result {
            Ok(item) => Ok::<String, EndpointError>(item),
            Err(_) => Err::<String, EndpointError>(EndpointError::InternalServerError),
        },
{
    match result {
        Ok(item) => Ok(item),
        Err(_) => Err(EndpointError::InternalServerError),
    }
}

} // verus!
