use vstd::prelude::*;

verus! {

/// Why a single resource could not be had.
#[derive(Clone, Copy, Debug, PartialEq, Eq, Structural)]
pub enum FetchError {
    /// The retrieval itself failed, or the host answered with a non-success status.
    Transport,
    /// The body could not be decoded to text.
    Decode,
}

/// A named resource and where to fetch it from.
pub struct ResourceRequest {
    pub name: String,
    pub location: String,
}

impl ResourceRequest {
    pub fn new(name: String, location: String) -> (r: ResourceRequest)
        ensures
            r.name@ == name@,
            r.location@ == location@,
    {
        ResourceRequest { name, location }
    }
}

/// The abstract value of a fetch result: text or a failure.
pub open spec fn result_view(r: Result<String, FetchError>) -> Result<Seq<char>, FetchError> {
    match r {
        Ok(t) => Ok(t@),
        Err(e) => Err(e),
    }
}

/// What one fetch-and-decode attempt comes to, from what the host reported:
/// whether the retrieval went through, whether the status was a success, and
/// the decoded body text, if decoding gave one. There is no retry.
pub fn fetch_outcome(transport_ok: bool, status_ok: bool, body: Option<String>) -> (r: Result<
    String,
    FetchError,
>)
    ensures
        !(transport_ok && status_ok) ==> r == Err::<String, FetchError>(FetchError::Transport),
        transport_ok && status_ok && body is None ==> r == Err::<String, FetchError>(
            FetchError::Decode,
        ),
        transport_ok && status_ok && body is Some ==> r == Ok::<String, FetchError>(body->0),
{
    if !(transport_ok && status_ok) {
        Err(FetchError::Transport)
    } else {
        match body {
            Some(text) => Ok(text),
            None => Err(FetchError::Decode),
        }
    }
}

} // verus!
