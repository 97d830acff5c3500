//! What goes wrong in the server.

use crate::protocol;
use crate::protocol::ProtocolError;
use vstd::prelude::*;

verus! {

/// Why the server could not serve a client.
#[derive(Debug, PartialEq, Eq)]
pub enum ServerError {
    /// Reading or writing failed, with this description.
    Io(String),
    /// A task of the server did not end as it should, with this description.
    Join(String),
    /// A message was not received or not sent.
    Protocol(ProtocolError),
    /// The working directory cannot be used, for this reason.
    InvalidPath(String),
    /// The terminal failed, with this description.
    Pty(String),
}

/// The contents of a [`ServerError`].
pub enum ServerFault {
    Io(Seq<char>),
    Join(Seq<char>),
    Protocol(protocol::ProtocolFault),
    InvalidPath(Seq<char>),
    Pty(Seq<char>),
}

impl View for ServerError {
    type V = ServerFault;

    open spec fn view(&self) -> ServerFault {
        match self {
            ServerError::Io(text) => ServerFault::Io(text@),
            ServerError::Join(text) => ServerFault::Join(text@),
            ServerError::Protocol(e) => ServerFault::Protocol(e@),
            ServerError::InvalidPath(text) => ServerFault::InvalidPath(text@),
            ServerError::Pty(text) => ServerFault::Pty(text@),
        }
    }
}

impl From<ProtocolError> for ServerError {
    fn from(e: ProtocolError) -> (r: ServerError) {
        ServerError::Protocol(e)
    }
}

impl vstd::std_specs::convert::FromSpecImpl<ProtocolError> for ServerError {
    open spec fn obeys_from_spec() -> bool {
        true
    }

    open spec fn from_spec(e: ProtocolError) -> ServerError {
        ServerError::Protocol(e)
    }
}

pub type ServerResult<T> = Result<T, ServerError>;

/// The contents of what the server came to.
pub open spec fn server_outcome<T: View>(r: ServerResult<T>) -> Result<T::V, ServerFault> {
    match r {
        Ok(value) => Ok(value@),
        Err(e) => Err(e@),
    }
}

} // verus!
