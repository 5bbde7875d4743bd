//! How a flow fails.
use vstd::prelude::*;

verus! {

/// The error of an operation of the system. It is carried, not looked into.
#[verifier::external_type_specification]
#[verifier::external_body]
pub struct ExIoError(std::io::Error);

#[derive(Debug)]
pub enum FlowError {
    Io(std::io::Error),
    Eof,
    UnexpectedData,
    NoOutbound,
}

pub type FlowResult<T> = Result<T, FlowError>;

/// What each error says.
pub open spec fn message_of(e: FlowError) -> Seq<char> {
    match e {
        FlowError::Io(_) => "IO Error"@,
        FlowError::Eof => "End of stream"@,
        FlowError::UnexpectedData => "Unexpected data received"@,
        FlowError::NoOutbound => "Cannot find a matching outbound"@,
    }
}

impl FlowError {
    pub fn message(&self) -> (m: String)
        ensures
            m@ == message_of(*self),
    {
        match self {
            FlowError::Io(_) => "IO Error".to_string(),
            FlowError::Eof => "End of stream".to_string(),
            FlowError::UnexpectedData => "Unexpected data received".to_string(),
            FlowError::NoOutbound => "Cannot find a matching outbound".to_string(),
        }
    }
}

} // verus!
