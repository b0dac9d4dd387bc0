use vstd::prelude::*;

verus! {

/// What can go wrong in the application, each kind with its message.
#[derive(Debug)]
pub enum AppError {
    Io(String),
    Network(String),
    Api(String),
    Audio(String),
    Metadata(String),
    NotFound(String),
    Other(String),
}

impl AppError {
    /// The message that the error carries.
    pub open spec fn spec_message(&self) -> Seq<char> {
        match self {
            AppError::Io(m) => m@,
            AppError::Network(m) => m@,
            AppError::Api(m) => m@,
            AppError::Audio(m) => m@,
            AppError::Metadata(m) => m@,
            AppError::NotFound(m) => m@,
            AppError::Other(m) => m@,
        }
    }

    /// The message that the error carries, as an owned string.
    pub fn message(&self) -> (r: String)
        ensures
            r@ == self.spec_message(),
    {
        match self {
            AppError::Io(m) => m.clone(),
            AppError::Network(m) => m.clone(),
            AppError::Api(m) => m.clone(),
            AppError::Audio(m) => m.clone(),
            AppError::Metadata(m) => m.clone(),
            AppError::NotFound(m) => m.clone(),
            AppError::Other(m) => m.clone(),
        }
    }
}

} // verus!
