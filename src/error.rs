use vstd::prelude::*;

verus! {

#[verifier::external_type_specification]
#[verifier::external_body]
pub struct ExIoError(std::io::Error);

/// Failures reported by the supervisor's operations.
#[derive(Debug)]
pub enum Error {
    /// The operating system could not create the process.
    Command(std::io::Error),
    /// The process was created without one of its standard streams or its id.
    Pipe,
    /// No live server is registered under this id.
    ServerNotFound(String),
    /// A live or starting server already carries this name.
    ServerNameExists(String),
    /// A live server is already registered under this id.
    ServerIdExists(String),
    /// The kill signal could not be confirmed as delivered.
    KillSignalFailed(String),
    /// Writing to a server's stdin failed for a reason other than a closed pipe.
    Io(std::io::Error),
}

pub type Result<T> = core::result::Result<T, Error>;

impl Error {
    /// `ServerNotFound` for the server `id`.
    pub open spec fn is_not_found(self, id: Seq<char>) -> bool {
        self matches Error::ServerNotFound(n) && n@ == id
    }

    /// `ServerNameExists` for the name `name`.
    pub open spec fn is_name_taken(self, name: Seq<char>) -> bool {
        self matches Error::ServerNameExists(n) && n@ == name
    }

    /// `ServerIdExists` for the server `id`.
    pub open spec fn is_id_taken(self, id: Seq<char>) -> bool {
        self matches Error::ServerIdExists(n) && n@ == id
    }

    /// `KillSignalFailed` for the server `id`.
    pub open spec fn is_kill_failed(self, id: Seq<char>) -> bool {
        self matches Error::KillSignalFailed(n) && n@ == id
    }
}

} // verus!
