use vstd::prelude::*;

verus! {

/// Why a registration was refused. Every error is final for the call that
/// produced it; nothing is retried.
#[derive(Clone, Copy, Debug, PartialEq, Eq, Structural)]
pub enum ShardError {
    /// The repository name is longer than 64 bytes.
    RepoTooLong,
    /// The author name is longer than 40 bytes.
    AuthorTooLong,
    /// A record already occupies the address derived from the fingerprint.
    AlreadyRegistered,
    /// No disambiguator in the search space gave a usable address.
    DerivationExhausted,
}

impl ShardError {
    /// The human-readable message of the error.
    pub fn message(&self) -> (text: &'static str)
        ensures
            text@ == self.message_spec(),
    {
        match self {
            ShardError::RepoTooLong => "Repo name exceeds 64 characters",
            ShardError::AuthorTooLong => "Author name exceeds 40 characters",
            ShardError::AlreadyRegistered => "Fingerprint is already registered",
            ShardError::DerivationExhausted => "No valid address found for fingerprint",
        }
    }

    /// The message that belongs to each error.
    pub open spec fn message_spec(&self) -> Seq<char> {
        match self {
            ShardError::RepoTooLong => "Repo name exceeds 64 characters"@,
            ShardError::AuthorTooLong => "Author name exceeds 40 characters"@,
            ShardError::AlreadyRegistered => "Fingerprint is already registered"@,
            ShardError::DerivationExhausted => "No valid address found for fingerprint"@,
        }
    }
}

} // verus!
