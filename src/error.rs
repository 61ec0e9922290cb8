use vstd::prelude::*;

verus! {

/// Why an operation on the ledger was rejected. A rejected operation leaves
/// the ledger unchanged.
#[derive(Debug, Clone, Copy, PartialEq, Eq, Structural)]
pub enum VotingError {
    /// A topic needs two or three answer options.
    InvalidOptionsCount,
    /// The selected option is not one of the topic's options.
    InvalidOption,
    /// A topic is already stored at the address of these identifiers.
    TopicAlreadyExists,
    /// No topic is stored at the address of these identifiers.
    TopicNotFound,
    /// This participant has already voted on this topic.
    AlreadyVoted,
    /// No program address can be derived from these keys.
    MalformedKey,
    /// The operation could not be committed: a counter is at its maximum.
    Aborted,
}

impl VotingError {
    /// A short human-readable description of the error.
    pub fn message(&self) -> (r: &'static str) {
        match self {
            VotingError::InvalidOptionsCount => "Invalid number of options. Must be 2 or 3.",
            VotingError::InvalidOption => "Selected option does not exist.",
            VotingError::TopicAlreadyExists => "A voting already exists for these identifiers.",
            VotingError::TopicNotFound => "No voting exists for these identifiers.",
            VotingError::AlreadyVoted => "This voter has already voted.",
            VotingError::MalformedKey => "No program address can be derived from these keys.",
            VotingError::Aborted => "The operation could not be committed.",
        }
    }
}

} // verus!
