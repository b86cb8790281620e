//! Why a vote can be turned down.
use vstd::prelude::*;

verus! {

/// The reason a vote was not recorded.
#[derive(Clone, Copy, Debug, PartialEq, Eq, Structural)]
pub enum ErrorKind {
    /// No poll has the given id.
    PollNotFound,
    /// The caller already has a ballot in the poll.
    AlreadyVoted,
    /// The option index is not below the number of options of the poll.
    InvalidOption,
}

impl ErrorKind {
    /// The text shown to a client for this error.
    pub open spec fn message_text(self) -> Seq<char> {
        match self {
            ErrorKind::PollNotFound => "Poll not found"@,
            ErrorKind::AlreadyVoted => "Already voted"@,
            ErrorKind::InvalidOption => "Invalid option"@,
        }
    }

    /// Returns the text shown to a client for this error.
    pub fn message(&self) -> (text: String)
        ensures
            text@ == self.message_text(),
    {
        broadcast use vstd::string::to_string_from_display_ensures_for_str;

        match self {
            ErrorKind::PollNotFound => "Poll not found".to_string(),
            ErrorKind::AlreadyVoted => "Already voted".to_string(),
            ErrorKind::InvalidOption => "Invalid option".to_string(),
        }
    }
}

} // verus!
