//! The ways in which a run, or the filing of one note, fails.
use vstd::prelude::*;

verus! {

/// What went wrong.
#[derive(Clone, Copy, Debug, PartialEq, Eq, Structural)]
pub enum OrganizeError {
    /// A request could not reach the note application; ends the run.
    Transport,
    /// A response did not have the expected shape; ends the run.
    Decode,
    /// No top-level folder carries the inbox's title; ends the run.
    InboxNotFound,
    /// A note's title holds no `/`; that note is left where it is.
    MalformedTitle,
}

impl OrganizeError {
    /// A short description for diagnostics.
    pub fn message(&self) -> (r: &'static str) {
        match self {
            OrganizeError::Transport => "the note application could not be reached",
            OrganizeError::Decode => "a response had an unexpected shape",
            OrganizeError::InboxNotFound => "no folder carries the inbox title",
            OrganizeError::MalformedTitle => "the note title has no author separator",
        }
    }

    /// Whether the error ends the whole run, rather than the filing of one note.
    pub fn is_fatal(&self) -> (r: bool)
        ensures
            r == (*self != OrganizeError::MalformedTitle),
    {
        !matches!(self, OrganizeError::MalformedTitle)
    }
}

} // verus!
