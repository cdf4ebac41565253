//! The records that the note application serves.
use vstd::prelude::*;

verus! {

/// A notebook folder.
#[derive(Clone, Debug)]
pub struct Folder {
    pub id: String,
    pub title: String,
    /// The id of the enclosing folder; empty for a top-level folder.
    pub parent_id: String,
}

/// A note.
#[derive(Clone, Debug)]
pub struct Note {
    pub id: String,
    /// By convention `author/item`.
    pub title: String,
    /// The id of the folder that holds the note.
    pub parent_id: String,
}

/// A tag attached to a note.
#[derive(Clone, Debug)]
pub struct Tag {
    pub id: String,
    pub title: String,
}

} // verus!
