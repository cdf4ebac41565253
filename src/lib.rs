//! Files the notes of an inbox folder into one subfolder per author.
//!
//! The library holds the logic of a run against a note application's local
//! REST interface: the request addresses, the page-by-page collection of a
//! resource, the location of the inbox and of its subfolders, and the
//! decision taken for each note. Performing the requests is left to the caller.
pub mod children;
pub mod endpoint;
pub mod error;
pub mod model;
pub mod organizer;
pub mod paging;
pub mod title;

pub use endpoint::{folder_url, note_tags_url, note_url, url};
pub use error::OrganizeError;
pub use model::{Folder, Note, Tag};
pub use organizer::{Decision, Organizer};
pub use paging::Pager;
