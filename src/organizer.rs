//! Locating the inbox and deciding, note by note, where each note goes.
//!
//! A run starts from the folder listing: [`Organizer::resolve`] finds the inbox
//! and indexes its subfolders. For each note of the inbox the caller fetches
//! the note's tags and asks [`Organizer::decide`]. A `CreateFolder` answer asks
//! the caller to create the author's folder, report its id through
//! [`Organizer::folder_created`], and ask again: the answer is then a `Move`.
use vstd::prelude::*;
use vstd::string::StrSliceExecFns;

use crate::children::ChildIndex;
use crate::error::OrganizeError;
use crate::model::{Folder, Note, Tag};
use crate::title::{author_of, has_separator, item_of, split_title};

verus! {

/// Whether `f` is a top-level folder titled `name`.
pub open spec fn is_inbox(f: Folder, name: Seq<char>) -> bool {
    f.title@ == name && f.parent_id@.len() == 0
}

/// Whether `i` is the position of the first inbox candidate among `folders`.
pub open spec fn is_first_inbox(folders: Seq<Folder>, name: Seq<char>, i: int) -> bool {
    &&& 0 <= i < folders.len()
    &&& is_inbox(folders[i], name)
    &&& forall|j: int| 0 <= j < i ==> !is_inbox(#[trigger] folders[j], name)
}

/// The direct subfolders of `parent` among `folders`, by title; where two share
/// a title, the later one wins.
pub open spec fn children_of(folders: Seq<Folder>, parent: Seq<char>) -> Map<Seq<char>, Seq<char>>
    decreases folders.len(),
{
    if folders.len() == 0 {
        Map::empty()
    } else {
        let rest = children_of(folders.drop_last(), parent);
        let f = folders.last();
        if f.parent_id@ == parent {
            rest.insert(f.title@, f.id@)
        } else {
            rest
        }
    }
}

/// The state of a run: the inbox and its subfolders by title.
pub ghost struct RunState {
    pub inbox_id: Seq<char>,
    pub children: Map<Seq<char>, Seq<char>>,
}

/// What to do with one note.
#[derive(Clone, Debug)]
pub enum Decision {
    /// Leave the note alone: it has no tags.
    Skip,
    /// Leave the note alone: its title has no author separator.
    Malformed,
    /// Create the folder `title` under `parent_id`, then ask again.
    CreateFolder { title: String, parent_id: String },
    /// Give note `note_id` the title `title` and move it into `folder_id`.
    Move { note_id: String, folder_id: String, title: String },
}

/// The model of a [`Decision`].
pub ghost enum Step {
    Skip,
    Malformed,
    CreateFolder { title: Seq<char>, parent_id: Seq<char> },
    Move { note_id: Seq<char>, folder_id: Seq<char>, title: Seq<char> },
}

impl View for Decision {
    type V = Step;

    open spec fn view(&self) -> Step {
        match self {
            Decision::Skip => Step::Skip,
            Decision::Malformed => Step::Malformed,
            Decision::CreateFolder { title, parent_id } => Step::CreateFolder {
                title: title@,
                parent_id: parent_id@,
            },
            Decision::Move { note_id, folder_id, title } => Step::Move {
                note_id: note_id@,
                folder_id: folder_id@,
                title: title@,
            },
        }
    }
}

/// The step for a note with id `note_id`, title `title` and `tags` tags: untagged
/// notes stay; a tagged note whose author has a folder moves there under its
/// item as title; otherwise the author's folder is created first, under the inbox.
pub open spec fn step_for(s: RunState, note_id: Seq<char>, title: Seq<char>, tags: nat) -> Step {
    if tags == 0 {
        Step::Skip
    } else if !has_separator(title) {
        Step::Malformed
    } else if s.children.contains_key(author_of(title)) {
        Step::Move {
            note_id,
            folder_id: s.children[author_of(title)],
            title: item_of(title),
        }
    } else {
        Step::CreateFolder { title: author_of(title), parent_id: s.inbox_id }
    }
}

/// The state once the folder `title` has been created with id `id`.
pub open spec fn after_created(s: RunState, title: Seq<char>, id: Seq<char>) -> RunState {
    RunState { inbox_id: s.inbox_id, children: s.children.insert(title, id) }
}

/// The position of the first top-level folder titled `name`.
pub fn find_inbox(folders: &Vec<Folder>, name: &str) -> (r: Result<usize, OrganizeError>)
    ensures
        r matches Ok(i) ==> is_first_inbox(folders@, name@, i as int),
        r is Err <==> forall|j: int| 0 <= j < folders@.len() ==> !is_inbox(#[trigger] folders@[j], name@),
        r matches Err(e) ==> e == OrganizeError::InboxNotFound,
{
    let wanted = name.to_owned();
    let mut i: usize = 0;
    while i < folders.len()
        invariant
            wanted@ == name@,
            i <= folders@.len(),
            forall|j: int| 0 <= j < i ==> !is_inbox(#[trigger] folders@[j], name@),
        decreases folders@.len() - i,
    {
        let f = &folders[i];
        if f.title == wanted && f.parent_id.as_str().unicode_len() == 0 {
            assert(is_inbox(folders@[i as int], name@));
            return Ok(i);
        }
        i = i + 1;
    }
    Err(OrganizeError::InboxNotFound)
}

/// The direct subfolders of `parent` among `folders`, by title.
pub fn index_children(folders: &Vec<Folder>, parent: &String) -> (r: ChildIndex)
    ensures
        r@ == children_of(folders@, parent@),
{
    let mut index = ChildIndex::new();
    let mut i: usize = 0;
    while i < folders.len()
        invariant
            i <= folders@.len(),
            index@ == children_of(folders@.take(i as int), parent@),
        decreases folders@.len() - i,
    {
        let f = &folders[i];
        proof {
            assert(folders@.take(i + 1).drop_last() =~= folders@.take(i as int));
            assert(folders@.take(i + 1).last() == folders@[i as int]);
        }
        if f.parent_id == *parent {
            index.insert(f.title.clone(), f.id.clone());
        }
        i = i + 1;
    }
    assert(folders@.take(i as int) =~= folders@);
    index
}

/// The state of one run of filing.
pub struct Organizer {
    inbox_id: String,
    children: ChildIndex,
}

impl View for Organizer {
    type V = RunState;

    closed spec fn view(&self) -> RunState {
        RunState { inbox_id: self.inbox_id@, children: self.children@ }
    }
}

impl Organizer {
    /// Starts a run from the folder listing: the inbox is the first top-level
    /// folder titled `inbox_name`, and its direct subfolders are indexed.
    ///
    /// Fails with `InboxNotFound` exactly when no top-level folder has that title.
    pub fn resolve(folders: &Vec<Folder>, inbox_name: &str) -> (r: Result<
        Organizer,
        OrganizeError,
    >)
        ensures
            r is Err <==> forall|j: int|
                0 <= j < folders@.len() ==> !is_inbox(#[trigger] folders@[j], inbox_name@),
            r matches Err(e) ==> e == OrganizeError::InboxNotFound,
            r matches Ok(o) ==> exists|i: int|
                is_first_inbox(folders@, inbox_name@, i) && o@ == (RunState {
                    inbox_id: folders@[i].id@,
                    children: children_of(folders@, folders@[i].id@),
                }),
    {
        match find_inbox(folders, inbox_name) {
            Ok(i) => {
                let inbox_id = folders[i].id.clone();
                let children = index_children(folders, &inbox_id);
                Ok(Organizer { inbox_id, children })
            },
            Err(e) => Err(e),
        }
    }

    /// A run on the inbox `inbox_id` whose subfolders are `children`.
    pub fn from_parts(inbox_id: String, children: ChildIndex) -> (r: Organizer)
        ensures
            r@ == (RunState { inbox_id: inbox_id@, children: children@ }),
    {
        Organizer { inbox_id, children }
    }

    /// The id of the inbox.
    pub fn inbox_id(&self) -> (r: &String)
        ensures
            r@ == self@.inbox_id,
    {
        &self.inbox_id
    }

    /// The id of the subfolder titled `title`, if the inbox has one.
    pub fn child_id(&self, title: &String) -> (r: Option<String>)
        ensures
            r is Some <==> self@.children.contains_key(title@),
            r matches Some(id) ==> id@ == self@.children[title@],
    {
        self.children.get(title)
    }

    /// What to do with `note`, which carries `tags`.
    pub fn decide(&self, note: &Note, tags: &Vec<Tag>) -> (r: Decision)
        ensures
            r@ == step_for(self@, note.id@, note.title@, tags@.len()),
    {
        if tags.len() == 0 {
            return Decision::Skip;
        }
        match split_title(note.title.as_str()) {
            Err(_) => Decision::Malformed,
            Ok((author, item)) => match self.children.get(&author) {
                Some(folder_id) => Decision::Move {
                    note_id: note.id.clone(),
                    folder_id,
                    title: item,
                },
                None => Decision::CreateFolder { title: author, parent_id: self.inbox_id.clone() },
            },
        }
    }

    /// Records that the folder `title` was created under the inbox with id `id`.
    pub fn folder_created(&mut self, title: String, id: String)
        ensures
            final(self)@ == after_created(old(self)@, title@, id@),
    {
        self.children.insert(title, id);
    }
}

/// Once a note's author folder has been created and recorded, every tagged note
/// by the same author, that note included, is moved into that folder under its
/// item as title, and no second folder is asked for.
pub proof fn lemma_created_folder_reused(
    s: RunState,
    first_id: Seq<char>,
    first_title: Seq<char>,
    first_tags: nat,
    new_id: Seq<char>,
    note_id: Seq<char>,
    title: Seq<char>,
    tags: nat,
)
    requires
        step_for(s, first_id, first_title, first_tags) is CreateFolder,
        tags > 0,
        has_separator(title),
        author_of(title) == author_of(first_title),
    ensures
        step_for(after_created(s, author_of(first_title), new_id), note_id, title, tags) == (Step::Move {
            note_id,
            folder_id: new_id,
            title: item_of(title),
        }),
{
}

/// Tags gate filing: a note without tags is left alone, with no folder created
/// and no move, and a note with at least one tag is always considered.
pub proof fn lemma_tag_gate(s: RunState, note_id: Seq<char>, title: Seq<char>, tags: nat)
    ensures
        tags == 0 ==> step_for(s, note_id, title, tags) == Step::Skip,
        tags > 0 ==> !(step_for(s, note_id, title, tags) is Skip),
{
}

/// The folders that a run over `notes` (id, title and tag count of each, in
/// order) asks to create, when the folder created for an author gets the id
/// `ids(author)`: each `CreateFolder` step is followed by the creation and a
/// second decision on the same note.
pub open spec fn folders_created(
    s: RunState,
    notes: Seq<(Seq<char>, Seq<char>, nat)>,
    ids: spec_fn(Seq<char>) -> Seq<char>,
) -> Seq<Seq<char>>
    decreases notes.len(),
{
    if notes.len() == 0 {
        Seq::empty()
    } else {
        let note = notes[0];
        match step_for(s, note.0, note.1, note.2) {
            Step::CreateFolder { title, .. } => seq![title] + folders_created(
                after_created(s, title, ids(title)),
                notes.drop_first(),
                ids,
            ),
            _ => folders_created(s, notes.drop_first(), ids),
        }
    }
}

/// In one run at most one folder is created per author, and none for an author
/// whose folder the inbox already had.
pub proof fn lemma_one_folder_per_author(
    s: RunState,
    notes: Seq<(Seq<char>, Seq<char>, nat)>,
    ids: spec_fn(Seq<char>) -> Seq<char>,
)
    ensures
        folders_created(s, notes, ids).no_duplicates(),
        forall|k: int|
            0 <= k < folders_created(s, notes, ids).len() ==> !s.children.contains_key(
                #[trigger] folders_created(s, notes, ids)[k],
            ),
    decreases notes.len(),
{
    if notes.len() > 0 {
        let note = notes[0];
        match step_for(s, note.0, note.1, note.2) {
            Step::CreateFolder { title, .. } => {
                let next = after_created(s, title, ids(title));
                lemma_one_folder_per_author(next, notes.drop_first(), ids);
                let rest = folders_created(next, notes.drop_first(), ids);
                let all = folders_created(s, notes, ids);
                assert(all == seq![title] + rest);
                assert forall|k: int| 0 <= k < all.len() implies !s.children.contains_key(
                    #[trigger] all[k],
                ) by {
                    if k > 0 {
                        assert(all[k] == rest[k - 1]);
                        assert(!next.children.contains_key(rest[k - 1]));
                    }
                }
                assert forall|a: int, b: int|
                    0 <= a < all.len() && 0 <= b < all.len() && a != b implies all[a]
                    != all[b] by {
                    if a > 0 && b > 0 {
                        assert(all[a] == rest[a - 1]);
                        assert(all[b] == rest[b - 1]);
                    } else if a == 0 {
                        assert(all[b] == rest[b - 1]);
                        assert(!next.children.contains_key(rest[b - 1]));
                    } else {
                        assert(all[a] == rest[a - 1]);
                        assert(!next.children.contains_key(rest[a - 1]));
                    }
                }
            },
            _ => {
                lemma_one_folder_per_author(s, notes.drop_first(), ids);
            },
        }
    }
}

} // verus!
