use jfo::children::ChildIndex;
use jfo::organizer::find_inbox;
use jfo::{Decision, Folder, Note, OrganizeError, Organizer, Tag};

fn folder(id: &str, title: &str, parent_id: &str) -> Folder {
    Folder { id: id.to_string(), title: title.to_string(), parent_id: parent_id.to_string() }
}

fn note(id: &str, title: &str) -> Note {
    Note { id: id.to_string(), title: title.to_string(), parent_id: "INBOX".to_string() }
}

fn tags(n: usize) -> Vec<Tag> {
    (0..n).map(|i| Tag { id: format!("T{}", i), title: format!("tag{}", i) }).collect()
}

/// Files `notes` as a caller of the library would, against a recording
/// server that gives new folders the ids in `new_ids`; returns the calls made.
fn run(org: &mut Organizer, notes: &[(Note, usize)], new_ids: &[&str]) -> Vec<String> {
    let mut calls = Vec::new();
    let mut next_id = 0;
    for (n, tag_count) in notes {
        calls.push(format!("tags {}", n.id));
        let note_tags = tags(*tag_count);
        let mut decision = org.decide(n, &note_tags);
        if let Decision::CreateFolder { title, parent_id } = &decision {
            calls.push(format!("create {} under {}", title, parent_id));
            let id = new_ids[next_id].to_string();
            next_id += 1;
            org.folder_created(title.clone(), id);
            decision = org.decide(n, &note_tags);
        }
        if let Decision::Move { note_id, folder_id, title } = &decision {
            calls.push(format!("move {} to {} as {}", note_id, folder_id, title));
        }
    }
    calls
}

#[test]
fn inbox_resolution_picks_matching_folder() {
    let folders = vec![folder("A", "Inbox", ""), folder("B", "Archive", "")];
    let org = Organizer::resolve(&folders, "Inbox").unwrap();
    assert_eq!(org.inbox_id(), "A");
    assert_eq!(find_inbox(&folders, "Archive").unwrap(), 1);
}

#[test]
fn inbox_resolution_fails_without_match() {
    let folders = vec![folder("A", "Inbox", ""), folder("B", "Archive", "")];
    assert_eq!(Organizer::resolve(&folders, "Outbox").err(), Some(OrganizeError::InboxNotFound));
    assert_eq!(find_inbox(&vec![], "Inbox").err(), Some(OrganizeError::InboxNotFound));
}

#[test]
fn inbox_resolution_ignores_nested_namesakes() {
    let folders = vec![
        folder("A", "Projects", ""),
        folder("B", "Inbox", "A"),
        folder("C", "Inbox", ""),
        folder("D", "Inbox", ""),
    ];
    assert_eq!(Organizer::resolve(&folders, "Inbox").unwrap().inbox_id(), "C");
}

#[test]
fn inbox_children_are_indexed_by_title() {
    let folders = vec![
        folder("I", "Inbox", ""),
        folder("F1", "dave", "I"),
        folder("F2", "erin", "X"),
        folder("F3", "frank", "I"),
        folder("F4", "dave", "I"),
    ];
    let org = Organizer::resolve(&folders, "Inbox").unwrap();
    assert_eq!(org.child_id(&"dave".to_string()), Some("F4".to_string()));
    assert_eq!(org.child_id(&"frank".to_string()), Some("F3".to_string()));
    assert_eq!(org.child_id(&"erin".to_string()), None);
}

#[test]
fn child_index_later_entry_wins() {
    let mut index = ChildIndex::new();
    assert_eq!(index.get(&"a".to_string()), None);
    index.insert("a".to_string(), "1".to_string());
    index.insert("b".to_string(), "2".to_string());
    index.insert("a".to_string(), "3".to_string());
    assert_eq!(index.get(&"a".to_string()), Some("3".to_string()));
    assert_eq!(index.get(&"b".to_string()), Some("2".to_string()));
}

#[test]
fn decide_covers_each_case() {
    let mut children = ChildIndex::new();
    children.insert("bob".to_string(), "FB".to_string());
    let org = Organizer::from_parts("I".to_string(), children);
    assert!(matches!(org.decide(&note("N0", "bob/1"), &tags(0)), Decision::Skip));
    assert!(matches!(org.decide(&note("N1", "nobody"), &tags(1)), Decision::Malformed));
    match org.decide(&note("N2", "bob/x/y"), &tags(2)) {
        Decision::Move { note_id, folder_id, title } => {
            assert_eq!(note_id, "N2");
            assert_eq!(folder_id, "FB");
            assert_eq!(title, "x/y");
        }
        other => panic!("unexpected {:?}", other),
    }
    match org.decide(&note("N3", "carol/9"), &tags(1)) {
        Decision::CreateFolder { title, parent_id } => {
            assert_eq!(title, "carol");
            assert_eq!(parent_id, "I");
        }
        other => panic!("unexpected {:?}", other),
    }
}

#[test]
fn repeated_author_creates_one_folder() {
    let mut org = Organizer::from_parts("I".to_string(), ChildIndex::new());
    let notes = vec![(note("N1", "alice/1"), 1), (note("N2", "alice/2"), 3)];
    let calls = run(&mut org, &notes, &["FA", "FX"]);
    assert_eq!(
        calls,
        vec![
            "tags N1",
            "create alice under I",
            "move N1 to FA as 1",
            "tags N2",
            "move N2 to FA as 2",
        ]
    );
}

#[test]
fn untagged_note_is_never_moved() {
    let mut org = Organizer::from_parts("I".to_string(), ChildIndex::new());
    let notes = vec![(note("N1", "zoe/1"), 0), (note("N2", "zoe/2"), 1)];
    let calls = run(&mut org, &notes, &["FZ"]);
    assert_eq!(calls, vec!["tags N1", "tags N2", "create zoe under I", "move N2 to FZ as 2"]);
}

#[test]
fn end_to_end_existing_folder_and_untagged_note() {
    let folders = vec![folder("I", "Inbox", ""), folder("F1", "dave", "I")];
    let mut org = Organizer::resolve(&folders, "Inbox").unwrap();
    let notes = vec![(note("N1", "dave/7"), 1), (note("N2", "erin/8"), 0)];
    let calls = run(&mut org, &notes, &[]);
    assert_eq!(calls, vec!["tags N1", "move N1 to F1 as 7", "tags N2"]);
}
