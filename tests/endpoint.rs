use jfo::endpoint::{decimal_string, page_url};
use jfo::{folder_url, note_tags_url, note_url, url};

#[test]
fn url_carries_port_resource_and_token() {
    assert_eq!(
        url("41184", "abc123", "folders"),
        "http://localhost:41184/folders?token=abc123"
    );
}

#[test]
fn folder_url_lists_notes_of_folder() {
    assert_eq!(
        folder_url("41184", "tok", "F1"),
        "http://localhost:41184/folders/F1/notes?token=tok"
    );
}

#[test]
fn note_url_names_the_note() {
    assert_eq!(note_url("8080", "tok", "N1"), "http://localhost:8080/notes/N1?token=tok");
}

#[test]
fn note_tags_url_lists_tags_of_note() {
    assert_eq!(
        note_tags_url("41184", "tok", "N2"),
        "http://localhost:41184/notes/N2/tags?token=tok"
    );
}

#[test]
fn decimal_string_writes_digits() {
    assert_eq!(decimal_string(0), "0");
    assert_eq!(decimal_string(7), "7");
    assert_eq!(decimal_string(10), "10");
    assert_eq!(decimal_string(41184), "41184");
    assert_eq!(decimal_string(u64::MAX), "18446744073709551615");
}

#[test]
fn page_url_appends_page_number() {
    assert_eq!(
        page_url("http://localhost:41184/folders?token=tok", 12),
        "http://localhost:41184/folders?token=tok&page=12"
    );
}
