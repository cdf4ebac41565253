//! Addresses of the REST resources that a run reads and writes.
use vstd::prelude::*;
use vstd::string::StringExecFns;

verus! {

/// The address of `resource` on the local interface at `port`, carrying the access token.
pub open spec fn url_of(port: Seq<char>, token: Seq<char>, resource: Seq<char>) -> Seq<char> {
    "http://localhost:"@ + port + "/"@ + resource + "?token="@ + token
}

/// The resource that lists the notes held by a folder.
pub open spec fn folder_notes_resource(folder_id: Seq<char>) -> Seq<char> {
    "folders/"@ + folder_id + "/notes"@
}

/// The resource of one note.
pub open spec fn note_resource(note_id: Seq<char>) -> Seq<char> {
    "notes/"@ + note_id
}

/// The resource that lists the tags of a note.
pub open spec fn note_tags_resource(note_id: Seq<char>) -> Seq<char> {
    "notes/"@ + note_id + "/tags"@
}

/// The decimal digit that stands for `d`, for `d < 10`.
pub open spec fn digit_char(d: nat) -> char {
    if d == 0 { '0' } else if d == 1 { '1' } else if d == 2 { '2' } else if d == 3 { '3' }
    else if d == 4 { '4' } else if d == 5 { '5' } else if d == 6 { '6' } else if d == 7 { '7' }
    else if d == 8 { '8' } else { '9' }
}

/// The decimal notation of `n`, without leading zeros.
pub open spec fn decimal(n: nat) -> Seq<char>
    decreases n,
{
    if n < 10 {
        seq![digit_char(n)]
    } else {
        decimal(n / 10) + seq![digit_char(n % 10)]
    }
}

/// The address of page `page` of the listing at `base`.
pub open spec fn page_url_of(base: Seq<char>, page: nat) -> Seq<char> {
    base + "&page="@ + decimal(page)
}

fn digit_str(d: u64) -> (r: &'static str)
    requires
        d < 10,
    ensures
        r@ == seq![digit_char(d as nat)],
{
    proof {
        reveal_strlit("0");
        reveal_strlit("1");
        reveal_strlit("2");
        reveal_strlit("3");
        reveal_strlit("4");
        reveal_strlit("5");
        reveal_strlit("6");
        reveal_strlit("7");
        reveal_strlit("8");
        reveal_strlit("9");
    }
    if d == 0 { "0" } else if d == 1 { "1" } else if d == 2 { "2" } else if d == 3 { "3" }
    else if d == 4 { "4" } else if d == 5 { "5" } else if d == 6 { "6" } else if d == 7 { "7" }
    else if d == 8 { "8" } else { "9" }
}

/// Writes `n` in decimal.
pub fn decimal_string(n: u64) -> (r: String)
    ensures
        r@ == decimal(n as nat),
    decreases n,
{
    if n < 10 {
        String::from_str(digit_str(n))
    } else {
        let head = decimal_string(n / 10);
        head.concat(digit_str(n % 10))
    }
}

/// The address of `resource` on the local interface at `port`, with the access token.
pub fn url(port: &str, token: &str, resource: &str) -> (r: String)
    ensures
        r@ == url_of(port@, token@, resource@),
{
    let r = String::from_str("http://localhost:");
    let r = r.concat(port);
    let r = r.concat("/");
    let r = r.concat(resource);
    let r = r.concat("?token=");
    r.concat(token)
}

/// The address that lists the notes of folder `folder_id`.
pub fn folder_url(port: &str, token: &str, folder_id: &str) -> (r: String)
    ensures
        r@ == url_of(port@, token@, folder_notes_resource(folder_id@)),
{
    let resource = String::from_str("folders/").concat(folder_id).concat("/notes");
    url(port, token, resource.as_str())
}

/// The address of note `note_id`, to which a move is sent.
pub fn note_url(port: &str, token: &str, note_id: &str) -> (r: String)
    ensures
        r@ == url_of(port@, token@, note_resource(note_id@)),
{
    let resource = String::from_str("notes/").concat(note_id);
    url(port, token, resource.as_str())
}

/// The address that lists the tags of note `note_id`.
pub fn note_tags_url(port: &str, token: &str, note_id: &str) -> (r: String)
    ensures
        r@ == url_of(port@, token@, note_tags_resource(note_id@)),
{
    let resource = String::from_str("notes/").concat(note_id).concat("/tags");
    url(port, token, resource.as_str())
}

/// The address of page `page` of the listing at `base`.
pub fn page_url(base: &str, page: u64) -> (r: String)
    ensures
        r@ == page_url_of(base@, page as nat),
{
    String::from_str(base).concat("&page=").concat(decimal_string(page).as_str())
}

} // verus!
