//! The `author/item` convention for note titles.
use vstd::prelude::*;
use vstd::string::StrSliceExecFns;
use vstd::string::StringExecFns;

use crate::error::OrganizeError;

verus! {

/// The character that ends the author part of a title.
pub open spec fn is_separator(c: char) -> bool {
    c == '/'
}

/// Whether `s` holds a separator at all.
pub open spec fn has_separator(s: Seq<char>) -> bool {
    exists|i: int| 0 <= i < s.len() && is_separator(#[trigger] s[i])
}

/// Whether `i` is the position of the first separator of `s`.
pub open spec fn is_first_separator(s: Seq<char>, i: int) -> bool {
    &&& 0 <= i < s.len()
    &&& is_separator(s[i])
    &&& forall|j: int| 0 <= j < i ==> !is_separator(#[trigger] s[j])
}

/// The position of the first separator of `s`, where it has one.
pub open spec fn first_separator(s: Seq<char>) -> int {
    choose|i: int| is_first_separator(s, i)
}

/// The author of a title: everything before its first separator.
pub open spec fn author_of(s: Seq<char>) -> Seq<char> {
    s.take(first_separator(s))
}

/// The item of a title: everything after its first separator, kept as it stands.
pub open spec fn item_of(s: Seq<char>) -> Seq<char> {
    s.skip(first_separator(s) + 1)
}

/// A string has at most one first separator.
pub proof fn lemma_first_separator_unique(s: Seq<char>, i: int, k: int)
    requires
        is_first_separator(s, i),
        is_first_separator(s, k),
    ensures
        i == k,
{
    if i < k {
        assert(!is_separator(s[i]));
    } else if k < i {
        assert(!is_separator(s[k]));
    }
}

/// The first separator is where the scan finds it.
pub proof fn lemma_first_separator_at(s: Seq<char>, i: int)
    requires
        is_first_separator(s, i),
    ensures
        first_separator(s) == i,
        has_separator(s),
        author_of(s) == s.take(i),
        item_of(s) == s.skip(i + 1),
{
    let k = first_separator(s);
    lemma_first_separator_unique(s, i, k);
    assert(is_separator(s[i]));
}

/// Splits a title at its first separator into author and item.
///
/// Fails with `MalformedTitle` exactly when the title holds no separator.
pub fn split_title(title: &str) -> (r: Result<(String, String), OrganizeError>)
    ensures
        r is Err <==> !has_separator(title@),
        r matches Err(e) ==> e == OrganizeError::MalformedTitle,
        r matches Ok((author, item)) ==> author@ == author_of(title@) && item@ == item_of(title@),
{
    let n = title.unicode_len();
    let mut i: usize = 0;
    while i < n
        invariant
            n == title@.len(),
            i <= n,
            forall|j: int| 0 <= j < i ==> !is_separator(#[trigger] title@[j]),
        decreases n - i,
    {
        if title.get_char(i) == '/' {
            proof {
                lemma_first_separator_at(title@, i as int);
            }
            let author = String::from_str(title.substring_char(0, i));
            let item = String::from_str(title.substring_char(i + 1, n));
            assert(title@.skip(i + 1) =~= title@.subrange(i + 1, n as int));
            return Ok((author, item));
        }
        i = i + 1;
    }
    Err(OrganizeError::MalformedTitle)
}

} // verus!
