//! The check that a string names a markdown file.
//!
//! A name passes when its lower-case form ends in `.md` or `.markdown`. Only
//! the name is looked at: whether a file of that name exists is for the
//! frontend to find out.

use vstd::prelude::*;
use vstd::string::*;

verus! {

/// The lower-case form of `s`, as `str::to_lowercase` computes it: by the
/// Unicode rules for lower case, which go by the text alone and by no locale.
pub uninterp spec fn lowercase_of(s: Seq<char>) -> Seq<char>;

/// `str::to_lowercase` returns the lower-case form of the whole string as a
/// new `String`. The mapping is not written out here: it is the table of the
/// Unicode standard that std carries, so nothing but the name is known of the
/// result.
pub assume_specification[ str::to_lowercase ](s: &str) -> (lowered: String)
    ensures
        lowered@ == lowercase_of(s@),
;

/// The short markdown extension, `.md`.
pub open spec fn md_suffix() -> Seq<char> {
    seq!['.', 'm', 'd']
}

/// The long markdown extension, `.markdown`.
pub open spec fn markdown_suffix() -> Seq<char> {
    seq!['.', 'm', 'a', 'r', 'k', 'd', 'o', 'w', 'n']
}

/// Whether a name that is already in lower case ends in one of the two
/// markdown extensions.
pub open spec fn has_markdown_suffix_spec(lowered: Seq<char>) -> bool {
    md_suffix().is_suffix_of(lowered) || markdown_suffix().is_suffix_of(lowered)
}

/// Whether `path` names a markdown file: its lower-case form ends in `.md` or
/// `.markdown`.
pub open spec fn is_markdown_path(path: Seq<char>) -> bool {
    has_markdown_suffix_spec(lowercase_of(path))
}

/// Whether `text` ends in `suffix`, character by character.
pub fn ends_with(text: &str, suffix: &str) -> (found: bool)
    ensures
        found == suffix@.is_suffix_of(text@),
{
    let text_len = text.unicode_len();
    let suffix_len = suffix.unicode_len();
    if suffix_len > text_len {
        return false;
    }
    let start = text_len - suffix_len;
    let mut i: usize = 0;
    while i < suffix_len
        invariant
            text_len == text@.len(),
            suffix_len == suffix@.len(),
            suffix_len <= text_len,
            start == text_len - suffix_len,
            i <= suffix_len,
            forall|j: int| 0 <= j < i ==> suffix@[j] == text@[start + j],
        decreases suffix_len - i,
    {
        if suffix.get_char(i) != text.get_char(start + i) {
            assert(text@.subrange(start as int, text_len as int)[i as int] != suffix@[i as int]);
            return false;
        }
        i = i + 1;
    }
    assert(suffix@ =~= text@.subrange(start as int, text_len as int));
    true
}

/// Whether `lowered`, a name already in lower case, ends in `.md` or
/// `.markdown`.
pub fn has_markdown_suffix(lowered: &str) -> (found: bool)
    ensures
        found == has_markdown_suffix_spec(lowered@),
{
    proof {
        reveal_strlit(".md");
        reveal_strlit(".markdown");
        assert(".md"@ =~= md_suffix());
        assert(".markdown"@ =~= markdown_suffix());
    }
    ends_with(lowered, ".md") || ends_with(lowered, ".markdown")
}

/// Whether `path` names a markdown file, whatever the case of its letters.
pub fn is_markdown_file(path: &str) -> (found: bool)
    ensures
        found == is_markdown_path(path@),
{
    let lowered = path.to_lowercase();
    has_markdown_suffix(lowered.as_str())
}

/// Passes a candidate on if it names a markdown file, and drops it otherwise.
///
/// An absent candidate stays absent. A present one is returned as it came,
/// in its own case, when its lower-case form ends in `.md` or `.markdown`;
/// any other is answered with `None`.
pub fn validate(candidate: Option<String>) -> (accepted: Option<String>)
    ensures
        accepted == match candidate {
            Some(path) => if is_markdown_path(path@) {
                Some(path)
            } else {
                None
            },
            None => None,
        },
{
    match candidate {
        Some(path) => {
            if is_markdown_file(path.as_str()) {
                Some(path)
            } else {
                None
            }
        },
        None => None,
    }
}

} // verus!
