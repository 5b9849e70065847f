//! Names of files and archive entries: which ones mark a container, what the
//! base name of an entry is, and when a name matches the search key.

use vstd::prelude::*;
use vstd::string::StringExecFns;

verus! {

/// The lower-case form of a text, as `str::to_lowercase` computes it.
pub uninterp spec fn lowercase(text: Seq<char>) -> Seq<char>;

/// `str::to_lowercase` maps each character to its Unicode lower-case form;
/// the result depends on the text alone and is known here only by name.
pub assume_specification[ str::to_lowercase ](text: &str) -> (lowered: String)
    ensures
        lowered@ == lowercase(text@),
;

/// Calls `str::ends_with` with a string pattern, which is true exactly when
/// the text ends with the characters of `suffix`.
#[verifier::external_body]
fn ends_with(text: &str, suffix: &str) -> (found: bool)
    ensures
        found == suffix@.is_suffix_of(text@),
{
    text.ends_with(suffix)
}

/// Whether a path separator: a slash or a backslash.
pub open spec fn is_separator(c: char) -> bool {
    c == '/' || c == '\\'
}

/// Where the base name starts: just after the last separator, or at the
/// front where the name holds none.
pub open spec fn base_start(name: Seq<char>) -> nat
    decreases name.len(),
{
    if name.len() == 0 {
        0
    } else if is_separator(name.last()) {
        name.len()
    } else {
        base_start(name.drop_last())
    }
}

/// The base name: what follows the last separator.
pub open spec fn base_name_of(name: Seq<char>) -> Seq<char> {
    name.subrange(base_start(name) as int, name.len() as int)
}

/// The base name of an entry or file name: what follows its last slash or
/// backslash, or the whole name where it holds neither.
pub fn base_name(name: &str) -> (base: &str)
    ensures
        base@ == base_name_of(name@),
{
    let length: usize = name.unicode_len();
    let mut start: usize = 0;
    let mut seen: usize = 0;
    for c in it: name.chars()
        invariant
            it.seq() == name@,
            length == name@.len(),
            seen == it.index(),
            start == base_start(name@.take(seen as int)),
            start <= seen <= length,
    {
        assert(name@.take(seen + 1).drop_last() == name@.take(seen as int));
        seen = seen + 1;
        if c == '/' || c == '\\' {
            start = seen;
        }
    }
    assert(name@.take(seen as int) == name@);
    name.substring_char(start, seen)
}

/// The base name holds no separator, and it is the longest such tail of the
/// name: it starts at the front or just behind a separator.
pub proof fn base_name_is_longest_plain_tail(name: Seq<char>)
    ensures
        base_start(name) <= name.len(),
        base_name_of(name).is_suffix_of(name),
        forall|i: int| 0 <= i < base_name_of(name).len() ==> !is_separator(base_name_of(name)[i]),
        base_start(name) == 0 || is_separator(name[base_start(name) - 1]),
    decreases name.len(),
{
    if name.len() > 0 && !is_separator(name.last()) {
        let front = name.drop_last();
        base_name_is_longest_plain_tail(front);
        assert forall|i: int| 0 <= i < base_name_of(name).len() implies !is_separator(
            base_name_of(name)[i],
        ) by {
            if i < base_name_of(front).len() {
                assert(base_name_of(name)[i] == base_name_of(front)[i]);
            }
        }
    }
}

/// A name that holds no separator is its own base name: for the name of a
/// file in a directory, the base name is the whole name.
pub proof fn plain_name_is_its_own_base(name: Seq<char>)
    requires
        forall|i: int| 0 <= i < name.len() ==> !is_separator(name[i]),
    ensures
        base_start(name) == 0,
        base_name_of(name) == name,
    decreases name.len(),
{
    if name.len() > 0 {
        plain_name_is_its_own_base(name.drop_last());
    }
    assert(name.subrange(0, name.len() as int) == name);
}

/// Whether a name marks a container: its lower-case form ends in `.zip`,
/// `.jar`, `.ear` or `.war`.
pub open spec fn is_archive_name(name: Seq<char>) -> bool {
    let lower_name = lowercase(name);
    ||| seq!['.', 'z', 'i', 'p'].is_suffix_of(lower_name)
    ||| seq!['.', 'j', 'a', 'r'].is_suffix_of(lower_name)
    ||| seq!['.', 'e', 'a', 'r'].is_suffix_of(lower_name)
    ||| seq!['.', 'w', 'a', 'r'].is_suffix_of(lower_name)
}

/// Whether the name of a file or entry marks it as a container to look into.
pub fn name_is_relevant_archive(name: &str) -> (relevant: bool)
    ensures
        relevant == is_archive_name(name@),
{
    let lower_name = name.to_lowercase();
    proof {
        reveal_strlit(".zip");
        reveal_strlit(".jar");
        reveal_strlit(".ear");
        reveal_strlit(".war");
    }
    ends_with(lower_name.as_str(), ".zip") || ends_with(lower_name.as_str(), ".jar") || ends_with(
        lower_name.as_str(),
        ".ear",
    ) || ends_with(lower_name.as_str(), ".war")
}

/// Whether a name matches the search key: the lower-case form of its base
/// name is the key, character for character.
pub open spec fn is_match(name: Seq<char>, search_name_lower: Seq<char>) -> bool {
    lowercase(base_name_of(name)) == search_name_lower
}

/// Compares the base name of `name`, in lower case, with the search key.
pub fn name_matches(name: &str, search_name_lower: &str) -> (matched: bool)
    ensures
        matched == is_match(name@, search_name_lower@),
{
    let naked_name_lower = base_name(name).to_lowercase();
    let wanted = search_name_lower.to_owned();
    naked_name_lower == wanted
}

/// The logical path of an entry: the path of its archive, then the entry's
/// name between square brackets.
pub open spec fn entry_path_of(archive_path: Seq<char>, name: Seq<char>) -> Seq<char> {
    archive_path + seq!['['] + name + seq![']']
}

/// Composes the logical path of the entry `name` of the archive at
/// `archive_path`. The name goes in as it is, separators and case included.
pub fn entry_path(archive_path: &str, name: &str) -> (path: String)
    ensures
        path@ == entry_path_of(archive_path@, name@),
{
    proof {
        reveal_strlit("[");
        reveal_strlit("]");
    }
    let mut path = String::from_str(archive_path);
    path.append("[");
    path.append(name);
    path.append("]");
    path
}

} // verus!
