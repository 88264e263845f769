use vstd::prelude::*;

use crate::text::{chars_of, text_of};

verus! {

/// The character that parts the components of a path.
pub const SEPARATOR: char = '/';

/// The character in front of a file name's extension.
pub const EXTENSION_MARK: char = '.';

/// The extension of a Markdown document, in small letters.
pub const MARKDOWN_EXTENSION: &'static str = "md";

/// The index of the last `mark` in `text`, or -1 where `text` holds none.
pub open spec fn last_index_of(text: Seq<char>, mark: char) -> int
    decreases text.len(),
{
    if text.len() == 0 {
        -1
    } else if text.last() == mark {
        text.len() - 1
    } else {
        last_index_of(text.drop_last(), mark)
    }
}

/// The last component of a path: what follows its last separator, or the
/// whole path where it holds no separator.
pub open spec fn file_name(path: Seq<char>) -> Seq<char> {
    path.skip(last_index_of(path, SEPARATOR) + 1)
}

/// The extension of a path: what follows the last mark in its file name. A
/// file name without a mark has none, nor has one whose only mark is its first
/// character (`.profile`).
pub open spec fn extension(path: Seq<char>) -> Option<Seq<char>> {
    let name = file_name(path);
    let mark = last_index_of(name, EXTENSION_MARK);
    if mark > 0 {
        Some(name.skip(mark + 1))
    } else {
        None
    }
}

/// Whether two characters are the same but for their case: the same
/// character, or the small and the capital form of one of the letters `a` to
/// `z`.
pub open spec fn same_ignoring_case(first: char, second: char) -> bool {
    ||| first == second
    ||| 'a' <= first <= 'z' && first as int - second as int == 32
    ||| 'a' <= second <= 'z' && second as int - first as int == 32
}

/// Whether two texts are the same but for the case of their letters.
pub open spec fn equal_ignoring_case(first: Seq<char>, second: Seq<char>) -> bool {
    &&& first.len() == second.len()
    &&& forall|at: int|
        0 <= at < first.len() ==> same_ignoring_case(#[trigger] first[at], second[at])
}

/// Whether an extension is that of a Markdown document, whatever the case of
/// its letters.
pub open spec fn is_markdown_extension(extension: Seq<char>) -> bool {
    equal_ignoring_case(extension, MARKDOWN_EXTENSION@)
}

/// Whether a path names a Markdown document, going by its extension alone.
pub open spec fn has_markdown_extension(path: Seq<char>) -> bool {
    match extension(path) {
        Some(found) => is_markdown_extension(found),
        None => false,
    }
}

/// `last_index_of` points at a `mark` that no other `mark` follows, or is -1
/// where the text holds no `mark`.
pub proof fn lemma_last_index_of(text: Seq<char>, mark: char)
    ensures
        -1 <= last_index_of(text, mark) < text.len(),
        last_index_of(text, mark) >= 0 ==> text[last_index_of(text, mark)] == mark,
        forall|j: int| last_index_of(text, mark) < j < text.len() ==> text[j] != mark,
    decreases text.len(),
{
    if text.len() > 0 && text.last() != mark {
        let shorter = text.drop_last();
        lemma_last_index_of(shorter, mark);
        assert forall|j: int| last_index_of(text, mark) < j < text.len() implies text[j]
            != mark by {
            if j < shorter.len() {
                assert(shorter[j] == text[j]);
            }
        }
    }
}

/// The extensions of a Markdown document are the four ways to write `md` in
/// small and capital letters.
pub proof fn lemma_markdown_spellings(extension: Seq<char>)
    ensures
        is_markdown_extension(extension) <==> {
            &&& extension.len() == 2
            &&& (extension[0] == 'm' || extension[0] == 'M')
            &&& (extension[1] == 'd' || extension[1] == 'D')
        },
{
    reveal_strlit("md");
}

/// The last `mark` at or behind `start`, found from the end of the text.
fn last_position(chars: &Vec<char>, start: usize, mark: char) -> (found: Option<usize>)
    requires
        start <= chars.len(),
    ensures
        match found {
            Some(at) => start <= at < chars.len() && at - start == last_index_of(
                chars@.skip(start as int),
                mark,
            ),
            None => last_index_of(chars@.skip(start as int), mark) == -1,
        },
{
    let ghost tail = chars@.skip(start as int);
    let mut at: usize = chars.len();
    while at > start
        invariant
            start <= at <= chars.len(),
            tail == chars@.skip(start as int),
            forall|j: int| at - start <= j < tail.len() ==> tail[j] != mark,
        decreases at,
    {
        at = at - 1;
        if chars[at] == mark {
            proof {
                lemma_last_index_of(tail, mark);
                assert(tail[at - start] == mark);
            }
            return Some(at);
        }
    }
    proof {
        lemma_last_index_of(tail, mark);
    }
    None
}

/// Whether `path` names a Markdown document: its extension reads `md`,
/// whatever the case of the two letters.
pub fn is_markdown_path(path: &str) -> (markdown: bool)
    ensures
        markdown == has_markdown_extension(path@),
{
    let chars = chars_of(path);
    assert(chars@.skip(0) == chars@);
    let name_start: usize = match last_position(&chars, 0, SEPARATOR) {
        Some(at) => at + 1,
        None => 0,
    };
    match last_position(&chars, name_start, EXTENSION_MARK) {
        Some(mark) => {
            if mark > name_start && chars.len() - mark == 3 {
                let first = chars[mark + 1];
                let second = chars[mark + 2];
                proof {
                    assert(file_name(path@).skip(mark - name_start + 1) == path@.skip(mark + 1));
                    lemma_markdown_spellings(path@.skip(mark + 1));
                }
                (first == 'm' || first == 'M') && (second == 'd' || second == 'D')
            } else {
                proof {
                    if mark > name_start {
                        lemma_markdown_spellings(file_name(path@).skip(mark - name_start + 1));
                    }
                }
                false
            }
        },
        None => false,
    }
}

/// A root as the paths of what lies in it begin: with a separator at its
/// end, which is added where the root does not end in one. The empty root
/// stands for no directory at all and gets none.
pub open spec fn directory_prefix(root: Seq<char>) -> Seq<char> {
    if root.len() == 0 || root.last() == SEPARATOR {
        root
    } else {
        root.push(SEPARATOR)
    }
}

/// The path of an entry as seen from the root: empty for the root itself,
/// what follows the root and its separator for a path that begins with both,
/// and nothing for any other path.
pub open spec fn relative_to(root: Seq<char>, path: Seq<char>) -> Option<Seq<char>> {
    if path == root {
        Some(Seq::empty())
    } else if directory_prefix(root).is_prefix_of(path) {
        Some(path.skip(directory_prefix(root).len() as int))
    } else {
        None
    }
}

/// Whether `text` begins with `prefix`.
fn starts_with(text: &Vec<char>, prefix: &Vec<char>) -> (begins: bool)
    ensures
        begins == prefix@.is_prefix_of(text@),
{
    if prefix.len() > text.len() {
        return false;
    }
    let mut at: usize = 0;
    while at < prefix.len()
        invariant
            at <= prefix.len() <= text.len(),
            forall|j: int| 0 <= j < at ==> prefix[j] == text[j],
        decreases prefix.len() - at,
    {
        if prefix[at] != text[at] {
            return false;
        }
        at = at + 1;
    }
    true
}

/// The path of an entry relative to the root of the scan, or `None` for a
/// path that does not lie under the root.
pub fn relative_path(root: &str, path: &str) -> (relative: Option<String>)
    ensures
        text_of(relative) == relative_to(root@, path@),
{
    let base = chars_of(root);
    let full = chars_of(path);
    if !starts_with(&full, &base) {
        return None;
    }
    if full.len() == base.len() {
        assert(path@ =~= root@);
        return Some(String::new());
    }
    let from: usize = if base.len() == 0 || base[base.len() - 1] == SEPARATOR {
        base.len()
    } else if full[base.len()] == SEPARATOR {
        base.len() + 1
    } else {
        assert(path@.subrange(0, root@.len() as int + 1)[root@.len() as int] != SEPARATOR);
        return None;
    };
    Some(path.substring_char(from, full.len()).to_owned())
}

} // verus!
