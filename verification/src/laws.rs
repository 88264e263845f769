use vstd::prelude::*;

use crate::entry::{is_listed, EntryView};
use crate::index::{
    can_be_written, index_lines, index_text, lemma_listed_positions, line_of, listed_paths,
    listed_positions,
};
use crate::path::{
    directory_prefix, equal_ignoring_case, extension, file_name, has_markdown_extension,
    lemma_last_index_of, lemma_markdown_spellings, relative_to, EXTENSION_MARK,
    MARKDOWN_EXTENSION,
};

verus! {

/// The index holds exactly one line for each listed entry, in the order of
/// the walk: line `k` is the line of the entry at the `k`-th listed position,
/// the listed positions grow from one to the next, each is the position of a
/// listed entry, and the position of every listed entry is among them.
pub proof fn lemma_one_line_for_each_listed_entry(root: Seq<char>, entries: Seq<EntryView>)
    ensures
        index_lines(root, entries).len() == listed_positions(root, entries).len(),
        forall|k: int|
            0 <= k < listed_positions(root, entries).len() ==> {
                let at = #[trigger] listed_positions(root, entries)[k];
                &&& 0 <= at < entries.len()
                &&& is_listed(root, entries[at])
                &&& index_lines(root, entries)[k] == line_of(root, entries[at])
            },
        forall|j: int, k: int|
            0 <= j < k < listed_positions(root, entries).len() ==> listed_positions(
                root,
                entries,
            )[j] < listed_positions(root, entries)[k],
        forall|at: int|
            0 <= at < entries.len() && is_listed(root, #[trigger] entries[at])
                ==> listed_positions(root, entries).contains(at),
{
    lemma_listed_positions(root, entries);
}

/// Whether two walks came upon the same tree: the same paths in the same
/// order, each a directory in both or in neither. The modification times may
/// differ.
pub open spec fn same_tree(first: Seq<EntryView>, second: Seq<EntryView>) -> bool {
    &&& first.len() == second.len()
    &&& forall|at: int|
        0 <= at < first.len() ==> (#[trigger] first[at]).path == second[at].path
            && first[at].is_dir == second[at].is_dir
}

/// Two walks of an unchanged tree list the same paths in the same order,
/// whatever the modification times are; where these are the same too, the
/// two indexes are the same text.
pub proof fn lemma_unchanged_tree_same_listing(
    root: Seq<char>,
    first: Seq<EntryView>,
    second: Seq<EntryView>,
)
    requires
        same_tree(first, second),
    ensures
        listed_positions(root, first) == listed_positions(root, second),
        listed_paths(root, first) == listed_paths(root, second),
        index_lines(root, first).len() == index_lines(root, second).len(),
        (forall|at: int| 0 <= at < first.len() ==> (#[trigger] first[at]).modified == second[at].modified)
            ==> index_text(root, first) == index_text(root, second),
    decreases first.len(),
{
    if first.len() > 0 {
        lemma_unchanged_tree_same_listing(root, first.drop_last(), second.drop_last());
    }
    lemma_listed_positions(root, first);
    if forall|at: int| 0 <= at < first.len() ==> (#[trigger] first[at]).modified == second[at].modified {
        assert(first =~= second);
    }
}

/// An index is written for no tree in which a listed entry comes without a
/// modification time.
pub proof fn lemma_missing_time_stops_the_index(
    root: Seq<char>,
    entries: Seq<EntryView>,
    at: int,
)
    requires
        0 <= at < entries.len(),
        is_listed(root, entries[at]),
        entries[at].modified is None,
    ensures
        !can_be_written(root, entries),
{
}

/// Extensions are matched without regard to case: a path with an extension
/// names a Markdown document exactly where the extension is `md` but for the
/// case of its letters, so of two paths whose extensions differ in nothing
/// but case, both name a Markdown document or neither does.
pub proof fn lemma_extension_matching_ignores_case(first: Seq<char>, second: Seq<char>)
    requires
        extension(first) is Some,
        extension(second) is Some,
        equal_ignoring_case(extension(first).unwrap(), extension(second).unwrap()),
    ensures
        has_markdown_extension(first) <==> equal_ignoring_case(
            extension(first).unwrap(),
            MARKDOWN_EXTENSION@,
        ),
        has_markdown_extension(first) == has_markdown_extension(second),
{
    lemma_markdown_spellings(extension(first).unwrap());
    lemma_markdown_spellings(extension(second).unwrap());
}

/// A path whose file name holds no extension mark has no extension, and
/// names no Markdown document.
pub proof fn lemma_no_extension_no_markdown(path: Seq<char>)
    requires
        !file_name(path).contains(EXTENSION_MARK),
    ensures
        extension(path) is None,
        !has_markdown_extension(path),
{
    lemma_last_index_of(file_name(path), EXTENSION_MARK);
}

/// What lies in the root is found again from its path: the path that the
/// root and a relative path make together has that relative path.
pub proof fn lemma_relative_to_joined(root: Seq<char>, relative: Seq<char>)
    ensures
        relative_to(root, directory_prefix(root) + relative) == Some(relative),
{
}

} // verus!
