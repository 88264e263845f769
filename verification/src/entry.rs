use vstd::prelude::*;

use crate::path::{has_markdown_extension, is_markdown_path, relative_path, relative_to};
use crate::text::text_of;

verus! {

/// One thing that the walk through the directory tree came upon.
#[derive(Clone, Debug, PartialEq, Eq)]
pub struct Entry {
    /// The path under which the walk reached it: the root of the walk, or a
    /// path that begins with the root.
    pub path: String,
    /// Whether it is a directory.
    pub is_dir: bool,
    /// When it was last modified, in seconds from the Unix epoch; `None`
    /// where that is not known.
    pub modified: Option<i64>,
}

/// An entry as the contracts see it.
pub struct EntryView {
    pub path: Seq<char>,
    pub is_dir: bool,
    pub modified: Option<i64>,
}

impl View for Entry {
    type V = EntryView;

    open spec fn view(&self) -> EntryView {
        EntryView { path: self.path@, is_dir: self.is_dir, modified: self.modified }
    }
}

impl DeepView for Entry {
    type V = EntryView;

    open spec fn deep_view(&self) -> EntryView {
        self@
    }
}

/// Whether an entry is a Markdown document: a file, not a directory, whose
/// extension says so.
pub open spec fn is_markdown_entry(entry: EntryView) -> bool {
    !entry.is_dir && has_markdown_extension(entry.path)
}

/// The path under which the index lists an entry, seen from the root; `None`
/// for an entry that the index leaves out, because it is no Markdown document
/// or does not lie under the root.
pub open spec fn listed_as(root: Seq<char>, entry: EntryView) -> Option<Seq<char>> {
    if is_markdown_entry(entry) {
        relative_to(root, entry.path)
    } else {
        None
    }
}

/// Whether the index lists an entry.
pub open spec fn is_listed(root: Seq<char>, entry: EntryView) -> bool {
    listed_as(root, entry) is Some
}

/// Whether an entry is a Markdown document.
pub fn is_markdown_file(entry: &Entry) -> (markdown: bool)
    ensures
        markdown == is_markdown_entry(entry@),
{
    !entry.is_dir && is_markdown_path(entry.path.as_str())
}

/// The path under which the index lists an entry, or `None` where it leaves
/// the entry out.
pub fn listing(root_path: &str, entry: &Entry) -> (listed: Option<String>)
    ensures
        text_of(listed) == listed_as(root_path@, entry@),
{
    if is_markdown_file(entry) {
        relative_path(root_path, entry.path.as_str())
    } else {
        None
    }
}

} // verus!
