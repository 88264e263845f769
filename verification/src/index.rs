use vstd::prelude::*;

use crate::date::{date_of, format_date};
use crate::entry::{is_listed, listed_as, listing, Entry, EntryView};
use crate::trusted::{debug_string, debug_text};

verus! {

/// The first line of every index.
pub const HEADER: &'static str = "# Index\n";

/// The notice that ends every index.
pub const TRAILER: &'static str =
    "\n\n *This content is auto-generated and will be overwritten so please don't make manual changes to it.* \n";

/// Why no index could be written.
#[derive(Clone, Copy, Debug, PartialEq, Eq, Structural)]
pub enum IndexError {
    /// The entry at this position is listed, and its modification time is
    /// not known.
    MissingTimestamp { entry: usize },
    /// The entry at this position is listed, and no date can be written for
    /// its modification time.
    DateFormat { entry: usize },
}

impl IndexError {
    /// The position of the entry that the error is about.
    pub open spec fn position(self) -> int {
        match self {
            IndexError::MissingTimestamp { entry } => entry as int,
            IndexError::DateFormat { entry } => entry as int,
        }
    }
}

/// The line of the index for one document: a link whose text and target are
/// the document's path, then its date, between double quotes, in small print.
pub open spec fn entry_line(relative_path: Seq<char>, date: Seq<char>) -> Seq<char> {
    "- ["@ + relative_path + "]("@ + relative_path + ")  <sub>Last update: "@ + debug_text(date)
        + "</sub>  \n"@
}

/// The date that the index gives for an entry; `None` where its modification
/// time is not known or no date can be written for it.
pub open spec fn entry_date(entry: EntryView) -> Option<Seq<char>> {
    match entry.modified {
        Some(unix_seconds) => date_of(unix_seconds),
        None => None,
    }
}

/// Whether an entry stops the index from being written: it is listed and has
/// no date.
pub open spec fn fails(root: Seq<char>, entry: EntryView) -> bool {
    is_listed(root, entry) && entry_date(entry) is None
}

/// The error that the entry at `position` gives rise to where it fails.
pub open spec fn failure_of(entry: EntryView, position: int) -> IndexError {
    if entry.modified is None {
        IndexError::MissingTimestamp { entry: position as usize }
    } else {
        IndexError::DateFormat { entry: position as usize }
    }
}

/// The line of the index for a listed entry that has a date.
pub open spec fn line_of(root: Seq<char>, entry: EntryView) -> Seq<char> {
    entry_line(listed_as(root, entry).unwrap(), entry_date(entry).unwrap())
}

/// The positions of the listed entries, in the order of the walk.
pub open spec fn listed_positions(root: Seq<char>, entries: Seq<EntryView>) -> Seq<int>
    decreases entries.len(),
{
    if entries.len() == 0 {
        Seq::empty()
    } else if is_listed(root, entries.last()) {
        listed_positions(root, entries.drop_last()).push(entries.len() - 1)
    } else {
        listed_positions(root, entries.drop_last())
    }
}

/// The lines of the index: one for each listed entry, in the order of the
/// walk.
pub open spec fn index_lines(root: Seq<char>, entries: Seq<EntryView>) -> Seq<Seq<char>> {
    let positions = listed_positions(root, entries);
    Seq::new(positions.len(), |k: int| line_of(root, entries[positions[k]]))
}

/// The paths that the index lists, in the order of the walk.
pub open spec fn listed_paths(root: Seq<char>, entries: Seq<EntryView>) -> Seq<Seq<char>> {
    let positions = listed_positions(root, entries);
    Seq::new(positions.len(), |k: int| listed_as(root, entries[positions[k]]).unwrap())
}

/// Whether an index can be written: every listed entry has a date.
pub open spec fn can_be_written(root: Seq<char>, entries: Seq<EntryView>) -> bool {
    forall|at: int| 0 <= at < entries.len() ==> !fails(root, #[trigger] entries[at])
}

/// Whether the entry at `position` is the first that stops the index from
/// being written.
pub open spec fn is_first_failure(root: Seq<char>, entries: Seq<EntryView>, position: int) -> bool {
    &&& 0 <= position < entries.len()
    &&& fails(root, entries[position])
    &&& forall|at: int| 0 <= at < position ==> !fails(root, #[trigger] entries[at])
}

/// The whole index: the header, the lines and the trailer.
pub open spec fn index_text(root: Seq<char>, entries: Seq<EntryView>) -> Seq<char> {
    HEADER@ + index_lines(root, entries).flatten() + TRAILER@
}

/// The listed positions are the positions of the listed entries, each of
/// them once, from the first to the last.
pub proof fn lemma_listed_positions(root: Seq<char>, entries: Seq<EntryView>)
    ensures
        forall|k: int|
            0 <= k < listed_positions(root, entries).len() ==> {
                let at = #[trigger] listed_positions(root, entries)[k];
                0 <= at < entries.len() && is_listed(root, entries[at])
            },
        forall|j: int, k: int|
            0 <= j < k < listed_positions(root, entries).len() ==> listed_positions(
                root,
                entries,
            )[j] < listed_positions(root, entries)[k],
        forall|at: int|
            0 <= at < entries.len() && is_listed(root, #[trigger] entries[at])
                ==> listed_positions(root, entries).contains(at),
    decreases entries.len(),
{
    if entries.len() > 0 {
        let positions = listed_positions(root, entries);
        let shorter = entries.drop_last();
        let before = listed_positions(root, shorter);
        lemma_listed_positions(root, shorter);
        assert forall|at: int|
            0 <= at < entries.len() && is_listed(root, #[trigger] entries[at]) implies positions.contains(
            at,
        ) by {
            if at < shorter.len() {
                assert(is_listed(root, shorter[at]));
                let k: int = choose|k: int| 0 <= k < before.len() && before[k] == at;
                assert(positions[k] == at);
            } else {
                assert(positions.last() == at);
            }
        }
    }
}

/// One more entry adds its line to the lines where it is listed, and leaves
/// them as they are where it is not.
pub proof fn lemma_index_lines_push(root: Seq<char>, entries: Seq<EntryView>, next: EntryView)
    ensures
        index_lines(root, entries.push(next)) == if is_listed(root, next) {
            index_lines(root, entries).push(line_of(root, next))
        } else {
            index_lines(root, entries)
        },
{
    assert(entries.push(next).drop_last() == entries);
    lemma_listed_positions(root, entries);
}

/// Writes the line of the index for one document.
pub fn render_entry(relative_path: &str, date: &str) -> (line: String)
    ensures
        line@ == entry_line(relative_path@, date@),
{
    let quoted = debug_string(date);
    let mut line = String::from_str("- [");
    line.append(relative_path);
    line.append("](");
    line.append(relative_path);
    line.append(")  <sub>Last update: ");
    line.append(quoted.as_str());
    line.append("</sub>  \n");
    line
}

/// Writes the index of the Markdown documents among `entries`, which are
/// what a walk through the tree under `root_path` came upon, in its order.
///
/// The index holds the header, one line for each listed entry and the
/// trailer. It is not written where a listed entry has no date: the error
/// names the first such entry.
pub fn generate_index_content(root_path: &str, entries: &Vec<Entry>) -> (content: Result<
    String,
    IndexError,
>)
    ensures
        content is Ok <==> can_be_written(root_path@, entries.deep_view()),
        match content {
            Ok(text) => text@ == index_text(root_path@, entries.deep_view()),
            Err(error) => {
                &&& is_first_failure(root_path@, entries.deep_view(), error.position())
                &&& error == failure_of(entries.deep_view()[error.position()], error.position())
            },
        },
{
    let ghost root = root_path@;
    let ghost all = entries.deep_view();
    let mut content = String::from_str(HEADER);
    let mut at: usize = 0;
    proof {
    }
    while at < entries.len()
        invariant
            at <= entries.len(),
            root == root_path@,
            all == entries.deep_view(),
            forall|j: int| 0 <= j < at ==> !fails(root, #[trigger] all[j]),
            content@ == HEADER@ + index_lines(root, all.take(at as int)).flatten(),
        decreases entries.len() - at,
    {
        let entry = &entries[at];
        proof {
            assert(all.take(at + 1) =~= all.take(at as int).push(entry@));
            lemma_index_lines_push(root, all.take(at as int), entry@);
        }
        match listing(root_path, entry) {
            Some(relative_path) => {
                let unix_seconds: i64 = match entry.modified {
                    Some(unix_seconds) => unix_seconds,
                    None => {
                        return Err(IndexError::MissingTimestamp { entry: at });
                    },
                };
                let date = match format_date(unix_seconds) {
                    Some(date) => date,
                    None => {
                        return Err(IndexError::DateFormat { entry: at });
                    },
                };
                let line = render_entry(relative_path.as_str(), date.as_str());
                content.append(line.as_str());
                proof {
                    index_lines(root, all.take(at as int)).lemma_flatten_push(line@);
                }
            },
            None => {},
        }
        at = at + 1;
    }
    assert(all.take(at as int) =~= all);
    content.append(TRAILER);
    Ok(content)
}

} // verus!
