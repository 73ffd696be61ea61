//! A directory tree as the scanners see it: each entry's name and path, the
//! parsed lines of each transcript, and which directories or files could not
//! be read.
use vstd::prelude::*;

use crate::json::Json;

verus! {

/// One entry of a directory listing.
#[derive(Debug)]
pub struct Entry {
    /// The entry's file name.
    pub name: String,
    /// The full path of the entry, as the directory walk produced it.
    pub path: String,
    pub node: Node,
}

/// What an entry is.
#[derive(Debug)]
pub enum Node {
    /// A regular file: its lines, each parsed as JSON (`None` for a line that
    /// is not valid UTF-8 or not JSON); `None` when the file could not be read.
    File(Option<Vec<Option<Json>>>),
    /// A directory: its entries in listing order; `None` when it could not
    /// be listed (a missing directory included).
    Dir(Option<Vec<Entry>>),
}

/// A transcript small enough that its message count fits in a `u32`.
pub open spec fn records_fit(n: Node) -> bool {
    match n {
        Node::File(Some(records)) => records@.len() <= u32::MAX,
        _ => true,
    }
}

/// Every file anywhere under `n` fits.
pub open spec fn tree_fits(n: Node) -> bool
    decreases n, 1int,
{
    match n {
        Node::File(_) => records_fit(n),
        Node::Dir(Some(entries)) => entries_fit(entries@),
        Node::Dir(None) => true,
    }
}

/// Every file anywhere under `entries` fits.
pub open spec fn entries_fit(entries: Seq<Entry>) -> bool
    decreases entries, 0int,
{
    if entries.len() == 0 {
        true
    } else {
        entries_fit(entries.drop_last()) && tree_fits(entries.last().node)
    }
}

/// When a listing fits, each of its entries does.
pub proof fn lemma_entries_fit(entries: Seq<Entry>)
    requires
        entries_fit(entries),
    ensures
        forall|i: int| 0 <= i < entries.len() ==> #[trigger] tree_fits(entries[i].node),
    decreases entries.len(),
{
    if entries.len() > 0 {
        lemma_entries_fit(entries.drop_last());
        assert forall|i: int| 0 <= i < entries.len() implies #[trigger] tree_fits(entries[i].node) by {
            if i < entries.len() - 1 {
                assert(entries.drop_last()[i] == entries[i]);
            }
        }
    }
}

} // verus!
