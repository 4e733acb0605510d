//! The window of commits whose data is loaded.

use std::rc::Rc;
use vstd::prelude::*;

use crate::commit_id::{CommitId, SHORT_ID_DIGITS};
use crate::commit_set::CommitSet;

verus! {

/// How close to the edge of the window a commit may be before the window has to move.
pub const RELOAD_THRESHOLD: usize = 100;

/// What a repository tells of a commit.
#[derive(Clone, Debug)]
pub struct CommitInfo {
    /// The message.
    pub message: String,
    /// Seconds since the epoch.
    pub time: i64,
    /// Name of the author.
    pub author: String,
    /// The commit.
    pub id: CommitId,
    /// The parents of the commit, the one that it continues first.
    pub parents: Vec<CommitId>,
}

/// A loaded commit.
#[derive(Clone, Debug)]
pub struct LogEntry {
    /// Seconds since the epoch.
    pub time: i64,
    /// Name of the author.
    pub author: String,
    /// The message.
    pub msg: String,
    /// The short text of the id.
    pub hash_short: String,
    /// The commit.
    pub id: CommitId,
    /// Whether the commit is one of those that are highlighted.
    pub highlighted: bool,
}

/// The commits of a set that may be missing.
pub open spec fn optional_commits(set: Option<Rc<CommitSet>>) -> Option<Seq<CommitId>> {
    match set {
        Some(commits) => Some(commits@),
        None => None,
    }
}

/// Whether `id` is among the commits that are highlighted.
pub open spec fn is_highlighted(highlights: Option<Seq<CommitId>>, id: CommitId) -> bool {
    highlights is Some && highlights->0.contains(id)
}

impl LogEntry {
    /// Whether the entry shows the commit `info`, highlighted or not.
    pub open spec fn shows(self, info: CommitInfo, highlighted: bool) -> bool {
        &&& self.id == info.id
        &&& self.time == info.time
        &&& self.author@ == info.author@
        &&& self.msg@ == info.message@
        &&& self.hash_short@ == info.id.text().take(SHORT_ID_DIGITS as int)
        &&& self.highlighted == highlighted
    }

    /// The entry for `info`.
    pub fn new(info: CommitInfo, highlighted: bool) -> (r: LogEntry)
        ensures
            r.shows(info, highlighted),
    {
        LogEntry {
            hash_short: info.id.get_short_string(),
            time: info.time,
            author: info.author,
            msg: info.message,
            id: info.id,
            highlighted,
        }
    }
}

/// A window of loaded commits.
pub struct ItemBatch {
    /// Index of the first loaded commit, once commits have been loaded.
    pub index_offset: Option<usize>,
    /// The loaded commits.
    pub items: Vec<LogEntry>,
    /// Whether some commits are to be highlighted.
    pub highlighting: bool,
}

impl Default for ItemBatch {
    fn default() -> (r: ItemBatch)
        ensures
            r.index_offset is None,
            r.items@.len() == 0,
            !r.highlighting,
    {
        ItemBatch { index_offset: None, items: Vec::new(), highlighting: false }
    }
}

impl ItemBatch {
    /// Index of the first loaded commit, zero before any were loaded.
    pub open spec fn offset(self) -> int {
        match self.index_offset {
            Some(index) => index as int,
            None => 0,
        }
    }

    /// Index of the first loaded commit, zero before any were loaded.
    pub fn index_offset(&self) -> (r: usize)
        ensures
            r == self.offset(),
    {
        match self.index_offset {
            Some(index) => index,
            None => 0,
        }
    }

    /// Index of the first loaded commit.
    pub fn index_offset_raw(&self) -> (r: Option<usize>)
        ensures
            r == self.index_offset,
    {
        self.index_offset
    }

    /// Whether some commits are to be highlighted.
    pub fn highlighting(&self) -> (r: bool)
        ensures
            r == self.highlighting,
    {
        self.highlighting
    }

    /// The loaded commit at position `index` of the window.
    pub fn get(&self, index: usize) -> (r: Option<&LogEntry>)
        ensures
            r is Some <==> index < self.items@.len(),
            r matches Some(entry) ==> *entry == self.items@[index as int],
    {
        if index < self.items.len() {
            Some(&self.items[index])
        } else {
            None
        }
    }

    /// Forgets the loaded commits.
    pub fn clear(&mut self)
        ensures
            final(self).index_offset is None,
            final(self).items@ == Seq::<LogEntry>::empty(),
            final(self).highlighting == old(self).highlighting,
    {
        self.items.clear();
        self.index_offset = None;
    }

    /// Replaces the loaded commits by `commits`, the first of which has the index `start_index`.
    pub fn set_items(
        &mut self,
        start_index: usize,
        commits: Vec<CommitInfo>,
        highlighted: &Option<Rc<CommitSet>>,
    )
        ensures
            final(self).index_offset == Some(start_index),
            final(self).highlighting == (highlighted is Some),
            final(self).items@.len() == commits@.len(),
            forall|i: int|
                0 <= i < commits@.len() ==> (#[trigger] final(self).items@[i]).shows(
                    commits@[i],
                    is_highlighted(optional_commits(*highlighted), commits@[i].id),
                ),
    {
        let mut items: Vec<LogEntry> = Vec::new();
        for info in walk: commits
            invariant
                walk.seq() == commits@,
                items@.len() == walk.index(),
                forall|i: int|
                    0 <= i < walk.index() ==> (#[trigger] items@[i]).shows(
                        commits@[i],
                        is_highlighted(optional_commits(*highlighted), commits@[i].id),
                    ),
        {
            let mark: bool = match highlighted {
                Some(set) => set.contains(&info.id),
                None => false,
            };
            items.push(LogEntry::new(info, mark));
        }
        self.items = items;
        self.index_offset = Some(start_index);
        self.highlighting = highlighted.is_some();
    }

    /// Whether the commit at `idx` is outside the window, or so close to its edge that the window
    /// has to move. Commits end at `idx_max`.
    pub open spec fn wants_data(self, idx: int, idx_max: int) -> bool {
        ||| idx - RELOAD_THRESHOLD < self.offset() && self.offset() > 0
        ||| idx + RELOAD_THRESHOLD >= self.offset() + self.items@.len() && idx_max >= self.offset()
            + self.items@.len()
    }

    /// Whether the window has to move for the commit at `idx`. Commits end at `idx_max`.
    pub fn needs_data(&self, idx: usize, idx_max: usize) -> (r: bool)
        ensures
            r == self.wants_data(idx as int, idx_max as int),
    {
        let want_min: usize = idx.saturating_sub(RELOAD_THRESHOLD);
        let room: usize = idx.saturating_add(RELOAD_THRESHOLD);
        let want_max: usize = if room <= idx_max {
            room
        } else {
            idx_max
        };
        let offset: usize = self.index_offset();
        let needs_data_top = want_min < offset;
        let needs_data_bottom = want_max >= offset && want_max - offset >= self.items.len();
        needs_data_bottom || needs_data_top
    }
}

/// The window has to move exactly where some commit that is near the one at `idx`, and in the list,
/// is not loaded.
pub proof fn law_window_covers_neighbours(batch: ItemBatch, idx: int, idx_max: int)
    requires
        0 <= idx <= idx_max,
    ensures
        batch.wants_data(idx, idx_max) <==> exists|i: int|
            0 <= i <= idx_max && idx - 100 <= i <= idx + 100 && !#[trigger] is_loaded(batch, i),
{
    let start = match batch.index_offset {
        Some(index) => index as int,
        None => 0,
    };
    let low = if idx <= 100 { 0 } else { idx - 100 };
    let high = if idx + 100 <= idx_max { idx + 100 } else { idx_max };
    if batch.wants_data(idx, idx_max) {
        assert(!is_loaded(batch, low) || !is_loaded(batch, high));
    }
}

/// Whether the commit at index `i` is loaded.
pub open spec fn is_loaded(batch: ItemBatch, i: int) -> bool {
    let start = match batch.index_offset {
        Some(index) => index as int,
        None => 0,
    };
    start <= i < start + batch.items@.len()
}

/// An entry tells of its commit what the repository told, and is highlighted as it was asked for.
pub proof fn law_entry_shows_commit(
    entry: LogEntry,
    info: CommitInfo,
    highlighted: bool,
    highlights: Option<Rc<CommitSet>>,
)
    ensures
        entry.shows(info, highlighted) <==> {
            &&& entry.id == info.id
            &&& entry.time == info.time
            &&& entry.author@ == info.author@
            &&& entry.msg@ == info.message@
            &&& entry.hash_short@ == info.id.text().take(7)
            &&& entry.highlighted == highlighted
        },
        is_highlighted(optional_commits(highlights), info.id) <==> highlights is Some
            && highlights->0@.contains(info.id),
{
}

} // verus!
