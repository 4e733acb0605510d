//! The commit list: commits, the window of them that is loaded, and the one that is selected.

use std::rc::Rc;
use vstd::prelude::*;

use crate::branch::{
    branches_by_commit, group_branches, law_branches_at_their_commits, BranchInfo, Tags,
};
use crate::commit_id::CommitId;
use crate::commit_map::CommitMap;
use crate::commit_set::{extended, law_extended, law_extended_step_by_step, CommitSet};
use crate::doc_line::{CommitIndex, DocLine};
use crate::log_items::{CommitInfo, ItemBatch, LogEntry};

verus! {

/// Commits to fetch at a time.
pub const SLICE_SIZE: usize = 1200;

/// Width for which commits are fetched before the first draw.
pub const DEFAULT_WIDTH: u16 = 100;

/// A list of commits, one of which is selected.
pub struct CommitList {
    /// Title of the view.
    pub title: String,
    /// Place of the cursor in the document.
    pub selection: DocLine,
    /// Position of the selected commit among the highlighted commits.
    pub highlighted_selection: Option<usize>,
    /// The loaded commits.
    pub items: ItemBatch,
    /// The highlighted commits.
    pub highlights: Option<Rc<CommitSet>>,
    /// All commits, the youngest first.
    pub commits: CommitSet,
    /// The marked commits, each with a position in the loaded window by which they are ordered.
    pub marked: Vec<(usize, CommitId)>,
    /// Tags of commits.
    pub tags: Option<Tags>,
    /// Local branches, by the commit that they point at.
    pub local_branches: CommitMap<BranchInfo>,
    /// Remote branches, by the commit that they point at.
    pub remote_branches: CommitMap<BranchInfo>,
    /// Columns and rows of the view, once it was drawn.
    pub current_size: Option<(u16, u16)>,
    /// First place of the document that the view shows.
    pub scroll_top: DocLine,
}

/// Why the selection did not move.
#[derive(Clone, Copy, Debug, PartialEq, Eq, Structural)]
pub enum CommitListError {
    /// The commit is not in the list.
    NotLoaded,
    /// The scroll speed is not a number of lines.
    ScrollSpeed,
}

impl CommitListError {
    /// The error in words.
    pub fn message(&self) -> (r: &'static str)
        ensures
            self is NotLoaded ==> r@
                == "Could not select commit. It might not be loaded yet or it might be on a different branch."@,
            self is ScrollSpeed ==> r@ == "out of range integral type conversion attempted"@,
    {
        match self {
            CommitListError::NotLoaded =>
                "Could not select commit. It might not be loaded yet or it might be on a different branch.",
            CommitListError::ScrollSpeed => "out of range integral type conversion attempted",
        }
    }
}

/// Commits that the list asks the repository about.
pub struct FetchRequest {
    /// Index of the first of the commits.
    pub start: usize,
    /// The commits.
    pub ids: Vec<CommitId>,
    /// The width to which their messages may be cut.
    pub width: usize,
}

/// The position of `id` among the highlighted commits.
pub open spec fn highlight_position(highlights: Option<Rc<CommitSet>>, id: CommitId) -> Option<
    usize,
> {
    if highlights is Some && highlights->0@.contains(id) {
        Some(highlights->0@.index_of(id) as usize)
    } else {
        None
    }
}

/// `highlighting`, or nothing where it has no commits.
pub open spec fn effective_highlights(highlighting: Option<Rc<CommitSet>>) -> Option<
    Rc<CommitSet>,
> {
    if highlighting is Some && highlighting->0@.len() == 0 {
        None
    } else {
        highlighting
    }
}

/// Distance between two indices.
pub open spec fn distance(a: int, b: int) -> int {
    if a <= b {
        b - a
    } else {
        a - b
    }
}

/// Whether the commit at `index` of `commits` is highlighted.
pub open spec fn highlighted_at(
    commits: Seq<CommitId>,
    highlights: Option<Rc<CommitSet>>,
    index: int,
) -> bool {
    &&& 0 <= index < commits.len()
    &&& highlights is Some
    &&& highlights->0@.contains(commits[index])
}

/// Whether `index` is a highlighted commit nearest to the commit at `from`. Of two that are
/// equally near, it is the one behind.
pub open spec fn nearest_highlight(
    commits: Seq<CommitId>,
    highlights: Option<Rc<CommitSet>>,
    from: int,
    index: int,
) -> bool {
    &&& highlighted_at(commits, highlights, index)
    &&& forall|i: int| #[trigger]
        highlighted_at(commits, highlights, i) ==> distance(from, index) <= distance(from, i)
    &&& index < from ==> !highlighted_at(commits, highlights, from + (from - index))
}

/// Where the selection goes when the highlighted commits change: to the nearest of them, or
/// nowhere if none of them is in the list.
pub open spec fn follows_highlight(
    commits: Seq<CommitId>,
    highlights: Option<Rc<CommitSet>>,
    from: DocLine,
    to: DocLine,
) -> bool {
    if highlights is None {
        to == from
    } else if exists|i: int| #[trigger] highlighted_at(commits, highlights, i) {
        &&& to == DocLine::commit(to.index())
        &&& nearest_highlight(commits, highlights, from.index(), to.index())
    } else {
        to == DocLine::commit(from.index())
    }
}

/// Index of the first commit that should be loaded, where the commit at `selected` of `count` is
/// selected.
pub open spec fn window_start(selected: int, count: int) -> int {
    let wanted = if selected >= SLICE_SIZE / 2 {
        selected - SLICE_SIZE / 2
    } else {
        0
    };
    if wanted <= count {
        wanted
    } else {
        count
    }
}

/// Whether the loaded window, where it begins at the wanted place and is not empty, begins at one
/// of the `count` commits of the list.
pub open spec fn can_compare(items: ItemBatch, selected: int, count: int) -> bool {
    items.items@.len() > 0 && items.index_offset == Some(window_start(selected, count) as usize)
        ==> window_start(selected, count) < count
}

impl Default for CommitList {
    fn default() -> (r: CommitList)
        ensures
            r.wf(),
            r.title@.len() == 0,
            r.selection == DocLine::commit(0),
            r.highlighted_selection is None,
            r.items.index_offset is None,
            r.items.items@.len() == 0,
            !r.items.highlighting,
            r.highlights is None,
            r.commits@ == Seq::<CommitId>::empty(),
            r.marked@.len() == 0,
            r.tags is None,
            r.local_branches@ == Map::<CommitId, Seq<BranchInfo>>::empty(),
            r.remote_branches@ == Map::<CommitId, Seq<BranchInfo>>::empty(),
            r.current_size is None,
            r.scroll_top == DocLine::commit(0),
    {
        proof {
            reveal_strlit("");
        }
        CommitList::new("")
    }
}

impl CommitList {
    /// Index of the selected commit.
    pub open spec fn selected(self) -> int {
        self.selection.index()
    }

    /// Index of the last commit, zero in an empty list.
    pub open spec fn last_index(self) -> int {
        if self.commits@.len() == 0 {
            0
        } else {
            self.commits@.len() - 1
        }
    }

    /// Position of the selected commit in the loaded window.
    pub open spec fn item_position(self) -> int {
        if self.items.offset() <= self.selected() {
            self.selected() - self.items.offset()
        } else {
            0
        }
    }

    /// The loaded commit that is selected.
    pub open spec fn entry(self) -> Option<LogEntry> {
        if self.item_position() < self.items.items@.len() {
            Some(self.items.items@[self.item_position()])
        } else {
            None
        }
    }

    /// Whether the loaded window, unless it is empty, begins at a commit of the list.
    pub open spec fn wf(self) -> bool {
        self.items.items@.len() > 0 && self.items.index_offset is Some
            ==> self.items.index_offset->0 < self.commits@.len()
    }

    /// The list with the commit at `index` selected.
    pub open spec fn with_selected(self, index: int) -> CommitList {
        CommitList {
            selection: DocLine::commit(index),
            highlighted_selection: highlight_position(self.highlights, self.commits@[index]),
            ..self
        }
    }

    /// Index of the first commit that should be loaded.
    pub open spec fn fetch_start(self) -> int {
        window_start(self.selected(), self.commits@.len() as int)
    }

    /// Whether the loaded window begins where it should, with the commit that belongs there.
    pub open spec fn in_sync(self) -> bool {
        &&& self.items.index_offset is Some
        &&& self.items.index_offset->0 == self.fetch_start()
        &&& self.items.items@.len() > 0
        &&& self.items.items@[0].id == self.commits@[self.fetch_start()]
    }

    /// Whether `request` asks for the commits that should be loaded.
    pub open spec fn asks_for_window(self, request: FetchRequest) -> bool {
        &&& request.start == self.fetch_start()
        &&& request.ids@ == self.commits@.subrange(
            self.fetch_start(),
            if self.fetch_start() + SLICE_SIZE <= self.commits@.len() {
                self.fetch_start() + SLICE_SIZE
            } else {
                self.commits@.len() as int
            },
        )
        &&& request.width == (match self.current_size {
            Some(size) => size.0,
            None => DEFAULT_WIDTH,
        })
    }

    /// What the list asks for: nothing while the window is in sync, unless it is forced.
    pub open spec fn fetches(self, force: bool, request: Option<FetchRequest>) -> bool {
        if self.in_sync() && !force {
            request is None
        } else {
            request is Some && self.asks_for_window(request->0)
        }
    }

    /// An empty list.
    pub fn new(title: &str) -> (r: CommitList)
        ensures
            r.wf(),
            r.title@ == title@,
            r.selection == DocLine::commit(0),
            r.highlighted_selection is None,
            r.items.index_offset is None,
            r.items.items@.len() == 0,
            !r.items.highlighting,
            r.highlights is None,
            r.commits@ == Seq::<CommitId>::empty(),
            r.marked@.len() == 0,
            r.tags is None,
            r.local_branches@ == Map::<CommitId, Seq<BranchInfo>>::empty(),
            r.remote_branches@ == Map::<CommitId, Seq<BranchInfo>>::empty(),
            r.current_size is None,
            r.scroll_top == DocLine::commit(0),
    {
        CommitList {
            title: title.to_owned(),
            selection: DocLine::at_commit(0),
            highlighted_selection: None,
            items: ItemBatch::default(),
            highlights: None,
            commits: CommitSet::new(),
            marked: Vec::new(),
            tags: None,
            local_branches: CommitMap::new(),
            remote_branches: CommitMap::new(),
            current_size: None,
            scroll_top: DocLine::at_commit(0),
        }
    }

    /// The last place of the document.
    pub fn last_docline(&self) -> (r: DocLine)
        ensures
            r == DocLine::commit(self.last_index()),
            r.index() == self.last_index(),
    {
        DocLine::at_commit(self.commits.len().saturating_sub(1))
    }

    /// The last place that can be selected.
    pub fn selection_max(&self) -> (r: DocLine)
        ensures
            r == DocLine::commit(self.last_index()),
            r.index() == self.last_index(),
    {
        self.last_docline()
    }

    /// The place that is selected.
    pub fn selection(&self) -> (r: DocLine)
        ensures
            r == self.selection,
    {
        self.selection
    }

    /// Columns and rows of the view, or nothing before the first draw.
    pub fn current_size(&self) -> (r: Option<(u16, u16)>)
        ensures
            r == self.current_size,
    {
        self.current_size
    }

    /// The selected commit.
    pub fn selected_commit_id(&self) -> (r: CommitId)
        requires
            self.selected() < self.commits@.len(),
        ensures
            r == self.commits@[self.selected()],
    {
        let inx: usize = self.selection.commit_index.into();
        self.commits.get(inx).unwrap()
    }

    /// Tags of commits.
    pub fn tags(&self) -> (r: Option<&Tags>)
        ensures
            r is Some <==> self.tags is Some,
            r matches Some(tags) ==> *tags == self.tags->0,
    {
        self.tags.as_ref()
    }

    /// Sets the tags of commits.
    pub fn set_tags(&mut self, tags: Tags)
        ensures
            *final(self) == (CommitList { tags: Some(tags), ..*old(self) }),
    {
        self.tags = Some(tags);
    }

    /// Removes all commits.
    pub fn clear(&mut self)
        ensures
            final(self).commits@ == Seq::<CommitId>::empty(),
            final(self).items.index_offset is None,
            final(self).items.items@ == Seq::<LogEntry>::empty(),
            final(self).items.highlighting == old(self).items.highlighting,
            *final(self) == (CommitList {
                commits: final(self).commits,
                items: final(self).items,
                ..*old(self)
            }),
            final(self).wf(),
    {
        self.items.clear();
        self.commits.clear();
    }

    /// All commits, none of them twice.
    pub fn copy_items(&self) -> (r: Vec<CommitId>)
        ensures
            r@ == self.commits@,
            r@.no_duplicates(),
    {
        self.commits.to_vec()
    }

    /// The loaded commit that is selected.
    pub fn selected_entry(&self) -> (r: Option<&LogEntry>)
        ensures
            r is Some <==> self.entry() is Some,
            r matches Some(entry) ==> *entry == self.entry()->0,
    {
        let sel_commit_inx: usize = self.selection.commit_index.into();
        self.items.get(sel_commit_inx.saturating_sub(self.items.index_offset()))
    }

    /// Sets the local branches.
    pub fn set_local_branches(&mut self, local_branches: Vec<BranchInfo>)
        ensures
            final(self).local_branches@ == branches_by_commit(local_branches@),
            *final(self) == (CommitList {
                local_branches: final(self).local_branches,
                ..*old(self)
            }),
    {
        self.local_branches = group_branches(local_branches);
    }

    /// Sets the remote branches.
    pub fn set_remote_branches(&mut self, remote_branches: Vec<BranchInfo>)
        ensures
            final(self).remote_branches@ == branches_by_commit(remote_branches@),
            *final(self) == (CommitList {
                remote_branches: final(self).remote_branches,
                ..*old(self)
            }),
    {
        self.remote_branches = group_branches(remote_branches);
    }

    /// Sets the commits. Where they are the same as before, in whatever order, nothing changes;
    /// else the loaded commits are forgotten and those to load are returned.
    pub fn set_commits(&mut self, commits: CommitSet) -> (r: Option<FetchRequest>)
        ensures
            commits@.to_set() == old(self).commits@.to_set() ==> *final(self) == *old(self)
                && r is None,
            commits@.to_set() != old(self).commits@.to_set() ==> {
                &&& *final(self) == (CommitList {
                    commits,
                    items: final(self).items,
                    ..*old(self)
                })
                &&& final(self).items.index_offset is None
                &&& final(self).items.items@ == Seq::<LogEntry>::empty()
                &&& final(self).items.highlighting == old(self).items.highlighting
                &&& final(self).wf()
                &&& r is Some
                &&& final(self).asks_for_window(r->0)
            },
    {
        if commits.same_commits(&self.commits) {
            None
        } else {
            self.items.clear();
            self.commits = commits;
            self.fetch_commits(false)
        }
    }

    /// Whether the list looks for commits to load once `commits` have been added.
    pub open spec fn looks_for_data(self, commits: Seq<CommitId>) -> bool {
        let count = extended(self.commits@, commits).len();
        commits.len() > 0 || self.items.wants_data(
            self.selected(),
            if count == 0 {
                0
            } else {
                count - 1
            },
        )
    }

    /// Adds commits behind the others, and returns those to load.
    pub fn refresh_extend_data(&mut self, commits: Vec<CommitId>) -> (r: Option<FetchRequest>)
        requires
            old(self).looks_for_data(commits@) ==> can_compare(
                old(self).items,
                old(self).selected(),
                extended(old(self).commits@, commits@).len() as int,
            ),
        ensures
            final(self).commits@ == extended(old(self).commits@, commits@),
            *final(self) == (CommitList { commits: final(self).commits, ..*old(self) }),
            old(self).wf() ==> final(self).wf(),
            if old(self).looks_for_data(commits@) {
                final(self).fetches(false, r)
            } else {
                r is None
            },
    {
        let new_commits = commits.len() > 0;
        self.commits.extend(&commits);
        proof {
            law_extended(old(self).commits@, commits@);
        }
        let selection = self.selection().commit_index;
        let selection_max = self.selection_max().commit_index;
        if self.needs_data(selection, selection_max) || new_commits {
            self.fetch_commits(false)
        } else {
            None
        }
    }

    /// Whether the loaded window has to move for the commit at `idx`. Commits end at `idx_max`.
    pub fn needs_data(&self, idx: CommitIndex, idx_max: CommitIndex) -> (r: bool)
        ensures
            r == self.items.wants_data(idx.0 as int, idx_max.0 as int),
    {
        self.items.needs_data(idx.0, idx_max.0)
    }

    /// Sets the highlighted commits, and selects the nearest of them. Returns the commits to load.
    pub fn set_highlighting(&mut self, highlighting: Option<Rc<CommitSet>>) -> (r: Option<
        FetchRequest,
    >)
        requires
            old(self).selected() < old(self).commits@.len(),
        ensures
            final(self).highlights == effective_highlights(highlighting),
            follows_highlight(
                final(self).commits@,
                final(self).highlights,
                old(self).selection,
                final(self).selection,
            ),
            final(self).selected() < final(self).commits@.len(),
            final(self).highlighted_selection == highlight_position(
                final(self).highlights,
                final(self).commits@[final(self).selected()],
            ),
            *final(self) == (CommitList {
                highlights: final(self).highlights,
                selection: final(self).selection,
                highlighted_selection: final(self).highlighted_selection,
                ..*old(self)
            }),
            old(self).wf() ==> final(self).wf(),
            final(self).fetches(true, r),
    {
        let empty = match &highlighting {
            Some(set) => set.is_empty(),
            None => false,
        };
        self.highlights = if empty {
            None
        } else {
            highlighting
        };
        self.select_next_highlight();
        self.set_highlighted_selection_index();
        self.fetch_commits(true)
    }

    /// Selects a commit.
    pub fn select_commit(&mut self, id: CommitId) -> (r: Result<(), CommitListError>)
        ensures
            r is Ok <==> old(self).commits@.contains(id),
            r is Ok ==> *final(self) == old(self).with_selected(old(self).commits@.index_of(id)),
            r is Ok ==> 0 <= old(self).commits@.index_of(id) < old(self).commits@.len(),
            r matches Err(e) ==> e is NotLoaded && *final(self) == *old(self),
    {
        match self.commits.get_index_of(&id) {
            Some(index) => {
                assert(self.commits@.index_of(id) == index);
                self.selection = DocLine::at_commit(index);
                self.set_highlighted_selection_index();
                Ok(())
            },
            None => Err(CommitListError::NotLoaded),
        }
    }

    /// Position of the selected commit among the highlighted commits, and the number of those.
    pub fn highlighted_selection_info(&self) -> (r: (usize, usize))
        ensures
            r.0 == (match self.highlighted_selection {
                Some(position) => position,
                None => 0,
            }),
            r.1 == (match self.highlights {
                Some(highlights) => highlights@.len() as int,
                None => 0,
            }),
    {
        let amount: usize = match &self.highlights {
            Some(highlights) => highlights.len(),
            None => 0,
        };
        let position: usize = match self.highlighted_selection {
            Some(position) => position,
            None => 0,
        };
        (position, amount)
    }

    /// Finds the selected commit among the highlighted commits.
    pub fn set_highlighted_selection_index(&mut self)
        requires
            old(self).selected() < old(self).commits@.len(),
        ensures
            *final(self) == (CommitList {
                highlighted_selection: highlight_position(
                    old(self).highlights,
                    old(self).commits@[old(self).selected()],
                ),
                ..*old(self)
            }),
    {
        let selected_commit_id = self.selected_commit_id();
        self.highlighted_selection = match &self.highlights {
            Some(highlights) => {
                let position = highlights.get_index_of(&selected_commit_id);
                assert(position matches Some(i) ==> highlights@.index_of(selected_commit_id) == i);
                position
            },
            None => None,
        };
    }

    /// Whether the selected commit is highlighted.
    pub fn selection_highlighted(&self) -> (r: bool)
        requires
            self.selected() < self.commits@.len(),
        ensures
            r == highlighted_at(self.commits@, self.highlights, self.selected()),
    {
        let commit_index: usize = self.selection.commit_index.into();
        self.index_highlighted(commit_index)
    }

    /// Whether the commit at `index` is highlighted.
    fn index_highlighted(&self, index: usize) -> (r: bool)
        requires
            index < self.commits@.len(),
        ensures
            r == highlighted_at(self.commits@, self.highlights, index as int),
    {
        let commit = self.commits.get(index).unwrap();
        match &self.highlights {
            Some(highlights) => highlights.contains(&commit),
            None => false,
        }
    }

    /// Selects the highlighted commit nearest to the selected one.
    pub fn select_next_highlight(&mut self)
        requires
            old(self).highlights is Some ==> old(self).selected() < old(self).commits@.len(),
        ensures
            follows_highlight(
                old(self).commits@,
                old(self).highlights,
                old(self).selection,
                final(self).selection,
            ),
            *final(self) == (CommitList { selection: final(self).selection, ..*old(self) }),
    {
        if self.highlights.is_none() {
            return;
        }
        let old_selection: usize = self.selection.commit_index.into();
        let max: usize = self.selection_max().commit_index.into();
        let count: usize = self.commits.len();
        let mut found: usize = old_selection;
        let mut offset: usize = 0;
        let ghost list = *self;
        loop
            invariant_except_break
                offset <= max + 1,
                found == old_selection,
                forall|i: int| #[trigger]
                    highlighted_at(self.commits@, self.highlights, i) ==> distance(
                        old_selection as int,
                        i,
                    ) >= offset,
            invariant
                *self == list,
                self.highlights is Some,
                old_selection <= max,
                max == self.last_index(),
                max < count,
                count == self.commits@.len(),
            ensures
                nearest_highlight(
                    self.commits@,
                    self.highlights,
                    old_selection as int,
                    found as int,
                ) || (found == old_selection && forall|i: int|
                    !#[trigger] highlighted_at(self.commits@, self.highlights, i)),
            decreases max + 1 - offset,
        {
            let hit_upper_bound = offset > max - old_selection;
            let hit_lower_bound = offset > old_selection;
            if !hit_upper_bound {
                if self.index_highlighted(old_selection + offset) {
                    found = old_selection + offset;
                    break;
                }
            }
            if !hit_lower_bound {
                if self.index_highlighted(old_selection - offset) {
                    found = old_selection - offset;
                    break;
                }
            }
            if hit_lower_bound && hit_upper_bound {
                assert forall|i: int|
                    !#[trigger] highlighted_at(self.commits@, self.highlights, i) by {
                    if highlighted_at(self.commits@, self.highlights, i) {
                        assert(distance(old_selection as int, i) >= offset);
                    }
                }
                break;
            }
            assert forall|i: int| #[trigger]
                highlighted_at(self.commits@, self.highlights, i) implies distance(
                old_selection as int,
                i,
            ) >= offset + 1 by {
                if distance(old_selection as int, i) == offset {
                    assert(i == old_selection + offset || i == old_selection - offset);
                }
            }
            offset = offset + 1;
        }
        self.selection = DocLine::at_commit(found);
    }

    /// Whether the first loaded commit is the one that belongs there.
    pub fn is_list_in_sync(&self) -> (r: bool)
        requires
            self.wf(),
        ensures
            r == (self.items.index_offset is Some && self.items.items@.len() > 0
                && self.items.items@[0].id == self.commits@[self.items.index_offset->0 as int]),
    {
        match self.items.index_offset_raw() {
            Some(index) => match self.items.get(0) {
                Some(item) => item.id == self.commits.get(index).unwrap(),
                None => false,
            },
            None => false,
        }
    }

    /// The commits to load, if the loaded window is not where it should be or `force` is set.
    pub fn fetch_commits(&self, force: bool) -> (r: Option<FetchRequest>)
        requires
            can_compare(self.items, self.selected(), self.commits@.len() as int),
        ensures
            self.fetches(force, r),
    {
        let selected_ci: usize = self.selection().commit_index.into();
        let want_min: usize = selected_ci.saturating_sub(SLICE_SIZE / 2);
        let commits: usize = self.commits.len();
        let want_min: usize = if want_min <= commits {
            want_min
        } else {
            commits
        };
        let index_in_sync = match self.items.index_offset_raw() {
            Some(index) => want_min == index,
            None => false,
        };
        assert(index_in_sync ==> self.items.index_offset == Some(self.fetch_start() as usize));
        if !index_in_sync || !self.is_list_in_sync() || force {
            let ids = self.commits.range(want_min, SLICE_SIZE);
            let width: u16 = match self.current_size() {
                Some(size) => size.0,
                None => DEFAULT_WIDTH,
            };
            let request = FetchRequest { start: want_min, ids, width: width as usize };
            assert(self.asks_for_window(request)) by {
                let end = if want_min + SLICE_SIZE <= self.commits@.len() {
                    want_min + SLICE_SIZE
                } else {
                    self.commits@.len() as int
                };
                assert(ids@ =~= self.commits@.subrange(want_min as int, end));
            }
            Some(request)
        } else {
            None
        }
    }

    /// Takes in what the repository told of the commits that it was asked about. Where it failed,
    /// nothing changes.
    pub fn set_fetched(&mut self, start: usize, fetched: Option<Vec<CommitInfo>>)
        ensures
            fetched is None ==> *final(self) == *old(self),
            fetched matches Some(infos) ==> {
                &&& *final(self) == (CommitList { items: final(self).items, ..*old(self) })
                &&& final(self).items.index_offset == Some(start)
                &&& final(self).items.highlighting == (old(self).highlights is Some)
                &&& final(self).items.items@.len() == infos@.len()
                &&& forall|i: int|
                    0 <= i < infos@.len() ==> (#[trigger] final(self).items.items@[i]).shows(
                        infos@[i],
                        old(self).highlights is Some && old(self).highlights->0@.contains(
                            infos@[i].id,
                        ),
                    )
                &&& infos@.len() == 0 || start < old(self).commits@.len() ==> final(self).wf()
            },
    {
        if let Some(infos) = fetched {
            self.items.set_items(start, infos, &self.highlights);
        }
    }
}

/// Once the commits that a list asked for have been loaded, it asks for no more, and the selected
/// commit is among those that are loaded.
pub proof fn law_fetch_settles(before: CommitList, request: FetchRequest, after: CommitList)
    requires
        before.asks_for_window(request),
        request.ids@.len() > 0,
        after == (CommitList { items: after.items, ..before }),
        after.items.index_offset == Some(request.start),
        after.items.items@.len() == request.ids@.len(),
        forall|i: int|
            0 <= i < request.ids@.len() ==> (#[trigger] after.items.items@[i]).id
                == request.ids@[i],
    ensures
        after.wf(),
        after.in_sync(),
        forall|again: Option<FetchRequest>| #[trigger]
            after.fetches(false, again) ==> again is None,
        before.selected() < before.commits@.len() ==> {
            &&& after.entry() is Some
            &&& after.entry()->0.id == before.commits@[before.selected()]
        },
{
    let start = before.fetch_start();
    assert(request.ids@[0] == before.commits@[start]);
    assert(after.items.items@[0].id == request.ids@[0]);
    if before.selected() < before.commits@.len() {
        let position = before.selected() - start;
        assert(after.items.items@[position].id == request.ids@[position]);
    }
}

/// The selected loaded commit is the one at the place of the selection in the loaded window. A
/// selection in front of the window counts as its beginning, and one behind it selects nothing.
pub proof fn law_selected_entry(list: CommitList)
    ensures
        ({
            let start = match list.items.index_offset {
                Some(start) => start as int,
                None => 0,
            };
            let selected = list.selection.commit_index.0 as int;
            let items = list.items.items@;
            &&& list.entry() is Some <==> items.len() > 0 && selected < start + items.len()
            &&& start <= selected < start + items.len() ==> list.entry() == Some(
                items[selected - start],
            ) && list.item_position() == selected - start
            &&& selected < start && items.len() > 0 ==> list.entry() == Some(items[0])
                && list.item_position() == 0
        }),
{
}

/// Selecting a commit of the list selects it, and finds its place among the highlighted commits.
pub proof fn law_select_commit(before: CommitList, id: CommitId, after: CommitList)
    requires
        before.commits@.len() <= usize::MAX,
        before.commits@.contains(id),
        before.highlights is Some ==> before.highlights->0@.len() <= usize::MAX,
        after == before.with_selected(before.commits@.index_of(id)),
    ensures
        after.commits == before.commits,
        after.selection.commit_index.0 < after.commits@.len(),
        after.commits@[after.selection.commit_index.0 as int] == id,
        after.selection.line_offset is None,
        after.highlighted_selection is Some <==> before.highlights is Some
            && before.highlights->0@.contains(id),
        after.highlighted_selection matches Some(position) ==> {
            &&& position < before.highlights->0@.len()
            &&& before.highlights->0@[position as int] == id
        },
        after == (CommitList {
            selection: after.selection,
            highlighted_selection: after.highlighted_selection,
            ..before
        }),
{
}

/// The commits that are asked for follow each other in the list, are no more than a slice, and
/// reach to the end of the list or of the slice. The selected commit is among them, with half a
/// slice in front of it where there are so many.
pub proof fn law_window_around_selection(list: CommitList, request: FetchRequest)
    requires
        list.asks_for_window(request),
    ensures
        ({
            let selected = list.selection.commit_index.0 as int;
            let count = list.commits@.len();
            let end = request.start + request.ids@.len();
            &&& forall|i: int|
                0 <= i < request.ids@.len() ==> #[trigger] request.ids@[i]
                    == list.commits@[request.start + i]
            &&& end <= count
            &&& request.ids@.len() == 1200 || end == count
            &&& request.ids@.len() <= 1200
            &&& selected < count ==> request.start <= selected < end
            &&& selected < count && selected >= 600 ==> request.start == selected - 600
            &&& selected < 600 && selected < count ==> request.start == 0
            &&& request.width == match list.current_size {
                Some((columns, _)) => columns as int,
                None => 100,
            }
        }),
{
}

/// Nothing is asked for exactly where that is not forced and the loaded window begins where the
/// wanted one does, with the same commit.
pub proof fn law_loaded_window_is_kept(
    list: CommitList,
    force: bool,
    asked: Option<FetchRequest>,
    wanted: FetchRequest,
)
    requires
        list.commits@.len() <= usize::MAX,
        list.fetches(force, asked),
        list.asks_for_window(wanted),
        wanted.ids@.len() > 0,
    ensures
        asked is None <==> !force && list.items.index_offset == Some(wanted.start)
            && list.items.items@.len() > 0 && list.items.items@[0].id == wanted.ids@[0],
        asked is Some ==> asked->0.start == wanted.start && asked->0.ids@ == wanted.ids@
            && asked->0.width == wanted.width,
{
}

/// Highlighting takes the selection to a highlighted commit of the list where there is one, and
/// none of them is nearer. Of two that are as near, it is the one further down. Otherwise the same
/// commit stays selected.
pub proof fn law_nearest_highlight_is_selected(
    commits: Seq<CommitId>,
    highlights: Rc<CommitSet>,
    from: DocLine,
    to: DocLine,
    i: int,
)
    requires
        follows_highlight(commits, Some(highlights), from, to),
        0 <= i < commits.len(),
        highlights@.contains(commits[i]),
    ensures
        ({
            let f = from.commit_index.0 as int;
            let t = to.commit_index.0 as int;
            &&& t < commits.len()
            &&& highlights@.contains(commits[t])
            &&& to.line_offset is None
            &&& i > f ==> f - (i - f) < t <= i
            &&& i == f ==> t == f
            &&& i < f ==> i <= t <= f + (f - i)
        }),
{
    assert(highlighted_at(commits, Some(highlights), i));
    let f = from.commit_index.0 as int;
    let t = to.commit_index.0 as int;
    assert(distance(f, t) <= distance(f, i));
    if i > f && t == f - (i - f) {
        assert(!highlighted_at(commits, Some(highlights), f + (f - t)));
    }
}

/// Highlighting that has no commit in the list leaves the same commit selected, and highlighting
/// nothing leaves the selection as it is. An empty set of commits highlights nothing.
pub proof fn law_no_highlight_no_move(
    commits: Seq<CommitId>,
    highlights: Option<Rc<CommitSet>>,
    from: DocLine,
    to: DocLine,
)
    requires
        follows_highlight(commits, highlights, from, to),
        highlights is Some ==> forall|i: int|
            0 <= i < commits.len() ==> !highlights->0@.contains(#[trigger] commits[i]),
    ensures
        to.commit_index.0 == from.commit_index.0,
        highlights is None ==> to == from,
        effective_highlights(highlights) is None <==> highlights is None || highlights->0@.len()
            == 0,
        effective_highlights(highlights) is Some ==> effective_highlights(highlights)
            == highlights,
{
    if exists|i: int| #[trigger] highlighted_at(commits, highlights, i) {
        let i = choose|i: int| #[trigger] highlighted_at(commits, highlights, i);
        assert(highlights->0@.contains(commits[i]));
    }
}

/// Data is looked for where commits are added, and where the window does not reach far enough
/// around the selected commit.
pub proof fn law_looks_for_data(list: CommitList, added: Seq<CommitId>)
    ensures
        added.len() > 0 ==> list.looks_for_data(added),
        added.len() == 0 ==> (list.looks_for_data(added) <==> list.items.wants_data(
            list.selection.commit_index.0 as int,
            if list.commits@.len() == 0 {
                0
            } else {
                list.commits@.len() - 1
            },
        )),
{
    assert(added.len() == 0 ==> added =~= Seq::<CommitId>::empty());
    law_extended_step_by_step(
        list.commits@,
        CommitId { high: 0, low: 0 },
        Seq::empty(),
        Seq::empty(),
    );
}

/// A commit of the list that is selected is the selected commit, and no commit is selected that the
/// list does not have.
pub proof fn law_selected_by_id(
    before: CommitList,
    id: CommitId,
    after: CommitList,
    r: Result<(), CommitListError>,
)
    requires
        before.commits@.len() <= usize::MAX,
        exists|m: &mut CommitList|
            *m == before && *final(m) == after && #[trigger] call_ensures(
                CommitList::select_commit,
                (m, id),
                r,
            ),
    ensures
        r is Ok <==> before.commits@.contains(id),
        r is Ok ==> after.commits@[after.selection.commit_index.0 as int] == id,
        r is Err ==> r->Err_0 is NotLoaded && after == before,
        after.commits == before.commits,
{
}

/// Fetched commits are the loaded ones, each as the repository tells of it, from the index on that
/// they were asked for. Without a reply nothing changes.
pub proof fn law_fetched_commits_are_loaded(
    before: CommitList,
    start: usize,
    fetched: Option<Vec<CommitInfo>>,
    after: CommitList,
)
    requires
        exists|m: &mut CommitList|
            *m == before && *final(m) == after && #[trigger] call_ensures(
                CommitList::set_fetched,
                (m, start, fetched),
                (),
            ),
    ensures
        fetched is None ==> after == before,
        after.commits == before.commits,
        after.selection == before.selection,
        fetched is Some ==> {
            let infos = fetched->0@;
            let items = after.items.items@;
            &&& after.items.index_offset == Some(start)
            &&& after.items.highlighting <==> before.highlights is Some
            &&& items.len() == infos.len()
            &&& forall|i: int|
                0 <= i < infos.len() ==> {
                    &&& (#[trigger] items[i]).id == infos[i].id
                    &&& items[i].author@ == infos[i].author@
                    &&& items[i].msg@ == infos[i].message@
                    &&& items[i].time == infos[i].time
                    &&& items[i].highlighted <==> before.highlights is Some
                        && before.highlights->0@.contains(infos[i].id)
                }
        },
{
    if fetched is Some {
        let infos = fetched->0@;
        let items = after.items.items@;
        assert forall|i: int| 0 <= i < infos.len() implies (#[trigger] items[i]).shows(
            infos[i],
            before.highlights is Some && before.highlights->0@.contains(infos[i].id),
        ) by {}
    }
}

/// Commits that are added to a list stand behind its own, and nothing else of it changes.
pub proof fn law_list_is_extended(
    before: CommitList,
    commits: Vec<CommitId>,
    after: CommitList,
    r: Option<FetchRequest>,
)
    requires
        exists|m: &mut CommitList|
            *m == before && *final(m) == after && call_requires(
                CommitList::refresh_extend_data,
                (m, commits),
            ) && #[trigger] call_ensures(CommitList::refresh_extend_data, (m, commits), r),
    ensures
        before.commits@.len() <= after.commits@.len(),
        after.commits@.take(before.commits@.len() as int) == before.commits@,
        forall|id: CommitId| #[trigger]
            after.commits@.contains(id) <==> before.commits@.contains(id) || commits@.contains(id),
        (before.commits@ + commits@).no_duplicates() ==> after.commits@ == before.commits@
            + commits@,
        after.selection == before.selection,
        after.items == before.items,
        after.marked == before.marked,
        commits@.len() == 0 ==> after.commits@ == before.commits@,
{
    law_extended(before.commits@, commits@);
    lemma_extended_by_new(before.commits@, commits@);
}

/// New commits are added as they are.
proof fn lemma_extended_by_new(base: Seq<CommitId>, more: Seq<CommitId>)
    ensures
        (base + more).no_duplicates() ==> extended(base, more) == base + more,
        more.len() == 0 ==> extended(base, more) == base,
        extended(base, more).len() >= base.len(),
        extended(base, more).take(base.len() as int) == base,
    decreases more.len(),
{
    if more.len() == 0 {
        assert(base + more =~= base);
        assert(base.take(base.len() as int) =~= base);
    } else {
        let rest = more.drop_last();
        lemma_extended_by_new(base, rest);
        let before = extended(base, rest);
        law_extended_step_by_step(base, more.last(), rest, seq![more.last()]);
        assert(rest + seq![more.last()] =~= more);
        law_extended_step_by_step(before, more.last(), rest, rest);
        assert(before.push(more.last()).take(base.len() as int) =~= before.take(base.len() as int));
        if (base + more).no_duplicates() {
            let all = base + more;
            assert forall|i: int, j: int|
                0 <= i < (base + rest).len() && 0 <= j < (base + rest).len() && i != j implies (base
                + rest)[i] != (base + rest)[j] by {
                assert(all[i] != all[j]);
            }
            assert(!(base + rest).contains(more.last())) by {
                if (base + rest).contains(more.last()) {
                    let i = choose|i: int|
                        0 <= i < (base + rest).len() && (base + rest)[i] == more.last();
                    assert(all[i] == all[all.len() - 1]);
                }
            }
            assert((base + rest).push(more.last()) =~= base + more);
        }
    }
}

/// A list that is given other commits has just these, has none loaded, and asks for those around
/// its selection. The same commits change nothing, in whatever order they come.
pub proof fn law_commits_are_replaced(
    before: CommitList,
    commits: CommitSet,
    after: CommitList,
    r: Option<FetchRequest>,
    id: CommitId,
)
    requires
        exists|m: &mut CommitList|
            *m == before && *final(m) == after && #[trigger] call_ensures(
                CommitList::set_commits,
                (m, commits),
                r,
            ),
    ensures
        commits@.contains(id) != before.commits@.contains(id) ==> {
            &&& after.commits == commits
            &&& after.items.items@.len() == 0
            &&& r is Some
            &&& r->0.ids@ == commits@.subrange(
                r->0.start as int,
                r->0.start + r->0.ids@.len(),
            )
            &&& after.selection.commit_index.0 < commits@.len() ==> r->0.ids@.contains(
                commits@[after.selection.commit_index.0 as int],
            )
        },
        commits@ == before.commits@ ==> after == before && r is None,
        after.selection == before.selection,
        after.marked == before.marked,
{
    if commits@.contains(id) != before.commits@.contains(id) {
        assert(commits@.to_set().contains(id) != before.commits@.to_set().contains(id));
        law_window_around_selection(after, r->0);
        let selected = after.selection.commit_index.0 as int;
        if selected < commits@.len() {
            assert(r->0.ids@[selected - r->0.start] == commits@[selected]);
        }
        assert(r->0.ids@ =~= commits@.subrange(
            r->0.start as int,
            r->0.start + r->0.ids@.len(),
        ));
    }
}

/// Every branch that a list is given is kept at the commit that it points at, local branches among
/// the local ones and remote branches among the remote ones.
pub proof fn law_branches_are_kept(
    before: CommitList,
    branches: Vec<BranchInfo>,
    with_local: CommitList,
    with_remote: CommitList,
    i: int,
)
    requires
        0 <= i < branches@.len(),
        exists|m: &mut CommitList|
            *m == before && *final(m) == with_local && #[trigger] call_ensures(
                CommitList::set_local_branches,
                (m, branches),
                (),
            ),
        exists|m: &mut CommitList|
            *m == before && *final(m) == with_remote && #[trigger] call_ensures(
                CommitList::set_remote_branches,
                (m, branches),
                (),
            ),
    ensures
        ({
            let id = branches@[i].top_commit;
            let here = branches@.filter(|branch: BranchInfo| branch.top_commit == id);
            &&& with_local.local_branches@.dom().contains(id)
            &&& with_local.local_branches@[id] == here
            &&& with_local.remote_branches == before.remote_branches
            &&& with_remote.remote_branches@.dom().contains(id)
            &&& with_remote.remote_branches@[id] == here
            &&& with_remote.local_branches == before.local_branches
        }),
{
    law_branches_at_their_commits(branches@, branches@[i].top_commit);
}

/// Once commits of the list are highlighted, a highlighted commit is selected, its place among them
/// is known, and the loaded commits are asked for anew.
pub proof fn law_highlighting_is_set(
    before: CommitList,
    highlights: Rc<CommitSet>,
    after: CommitList,
    r: Option<FetchRequest>,
    i: int,
)
    requires
        0 <= i < before.commits@.len() <= usize::MAX,
        highlights@.contains(before.commits@[i]),
        highlights@.len() <= usize::MAX,
        exists|m: &mut CommitList|
            *m == before && *final(m) == after && call_requires(
                CommitList::set_highlighting,
                (m, Some(highlights)),
            ) && #[trigger] call_ensures(
                CommitList::set_highlighting,
                (m, Some(highlights)),
                r,
            ),
    ensures
        ({
            let selected = after.selection.commit_index.0 as int;
            &&& after.highlights == Some(highlights)
            &&& after.commits == before.commits
            &&& selected < after.commits@.len()
            &&& highlights@.contains(after.commits@[selected])
            &&& after.highlighted_selection is Some
            &&& highlights@[after.highlighted_selection->0 as int] == after.commits@[selected]
            &&& r is Some
        }),
{
    law_nearest_highlight_is_selected(
        before.commits@,
        highlights,
        before.selection,
        after.selection,
        i,
    );
}

/// The selected commit is the one that stands at the index of the selection among the commits of
/// the list.
pub proof fn law_selected_id(list: &CommitList, all: Vec<CommitId>, id: CommitId)
    requires
        list.selection.commit_index.0 < list.commits@.len(),
        call_ensures(CommitList::copy_items, (list,), all),
        call_ensures(CommitList::selected_commit_id, (list,), id),
    ensures
        all@ == list.commits@,
        id == all@[list.selection.commit_index.0 as int],
{
}

/// A list that is cleared has no commits, none of them loaded. Its selection and its marks stay.
pub proof fn law_cleared_list(before: CommitList, after: CommitList)
    requires
        exists|m: &mut CommitList|
            *m == before && *final(m) == after && #[trigger] call_ensures(
                CommitList::clear,
                (m,),
                (),
            ),
    ensures
        after.commits@.len() == 0,
        after.items.items@.len() == 0,
        after.items.index_offset is None,
        after.selection == before.selection,
        after.marked == before.marked,
{
}

} // verus!
