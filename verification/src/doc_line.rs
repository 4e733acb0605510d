//! Places in the document that the view scrolls through.

use std::cmp::Ordering;

use vstd::prelude::*;
use vstd::std_specs::cmp::PartialOrdSpec;

verus! {

/// Index into the commits of a list.
#[derive(Clone, Copy, Debug, PartialEq, Eq, PartialOrd, Ord, Structural)]
pub struct CommitIndex(pub usize);

impl Default for CommitIndex {
    fn default() -> (r: CommitIndex)
        ensures
            r.0 == 0,
    {
        CommitIndex(0)
    }
}

impl From<CommitIndex> for usize {
    fn from(ci: CommitIndex) -> (r: usize) {
        ci.0
    }
}

impl vstd::std_specs::convert::FromSpecImpl<CommitIndex> for usize {
    open spec fn obeys_from_spec() -> bool {
        true
    }

    open spec fn from_spec(ci: CommitIndex) -> usize {
        ci.0
    }
}

/// Offset into the lines of one commit.
#[derive(Clone, Copy, Debug, PartialEq, Eq, PartialOrd, Ord, Structural)]
pub struct LineOfs(pub usize);

impl Default for LineOfs {
    fn default() -> (r: LineOfs)
        ensures
            r.0 == 0,
    {
        LineOfs(0)
    }
}

impl From<LineOfs> for usize {
    fn from(ofs: LineOfs) -> (r: usize) {
        ofs.0
    }
}

impl vstd::std_specs::convert::FromSpecImpl<LineOfs> for usize {
    open spec fn obeys_from_spec() -> bool {
        true
    }

    open spec fn from_spec(ofs: LineOfs) -> usize {
        ofs.0
    }
}

/// Index into the document that the view scrolls through.
///
/// It has two levels of accuracy: at a commit, or at a line within the text of a commit.
#[derive(Clone, Copy, Debug, PartialEq, Eq, Ord, Structural)]
pub struct DocLine {
    /// Index into the commits of the list.
    pub commit_index: CommitIndex,
    /// Index into the lines of the commit.
    pub line_offset: Option<LineOfs>,
}

impl Default for DocLine {
    fn default() -> (r: DocLine)
        ensures
            r == DocLine::commit(0),
    {
        DocLine::at_commit(0)
    }
}

/// Places are ordered by commit. The place of a commit itself comes before its lines.
impl PartialOrd for DocLine {
    fn partial_cmp(&self, other: &DocLine) -> (r: Option<Ordering>) {
        if self.is_before(other) {
            Some(Ordering::Less)
        } else if other.is_before(self) {
            Some(Ordering::Greater)
        } else {
            Some(Ordering::Equal)
        }
    }
}

impl vstd::std_specs::cmp::PartialOrdSpecImpl for DocLine {
    open spec fn obeys_partial_cmp_spec() -> bool {
        true
    }

    open spec fn partial_cmp_spec(&self, other: &DocLine) -> Option<Ordering> {
        if self.before(*other) {
            Some(Ordering::Less)
        } else if other.before(*self) {
            Some(Ordering::Greater)
        } else {
            Some(Ordering::Equal)
        }
    }
}

impl DocLine {
    /// The place of the commit at `index`.
    pub open spec fn commit(index: int) -> DocLine {
        DocLine { commit_index: CommitIndex(index as usize), line_offset: None }
    }

    /// Whether the place comes before `other`: its commit does, or it is in the same commit and is
    /// the commit itself or a line above.
    pub open spec fn before(self, other: DocLine) -> bool {
        ||| self.commit_index.0 < other.commit_index.0
        ||| self.commit_index.0 == other.commit_index.0 && match (
            self.line_offset,
            other.line_offset,
        ) {
            (None, Some(_)) => true,
            (Some(a), Some(b)) => a.0 < b.0,
            _ => false,
        }
    }

    /// Whether the place comes before `other`.
    pub fn is_before(&self, other: &DocLine) -> (r: bool)
        ensures
            r == self.before(*other),
    {
        self.commit_index.0 < other.commit_index.0 || self.commit_index.0 == other.commit_index.0
            && match (self.line_offset, other.line_offset) {
            (None, Some(_)) => true,
            (Some(a), Some(b)) => a.0 < b.0,
            _ => false,
        }
    }

    /// The index of the commit that the place is in.
    pub open spec fn index(self) -> int {
        self.commit_index.0 as int
    }

    /// The place of the commit at `commit_index`.
    pub fn at_commit(commit_index: usize) -> (r: DocLine)
        ensures
            r == DocLine::commit(commit_index as int),
            r.commit_index.0 == commit_index,
            r.line_offset is None,
    {
        DocLine { commit_index: CommitIndex(commit_index), line_offset: None }
    }

    /// The commit `ofs` commits before this place, or the first.
    pub fn saturating_sub(self, ofs: usize) -> (r: DocLine)
        ensures
            r == DocLine::commit(
                if ofs <= self.index() {
                    self.index() - ofs
                } else {
                    0
                },
            ),
    {
        let index: usize = self.commit_index.into();
        DocLine::at_commit(index.saturating_sub(ofs))
    }

    /// The commit `ofs` commits after this place, or the last index that there is.
    pub fn saturating_add(self, ofs: usize) -> (r: DocLine)
        ensures
            r == DocLine::commit(
                if self.index() + ofs <= usize::MAX {
                    self.index() + ofs
                } else {
                    usize::MAX as int
                },
            ),
    {
        let index: usize = self.commit_index.into();
        DocLine::at_commit(index.saturating_add(ofs))
    }
}

/// Of two places exactly one comes first, unless they are the same, and what comes first does so
/// in a chain too.
pub proof fn law_places_are_ordered(a: DocLine, b: DocLine, c: DocLine)
    ensures
        !(a.before(b) && b.before(a)),
        a == b <==> !a.before(b) && !b.before(a),
        a.before(b) && b.before(c) ==> a.before(c),
        a.partial_cmp_spec(&b) == Some(Ordering::Less) <==> a.before(b),
        a.partial_cmp_spec(&b) == Some(Ordering::Equal) <==> a == b,
        a.partial_cmp_spec(&b) == Some(Ordering::Greater) <==> b.before(a),
{
}

/// Places of commits are ordered as the commits are. The place of a commit is the least that is in
/// it, and every place in it comes before the places of the commits behind.
pub proof fn law_commits_are_ordered(a: usize, b: usize, place: DocLine)
    requires
        place.commit_index.0 == a,
    ensures
        DocLine::commit(a as int).before(DocLine::commit(b as int)) <==> a < b,
        DocLine::commit(a as int) == DocLine::commit(b as int) <==> a == b,
        !place.before(DocLine::commit(a as int)),
        DocLine::commit(a as int) == place || DocLine::commit(a as int).before(place),
        a < b ==> place.before(DocLine::commit(b as int)),
{
}

/// Places in one commit are ordered as their lines are, and the commit itself comes before its
/// lines.
pub proof fn law_lines_are_ordered(index: CommitIndex, a: LineOfs, b: LineOfs)
    ensures
        (DocLine { commit_index: index, line_offset: Some(a) }).before(
            DocLine { commit_index: index, line_offset: Some(b) },
        ) <==> a.0 < b.0,
        (DocLine { commit_index: index, line_offset: None }).before(
            DocLine { commit_index: index, line_offset: Some(a) },
        ),
{
}

/// The place of a commit is in that commit, at no line of it.
pub proof fn law_place_of_commit(index: usize, place: DocLine)
    ensures
        DocLine::commit(index as int).commit_index.0 == index,
        DocLine::commit(index as int).line_offset is None,
        place.index() == place.commit_index.0,
{
}

} // verus!
