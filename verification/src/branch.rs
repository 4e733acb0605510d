//! Branches and tags that point at commits.

use vstd::prelude::*;

use crate::commit_id::CommitId;
use crate::commit_map::{values_for, CommitMap};

verus! {

/// The branch of a remote that a local branch follows.
#[derive(Clone, Debug)]
pub struct UpstreamBranch {
    /// Full reference of the followed branch.
    pub reference: String,
}

/// What is known of a local branch only.
#[derive(Clone, Debug)]
pub struct LocalBranch {
    /// The branch that it follows.
    pub upstream: Option<UpstreamBranch>,
}

/// What is known of a remote branch only.
#[derive(Clone, Debug)]
pub struct RemoteBranch {
    /// Whether a local branch follows it.
    pub has_tracking: bool,
}

/// Which kind of branch it is.
#[derive(Clone, Debug)]
pub enum BranchDetails {
    /// A branch of this repository.
    Local(LocalBranch),
    /// A branch of a remote.
    Remote(RemoteBranch),
}

/// A branch.
#[derive(Clone, Debug)]
pub struct BranchInfo {
    /// Short name.
    pub name: String,
    /// Full reference.
    pub reference: String,
    /// The commit that the branch points at.
    pub top_commit: CommitId,
    /// Which kind of branch it is.
    pub details: BranchDetails,
}

/// A tag.
#[derive(Clone, Debug)]
pub struct Tag {
    /// Name of the tag.
    pub name: String,
}

/// The tags of each tagged commit.
pub type Tags = CommitMap<Tag>;

/// Whether some branch of `branches` points at `id`.
pub open spec fn any_at(branches: Seq<BranchInfo>, id: CommitId) -> bool {
    exists|i: int| 0 <= i < branches.len() && (#[trigger] branches[i]).top_commit == id
}

/// The branches of `branches` that point at `id`, in order.
pub open spec fn branches_at(branches: Seq<BranchInfo>, id: CommitId) -> Seq<BranchInfo> {
    branches.filter(|branch: BranchInfo| branch.top_commit == id)
}

/// The branches of each commit that a branch points at.
pub open spec fn branches_by_commit(branches: Seq<BranchInfo>) -> Map<CommitId, Seq<BranchInfo>> {
    Map::new(|id: CommitId| any_at(branches, id), |id: CommitId| branches_at(branches, id))
}

/// A commit that no branch points at has no branches.
proof fn lemma_none_at(branches: Seq<BranchInfo>, id: CommitId)
    requires
        !any_at(branches, id),
    ensures
        branches_at(branches, id) == Seq::<BranchInfo>::empty(),
    decreases branches.len(),
{
    reveal(Seq::filter);
    if branches.len() > 0 {
        let rest = branches.drop_last();
        assert(!any_at(rest, id)) by {
            if any_at(rest, id) {
                let i = choose|i: int| 0 <= i < rest.len() && (#[trigger] rest[i]).top_commit == id;
                assert(branches[i].top_commit == id);
            }
        }
        assert(branches.last() == branches[branches.len() - 1]);
        lemma_none_at(rest, id);
    }
}

/// One branch more adds to the list of its own commit only.
proof fn lemma_one_more(branches: Seq<BranchInfo>, branch: BranchInfo)
    ensures
        branches_by_commit(branches.push(branch)) == branches_by_commit(branches).insert(
            branch.top_commit,
            values_for(branches_by_commit(branches), branch.top_commit).push(branch),
        ),
{
    reveal(Seq::filter);
    let after = branches.push(branch);
    let before_map = branches_by_commit(branches);
    let after_map = branches_by_commit(after);
    let expected = before_map.insert(
        branch.top_commit,
        values_for(before_map, branch.top_commit).push(branch),
    );
    assert(after.drop_last() =~= branches);
    assert forall|id: CommitId| #[trigger]
        after_map.dom().contains(id) == expected.dom().contains(id) && (after_map.dom().contains(id)
            ==> after_map[id] == expected[id]) by {
        if any_at(branches, id) {
            let i = choose|i: int|
                0 <= i < branches.len() && (#[trigger] branches[i]).top_commit == id;
            assert(after[i].top_commit == id);
        } else {
            lemma_none_at(branches, id);
        }
        if any_at(after, id) && id != branch.top_commit {
            let i = choose|i: int| 0 <= i < after.len() && (#[trigger] after[i]).top_commit == id;
            assert(branches[i].top_commit == id);
        }
        assert(after[branches.len() as int] == branch);
    }
    assert(after_map =~= expected);
}

/// Sorts branches by the commit that they point at.
pub fn group_branches(branches: Vec<BranchInfo>) -> (r: CommitMap<BranchInfo>)
    ensures
        r@ == branches_by_commit(branches@),
{
    let mut out: CommitMap<BranchInfo> = CommitMap::new();
    assert(out@ =~= branches_by_commit(branches@.take(0)));
    for branch in walk: branches
        invariant
            walk.seq() == branches@,
            out@ == branches_by_commit(branches@.take(walk.index())),
    {
        proof {
            lemma_one_more(branches@.take(walk.index()), branch);
            assert(branches@.take(walk.index() + 1) =~= branches@.take(walk.index()).push(branch));
        }
        out.push(branch.top_commit, branch);
    }
    assert(branches@.take(branches@.len() as int) =~= branches@);
    out
}

/// Every branch is listed at the commit that it points at and nowhere else, in order. A commit that
/// no branch points at has no list.
pub proof fn law_branches_at_their_commits(branches: Seq<BranchInfo>, id: CommitId)
    ensures
        branches_by_commit(branches).dom().contains(id) <==> exists|i: int|
            0 <= i < branches.len() && (#[trigger] branches[i]).top_commit == id,
        branches_by_commit(branches).dom().contains(id) ==> branches_by_commit(branches)[id]
            == branches.filter(|branch: BranchInfo| branch.top_commit == id),
{
}

} // verus!
