//! Walking the commits of a repository in batches.
//!
//! The walkers decide what to do next. Whoever drives them goes to the repository for the next
//! commit, or to the filter for its verdict, and hands in what came back.

use vstd::prelude::*;

use crate::commit_id::{law_ids_are_ordered, CommitId};
use crate::commit_set::lemma_push_contains;

verus! {

/// Size of the object cache for a walk, in bytes.
pub const OBJECT_CACHE_SIZE: usize = 16384;

/// What a walker wants next.
#[derive(Clone, Copy, Debug, PartialEq, Eq, Structural)]
pub enum WalkStep {
    /// The next commit of the walk.
    Next,
    /// The verdict of the filter on a commit.
    AskFilter(CommitId),
    /// Nothing: the batch is full. It visited that many commits.
    Done(usize),
}

/// What a filter said of a commit.
#[derive(Clone, Copy, Debug, PartialEq, Eq, Structural)]
pub enum Verdict {
    /// It passes.
    Pass,
    /// It does not pass.
    Reject,
    /// The filter failed.
    Failed,
}

/// What a walk came to.
#[derive(Clone, Copy, Debug, PartialEq, Eq, Structural)]
pub enum Walked {
    /// A commit, and what the filter says of it where one is asked.
    Commit(CommitId, Verdict),
    /// The walk failed.
    Failed,
}

/// The walk, or the filter, failed.
#[derive(Clone, Copy, Debug, PartialEq, Eq, Structural)]
pub struct WalkError;

/// Whether a batch gets past `item`.
pub open spec fn passable(item: Walked, filtered: bool) -> bool {
    match item {
        Walked::Commit(_, verdict) => filtered ==> verdict !is Failed,
        Walked::Failed => false,
    }
}

/// Whether `item` is the commit `id`.
pub open spec fn is_commit(item: Walked, id: CommitId) -> bool {
    item matches Walked::Commit(found, _) && found == id
}

/// Number of commits before the first failure.
pub open spec fn sound_len(walk: Seq<Walked>, filtered: bool) -> nat
    decreases walk.len(),
{
    if walk.len() == 0 {
        0
    } else {
        let before = sound_len(walk.drop_last(), filtered);
        if before == walk.len() - 1 && passable(walk.last(), filtered) {
            walk.len()
        } else {
            before
        }
    }
}

/// Number of commits that a batch visits: those before the first failure, but no more than the
/// limit. A limit of zero does not limit.
pub open spec fn batch_len(sound: nat, limit: int) -> int {
    if 0 < limit <= sound {
        limit
    } else {
        sound as int
    }
}

/// The commits of `walk` that pass the filter, in order.
pub open spec fn picked(walk: Seq<Walked>, filtered: bool) -> Seq<CommitId>
    decreases walk.len(),
{
    if walk.len() == 0 {
        Seq::empty()
    } else {
        let before = picked(walk.drop_last(), filtered);
        match walk.last() {
            Walked::Commit(id, verdict) => if !filtered || verdict is Pass {
                before.push(id)
            } else {
                before
            },
            Walked::Failed => before,
        }
    }
}

/// Whether ids are in ascending order, none of them twice.
pub open spec fn ascending(ids: Seq<CommitId>) -> bool {
    forall|i: int, j: int|
        #![trigger ids[i], ids[j]]
        0 <= i < j < ids.len() ==> ids[i].before(ids[j])
}

/// Visits commits in topological order, and date order where possible.
/// If there is a filter, only commits that pass it are returned.
#[derive(Clone, Copy, Debug, PartialEq, Eq, Structural)]
pub struct LogWalker {
    /// Number of commits that have been visited.
    pub visited_count: usize,
    /// Greatest number of commits visited in one batch, zero for no limit.
    pub limit: usize,
    /// Whether there is a filter.
    pub filtered: bool,
    /// Number of commits that the current batch has visited.
    pub count: usize,
}

impl LogWalker {
    /// The walker with one more commit visited.
    pub open spec fn counted(self) -> LogWalker {
        LogWalker {
            visited_count: (self.visited_count + 1) as usize,
            count: (self.count + 1) as usize,
            ..self
        }
    }

    /// What the walker wants once it has visited a commit.
    pub open spec fn after_visit(self) -> WalkStep {
        if self.count == self.limit {
            WalkStep::Done(self.count)
        } else {
            WalkStep::Next
        }
    }

    /// What becomes of the walker that comes to a commit, and what it wants.
    pub open spec fn on_found(self, id: CommitId) -> (LogWalker, WalkStep) {
        if self.filtered {
            (self, WalkStep::AskFilter(id))
        } else {
            (self.counted(), self.counted().after_visit())
        }
    }

    /// What becomes of the walker that has the verdict on a commit, and what it wants.
    pub open spec fn on_decided(self) -> (LogWalker, WalkStep) {
        (self.counted(), self.counted().after_visit())
    }

    /// The commits about which the walker asks the filter, in order, until its batch is full or
    /// the walk ends or fails.
    pub open spec fn questions(self, walk: Seq<Walked>) -> Seq<CommitId>
        decreases walk.len(),
    {
        if walk.len() == 0 {
            Seq::empty()
        } else {
            match walk[0] {
                Walked::Failed => Seq::empty(),
                Walked::Commit(id, verdict) => {
                    let (asking, step) = self.on_found(id);
                    match step {
                        WalkStep::Done(_) => Seq::empty(),
                        WalkStep::Next => asking.questions(walk.skip(1)),
                        WalkStep::AskFilter(asked) => {
                            let (decided, step) = asking.on_decided();
                            seq![asked] + if verdict is Failed || step is Done {
                                Seq::empty()
                            } else {
                                decided.questions(walk.skip(1))
                            }
                        },
                    }
                },
            }
        }
    }

    /// A walker that visits at most `limit` commits in one batch.
    pub fn new(limit: usize) -> (r: LogWalker)
        ensures
            r.visited_count == 0,
            r.limit == limit,
            !r.filtered,
            r.count == 0,
    {
        LogWalker { visited_count: 0, limit, filtered: false, count: 0 }
    }

    /// Number of visited commits.
    pub fn visited(&self) -> (r: usize)
        ensures
            r == self.visited_count,
    {
        self.visited_count
    }

    /// The walker with a filter, or without one.
    #[must_use]
    pub fn filter(self, filtered: bool) -> (r: LogWalker)
        ensures
            r == (LogWalker { filtered, ..self }),
    {
        LogWalker { filtered, ..self }
    }

    /// Begins a batch.
    pub fn begin(&mut self) -> (r: WalkStep)
        ensures
            *final(self) == (LogWalker { count: 0, ..*old(self) }),
            r is Next,
    {
        self.count = 0;
        WalkStep::Next
    }

    /// Takes in the next commit of the walk.
    pub fn found(&mut self, id: CommitId, out: &mut Vec<CommitId>) -> (r: WalkStep)
        requires
            !old(self).filtered ==> old(self).visited_count < usize::MAX,
            old(self).count <= old(self).visited_count,
        ensures
            (*final(self), r) == old(self).on_found(id),
            final(out)@ == (if old(self).filtered {
                old(out)@
            } else {
                old(out)@.push(id)
            }),
    {
        if self.filtered {
            WalkStep::AskFilter(id)
        } else {
            self.decided(id, true, out)
        }
    }

    /// Takes in the verdict of the filter on a commit.
    pub fn decided(
        &mut self,
        id: CommitId,
        commit_should_be_included: bool,
        out: &mut Vec<CommitId>,
    ) -> (r: WalkStep)
        requires
            old(self).visited_count < usize::MAX,
            old(self).count <= old(self).visited_count,
        ensures
            (*final(self), r) == old(self).on_decided(),
            final(out)@ == (if commit_should_be_included {
                old(out)@.push(id)
            } else {
                old(out)@
            }),
    {
        if commit_should_be_included {
            out.push(id);
        }
        self.visited_count = self.visited_count + 1;
        self.count = self.count + 1;
        if self.count == self.limit {
            WalkStep::Done(self.count)
        } else {
            WalkStep::Next
        }
    }

    /// Takes in that the walk has ended. Returns the number of commits that the batch visited.
    pub fn ended(&self) -> (r: usize)
        ensures
            r == self.count,
    {
        self.count
    }

    /// Reads a batch of commits from what is left of a walk. Returns the number of commits that
    /// it visited.
    pub fn read(&mut self, walk: &Vec<Walked>, out: &mut Vec<CommitId>) -> (r: Result<
        usize,
        WalkError,
    >)
        requires
            old(self).visited_count + batch_len(
                sound_len(walk@, old(self).filtered),
                old(self).limit as int,
            ) <= usize::MAX,
        ensures
            ({
                let sound = sound_len(walk@, old(self).filtered);
                let visited = batch_len(sound, old(self).limit as int);
                &&& final(out)@ == old(out)@ + picked(walk@.take(visited), old(self).filtered)
                &&& final(self).visited_count == old(self).visited_count + visited
                &&& final(self).limit == old(self).limit
                &&& final(self).filtered == old(self).filtered
                &&& if sound < walk@.len() && (old(self).limit == 0 || visited < old(self).limit) {
                    r is Err
                } else {
                    r == Ok::<usize, WalkError>(visited as usize)
                }
            }),
    {
        let ghost filtered = self.filtered;
        let ghost before = out@;
        self.begin();
        let mut i: usize = 0;
        assert(out@ =~= before + picked(walk@.take(0), filtered));
        while i < walk.len()
            invariant
                i <= walk@.len(),
                filtered == self.filtered,
                filtered == old(self).filtered,
                self.limit == old(self).limit,
                self.count == i,
                self.visited_count == old(self).visited_count + i,
                old(self).visited_count + batch_len(
                    sound_len(walk@, filtered),
                    self.limit as int,
                ) <= usize::MAX,
                sound_len(walk@.take(i as int), filtered) == i,
                self.limit == 0 || i < self.limit,
                before == old(out)@,
                out@ == before + picked(walk@.take(i as int), filtered),
            decreases walk@.len() - i,
        {
            proof {
                assert(walk@.take(i + 1).drop_last() =~= walk@.take(i as int));
                assert(walk@.take(i + 1).last() == walk@[i as int]);
                if passable(walk@[i as int], filtered) {
                    lemma_sound_grows(walk@, filtered, i + 1);
                }
            }
            let step = match walk[i] {
                Walked::Commit(id, verdict) => match self.found(id, out) {
                    WalkStep::AskFilter(asked) => match verdict {
                        Verdict::Pass => self.decided(asked, true, out),
                        Verdict::Reject => self.decided(asked, false, out),
                        Verdict::Failed => {
                            proof {
                                lemma_sound_stops(walk@, filtered, i as int);
                            }
                            return Err(WalkError);
                        },
                    },
                    step => step,
                },
                Walked::Failed => {
                    proof {
                        lemma_sound_stops(walk@, filtered, i as int);
                    }
                    return Err(WalkError);
                },
            };
            i = i + 1;
            assert(out@ =~= before + picked(walk@.take(i as int), filtered));
            if let WalkStep::Done(count) = step {
                proof {
                    lemma_sound_grows(walk@, filtered, i as int);
                }
                return Ok(count);
            }
        }
        assert(walk@.take(i as int) =~= walk@);
        Ok(self.ended())
    }
}

/// A failure ends the sound part of a walk.
proof fn lemma_sound_stops(walk: Seq<Walked>, filtered: bool, at: int)
    requires
        0 <= at < walk.len(),
        sound_len(walk.take(at), filtered) == at,
        !passable(walk[at], filtered),
    ensures
        sound_len(walk, filtered) == at,
    decreases walk.len(),
{
    let rest = walk.drop_last();
    if at == walk.len() - 1 {
        assert(rest =~= walk.take(at));
    } else {
        assert(rest.take(at) =~= walk.take(at));
        lemma_sound_stops(rest, filtered, at);
    }
}

/// A walk is sound at least as far as a part of it that is all sound.
proof fn lemma_sound_grows(walk: Seq<Walked>, filtered: bool, at: int)
    requires
        0 <= at <= walk.len(),
        sound_len(walk.take(at), filtered) == at,
    ensures
        at <= sound_len(walk, filtered) <= walk.len(),
    decreases walk.len(),
{
    if at == walk.len() {
        assert(walk.take(at) =~= walk);
    } else {
        let rest = walk.drop_last();
        assert(rest.take(at) =~= walk.take(at));
        lemma_sound_grows(rest, filtered, at);
    }
}

/// Reading a walk in two batches gives the commits that reading it at once gives.
pub proof fn law_batches_add_up(walk: Seq<Walked>, filtered: bool, at: int)
    requires
        0 <= at <= walk.len(),
    ensures
        picked(walk.take(at), filtered) + picked(walk.skip(at), filtered) == picked(walk, filtered),
    decreases walk.len(),
{
    if at == walk.len() {
        assert(walk.take(at) =~= walk);
        assert(walk.skip(at).len() == 0);
        assert(picked(walk, filtered) + Seq::<CommitId>::empty() =~= picked(walk, filtered));
    } else {
        let rest = walk.drop_last();
        law_batches_add_up(rest, filtered, at);
        assert(rest.take(at) =~= walk.take(at));
        assert(walk.skip(at).drop_last() =~= rest.skip(at));
        assert(walk.skip(at).last() == walk.last());
        assert(picked(walk.take(at), filtered) + picked(walk.skip(at), filtered) =~= picked(
            walk,
            filtered,
        ));
    }
}

/// A batch returns no more commits than it visits, and without a filter exactly as many.
pub proof fn law_filter_only_drops(walk: Seq<Walked>, filtered: bool)
    requires
        sound_len(walk, filtered) == walk.len(),
    ensures
        picked(walk, filtered).len() <= walk.len(),
        !filtered ==> picked(walk, filtered).len() == walk.len(),
        !filtered ==> forall|i: int|
            0 <= i < walk.len() ==> is_commit(walk[i], #[trigger] picked(walk, filtered)[i]),
    decreases walk.len(),
{
    if walk.len() > 0 {
        let rest = walk.drop_last();
        lemma_sound_grows(rest, filtered, 0);
        law_filter_only_drops(rest, filtered);
        assert forall|i: int| !filtered && 0 <= i < walk.len() implies is_commit(
            walk[i],
            #[trigger] picked(walk, filtered)[i],
        ) by {
            if i < rest.len() {
                assert(picked(rest, filtered)[i] == picked(walk, filtered)[i]);
                assert(rest[i] == walk[i]);
            }
        }
    }
}

/// Whether `item` is the commit `id`, and passes.
pub open spec fn passes(item: Walked, filtered: bool, id: CommitId) -> bool {
    item matches Walked::Commit(found, verdict) && found == id && (!filtered || verdict is Pass)
}

/// Only commits that pass the filter are returned, and all of them are.
pub proof fn law_only_passing_commits(walk: Seq<Walked>, filtered: bool, id: CommitId)
    ensures
        picked(walk, filtered).contains(id) <==> exists|i: int|
            0 <= i < walk.len() && passes(#[trigger] walk[i], filtered, id),
    decreases walk.len(),
{
    if walk.len() > 0 {
        let rest = walk.drop_last();
        let last = walk.last();
        law_only_passing_commits(rest, filtered, id);
        if let Walked::Commit(found, _) = last {
            lemma_push_contains(picked(rest, filtered), found, id);
        }
        if exists|i: int| 0 <= i < rest.len() && passes(#[trigger] rest[i], filtered, id) {
            let i = choose|i: int| 0 <= i < rest.len() && passes(#[trigger] rest[i], filtered, id);
            assert(passes(walk[i], filtered, id));
        }
        if exists|i: int| 0 <= i < walk.len() && passes(#[trigger] walk[i], filtered, id) {
            let i = choose|i: int| 0 <= i < walk.len() && passes(#[trigger] walk[i], filtered, id);
            if i < rest.len() {
                assert(passes(rest[i], filtered, id));
            }
        }
        assert(last == walk[walk.len() - 1]);
    }
}

/// A batch visits no more commits than its limit says, and no more than there are.
pub proof fn law_batch_within_limit(walk: Seq<Walked>, filtered: bool, limit: int)
    requires
        0 <= limit,
    ensures
        limit > 0 ==> batch_len(sound_len(walk, filtered), limit) <= limit,
        batch_len(sound_len(walk, filtered), limit) <= walk.len(),
{
    lemma_sound_grows(walk, filtered, 0);
}

/// The walk over `ids` with a filter that passes those for which `pass` holds, and never fails.
pub open spec fn judged(ids: Seq<CommitId>, pass: spec_fn(CommitId) -> bool) -> Seq<Walked> {
    ids.map_values(
        |id: CommitId|
            Walked::Commit(
                id,
                if pass(id) {
                    Verdict::Pass
                } else {
                    Verdict::Reject
                },
            ),
    )
}

/// A batch of a walk that does not fail visits as many commits as there are, but no more than its
/// limit, and returns those of them that pass the filter, in order; without a filter it returns all
/// of them.
pub proof fn law_batch_of_sound_walk(
    ids: Seq<CommitId>,
    pass: spec_fn(CommitId) -> bool,
    filtered: bool,
    limit: int,
)
    requires
        0 <= limit,
    ensures
        ({
            let walk = judged(ids, pass);
            let visited = if limit == 0 || ids.len() < limit {
                ids.len() as int
            } else {
                limit
            };
            &&& sound_len(walk, filtered) == walk.len()
            &&& batch_len(sound_len(walk, filtered), limit) == visited
            &&& picked(walk.take(visited), filtered) == if filtered {
                ids.take(visited).filter(pass)
            } else {
                ids.take(visited)
            }
        }),
{
    let visited = batch_len(ids.len(), limit);
    assert(judged(ids, pass).take(visited) =~= judged(ids.take(visited), pass));
    lemma_judged(ids, pass, filtered);
    lemma_judged(ids.take(visited), pass, filtered);
}

proof fn lemma_judged(ids: Seq<CommitId>, pass: spec_fn(CommitId) -> bool, filtered: bool)
    ensures
        sound_len(judged(ids, pass), filtered) == ids.len(),
        picked(judged(ids, pass), filtered) == if filtered {
            ids.filter(pass)
        } else {
            ids
        },
    decreases ids.len(),
{
    reveal(Seq::filter);
    if ids.len() > 0 {
        let rest = ids.drop_last();
        lemma_judged(rest, pass, filtered);
        assert(judged(ids, pass).drop_last() =~= judged(rest, pass));
        assert(ids =~= rest.push(ids.last()));
    }
}

/// A batch asks the filter about every commit that it visits, once and in order, and about no
/// other. Without a filter it asks about none.
pub proof fn law_filter_is_asked_once(
    walker: LogWalker,
    ids: Seq<CommitId>,
    pass: spec_fn(CommitId) -> bool,
)
    requires
        walker.count == 0,
        ids.len() <= usize::MAX,
    ensures
        walker.questions(judged(ids, pass)) == if walker.filtered {
            ids.take(batch_len(ids.len(), walker.limit as int))
        } else {
            Seq::empty()
        },
{
    lemma_questions(walker, ids, pass);
}

proof fn lemma_questions(walker: LogWalker, ids: Seq<CommitId>, pass: spec_fn(CommitId) -> bool)
    requires
        walker.limit == 0 || walker.count < walker.limit,
        walker.count + ids.len() <= usize::MAX,
    ensures
        walker.questions(judged(ids, pass)) == if !walker.filtered {
            Seq::empty()
        } else if walker.limit == 0 || ids.len() < walker.limit - walker.count {
            ids
        } else {
            ids.take(walker.limit - walker.count)
        },
    decreases ids.len(),
{
    let walk = judged(ids, pass);
    if ids.len() > 0 {
        let rest = ids.skip(1);
        let next = walker.counted();
        assert(walk.skip(1) =~= judged(rest, pass));
        assert(walk[0] is Commit);
        if next.count != next.limit {
            lemma_questions(next, rest, pass);
        }
        if walker.filtered {
            let asked = walker.questions(walk);
            if next.count == next.limit {
                assert(asked =~= seq![ids[0]]);
                assert(ids.take(1) =~= seq![ids[0]]);
            } else {
                assert(asked =~= seq![ids[0]] + next.questions(judged(rest, pass)));
                if walker.limit == 0 || ids.len() < walker.limit - walker.count {
                    assert(seq![ids[0]] + rest =~= ids);
                } else {
                    let left = walker.limit - walker.count;
                    assert(seq![ids[0]] + rest.take(left - 1) =~= ids.take(left));
                }
            }
        }
    }
}

/// What reading a walk gives, batch after batch until one visits nothing.
pub open spec fn read_all(walk: Seq<Walked>, filtered: bool, limit: int) -> Seq<CommitId>
    decreases walk.len(),
{
    let visited = batch_len(sound_len(walk, filtered), limit);
    if visited <= 0 || walk.len() < visited {
        Seq::empty()
    } else {
        picked(walk.take(visited), filtered) + read_all(walk.skip(visited), filtered, limit)
    }
}

/// Reading until nothing is left gives the commits of the walk, whatever the limit of a batch.
pub proof fn law_limit_does_not_matter(walk: Seq<Walked>, filtered: bool, limit: int)
    requires
        0 <= limit,
        sound_len(walk, filtered) == walk.len(),
    ensures
        read_all(walk, filtered, limit) == picked(walk, filtered),
    decreases walk.len(),
{
    let visited = batch_len(walk.len(), limit);
    if walk.len() > 0 {
        let rest = walk.skip(visited);
        lemma_sound_rest(walk, filtered, visited);
        law_limit_does_not_matter(rest, filtered, limit);
        law_batches_add_up(walk, filtered, visited);
    }
}

/// Without a filter, reading until nothing is left gives all commits of the walk in its order,
/// whatever the limit of a batch.
pub proof fn law_walk_order_is_kept(walk: Seq<Walked>, limit: int)
    requires
        0 <= limit,
        sound_len(walk, false) == walk.len(),
    ensures
        read_all(walk, false, limit).len() == walk.len(),
        forall|i: int|
            0 <= i < walk.len() ==> is_commit(walk[i], #[trigger] read_all(walk, false, limit)[i]),
{
    law_limit_does_not_matter(walk, false, limit);
    law_filter_only_drops(walk, false);
}

/// What is left of a sound walk is sound.
proof fn lemma_sound_rest(walk: Seq<Walked>, filtered: bool, at: int)
    requires
        0 <= at <= walk.len(),
        sound_len(walk, filtered) == walk.len(),
    ensures
        sound_len(walk.skip(at), filtered) == walk.len() - at,
    decreases walk.len(),
{
    let rest = walk.skip(at);
    if at < walk.len() {
        lemma_sound_grows(walk.drop_last(), filtered, 0);
        lemma_sound_rest(walk.drop_last(), filtered, at);
        assert(rest.drop_last() =~= walk.drop_last().skip(at));
        assert(rest.last() == walk.last());
    }
}

/// Whether the commits of a walk keep to an order: of two of them, the later is never one that has
/// to come before the other, or the same.
pub open spec fn walk_keeps(
    walk: Seq<Walked>,
    precedes: spec_fn(CommitId, CommitId) -> bool,
) -> bool {
    forall|i: int, j: int|
        #![trigger walk[i], walk[j]]
        0 <= i < j < walk.len() ==> match (walk[i], walk[j]) {
            (Walked::Commit(a, _), Walked::Commit(b, _)) => a != b && !precedes(b, a),
            _ => true,
        }
}

/// Whether ids keep to an order, none of them twice.
pub open spec fn ids_keep(
    ids: Seq<CommitId>,
    precedes: spec_fn(CommitId, CommitId) -> bool,
) -> bool {
    forall|i: int, j: int|
        #![trigger ids[i], ids[j]]
        0 <= i < j < ids.len() ==> ids[i] != ids[j] && !precedes(ids[j], ids[i])
}

/// What is returned keeps to every order that the walk keeps to, and has no commit twice where the
/// walk has none. With `precedes(a, b)` for `b` being a parent of `a`, no commit is returned behind
/// one of its parents.
pub proof fn law_order_is_kept(
    walk: Seq<Walked>,
    filtered: bool,
    limit: int,
    precedes: spec_fn(CommitId, CommitId) -> bool,
)
    requires
        0 <= limit,
        sound_len(walk, filtered) == walk.len(),
        walk_keeps(walk, precedes),
    ensures
        ids_keep(read_all(walk, filtered, limit), precedes),
        read_all(walk, filtered, limit).no_duplicates(),
{
    law_limit_does_not_matter(walk, filtered, limit);
    lemma_picked_keeps(walk, filtered, precedes);
    let ids = picked(walk, filtered);
    assert forall|i: int, j: int|
        0 <= i < ids.len() && 0 <= j < ids.len() && i != j implies ids[i] != ids[j] by {
        if i < j {
            assert(ids[i] != ids[j]);
        } else {
            assert(ids[j] != ids[i]);
        }
    }
}

proof fn lemma_picked_keeps(
    walk: Seq<Walked>,
    filtered: bool,
    precedes: spec_fn(CommitId, CommitId) -> bool,
)
    requires
        walk_keeps(walk, precedes),
    ensures
        ids_keep(picked(walk, filtered), precedes),
    decreases walk.len(),
{
    if walk.len() > 0 {
        let rest = walk.drop_last();
        assert forall|i: int, j: int|
            #![trigger rest[i], rest[j]]
            0 <= i < j < rest.len() implies match (rest[i], rest[j]) {
            (Walked::Commit(a, _), Walked::Commit(b, _)) => a != b && !precedes(b, a),
            _ => true,
        } by {
            assert(rest[i] == walk[i] && rest[j] == walk[j]);
        }
        lemma_picked_keeps(rest, filtered, precedes);
        let before = picked(rest, filtered);
        let ids = picked(walk, filtered);
        assert forall|i: int, j: int|
            #![trigger ids[i], ids[j]]
            0 <= i < j < ids.len() implies ids[i] != ids[j] && !precedes(ids[j], ids[i]) by {
            if j < before.len() {
                assert(ids[i] == before[i] && ids[j] == before[j]);
            } else {
                assert(ids[i] == before[i]);
                law_only_passing_commits(rest, filtered, ids[i]);
                assert(before.contains(ids[i]));
                let k = choose|k: int|
                    0 <= k < rest.len() && passes(#[trigger] rest[k], filtered, ids[i]);
                assert(walk[k] == rest[k]);
                assert(walk[walk.len() - 1] == walk.last());
            }
        }
    }
}

/// The ids of `found`, in order, up to the first failure.
pub open spec fn sound_ids(found: Seq<Option<CommitId>>) -> Seq<CommitId>
    decreases found.len(),
{
    if found.len() == 0 {
        Seq::empty()
    } else {
        let before = sound_ids(found.drop_last());
        match found.last() {
            Some(id) => if before.len() == found.len() - 1 {
                before.push(id)
            } else {
                before
            },
            None => before,
        }
    }
}

/// Whether a batch fails: the walk fails before the batch is full.
pub open spec fn fails(walk: Seq<Option<CommitId>>, limit: int) -> bool {
    let sound = sound_ids(walk).len();
    sound < walk.len() && (limit == 0 || batch_len(sound, limit) < limit)
}

/// Whether `id` is the tip of a branch, or the head.
pub open spec fn is_tip(
    branches: Seq<Option<CommitId>>,
    head: Option<CommitId>,
    id: CommitId,
) -> bool {
    branches.contains(Some(id)) || head == Some(id)
}

/// Puts `id` at its place among ids in ascending order, unless it is there.
fn insert_tip(tips: &mut Vec<CommitId>, id: CommitId)
    requires
        ascending(old(tips)@),
    ensures
        ascending(final(tips)@),
        forall|other: CommitId| #[trigger]
            final(tips)@.contains(other) <==> old(tips)@.contains(other) || other == id,
{
    let ghost before = tips@;
    let mut at: usize = 0;
    while at < tips.len() && tips[at].is_before(&id)
        invariant
            at <= tips@.len(),
            forall|i: int| 0 <= i < at ==> (#[trigger] tips@[i]).before(id),
        decreases tips@.len() - at,
    {
        at = at + 1;
    }
    if at < tips.len() && tips[at] == id {
        assert(tips@.contains(id));
        return;
    }
    tips.insert(at, id);
    proof {
        let after = tips@;
        assert forall|i: int| at <= i < before.len() implies id.before(#[trigger] before[i]) by {
            if i > at {
                assert(before[at as int].before(before[i]));
            }
        }
        assert forall|i: int, j: int|
            #![trigger after[i], after[j]]
            0 <= i < j < after.len() implies after[i].before(after[j]) by {
            let (k, l) = (if i < at { i } else { i - 1 }, if j < at { j } else { j - 1 });
            if i != at {
                assert(after[i] == before[k]);
            }
            if j != at {
                assert(after[j] == before[l]);
            }
        }
        assert forall|other: CommitId| #[trigger]
            after.contains(other) <==> before.contains(other) || other == id by {
            if before.contains(other) {
                let k = choose|k: int| 0 <= k < before.len() && before[k] == other;
                let i = if k < at { k } else { k + 1 };
                assert(after[i] == other);
            }
            if after.contains(other) && other != id {
                let i = choose|i: int| 0 <= i < after.len() && after[i] == other;
                let k = if i < at { i } else { i - 1 };
                assert(before[k] == other);
            }
            assert(after[at as int] == id);
        }
    }
}

/// Visits all commits in batches, the children of a commit before it. It has no filter.
#[derive(Clone, Copy, Debug, PartialEq, Eq, Structural)]
pub struct LogWalkerWithoutFilter {
    /// Greatest number of commits visited in one batch, zero for no limit.
    pub limit: usize,
    /// Number of commits that full batches have visited.
    pub visited: usize,
    /// Number of commits that the current batch has visited.
    pub count: usize,
}

impl LogWalkerWithoutFilter {
    /// A walker, and the commits from which to walk: the tips of the local branches and the head,
    /// each once and in ascending order. Nothing stands for a branch, or a head, without a commit.
    pub fn new(
        branches: &Vec<Option<CommitId>>,
        head: Option<CommitId>,
        limit: usize,
    ) -> (r: (LogWalkerWithoutFilter, Vec<CommitId>))
        ensures
            r.0.limit == limit,
            r.0.visited == 0,
            r.0.count == 0,
            ascending(r.1@),
            forall|id: CommitId| #[trigger] r.1@.contains(id) <==> is_tip(branches@, head, id),
    {
        let mut tips: Vec<CommitId> = Vec::new();
        let mut i: usize = 0;
        while i < branches.len()
            invariant
                i <= branches@.len(),
                ascending(tips@),
                forall|id: CommitId| #[trigger]
                    tips@.contains(id) <==> branches@.take(i as int).contains(Some(id)),
            decreases branches@.len() - i,
        {
            let ghost so_far = branches@.take(i as int);
            proof {
                assert(branches@.take(i + 1) =~= so_far.push(branches@[i as int]));
                assert forall|id: CommitId| #[trigger]
                    branches@.take(i + 1).contains(Some(id)) <==> so_far.contains(Some(id))
                        || branches@[i as int] == Some(id) by {
                    lemma_push_contains(so_far, branches@[i as int], Some(id));
                }
            }
            if let Some(id) = branches[i] {
                insert_tip(&mut tips, id);
            }
            i = i + 1;
        }
        assert(branches@.take(i as int) =~= branches@);
        if let Some(id) = head {
            insert_tip(&mut tips, id);
        }
        (LogWalkerWithoutFilter { limit, visited: 0, count: 0 }, tips)
    }

    /// Number of visited commits.
    pub fn visited(&self) -> (r: usize)
        ensures
            r == self.visited,
    {
        self.visited
    }

    /// Begins a batch.
    pub fn begin(&mut self) -> (r: WalkStep)
        ensures
            *final(self) == (LogWalkerWithoutFilter { count: 0, ..*old(self) }),
            r is Next,
    {
        self.count = 0;
        WalkStep::Next
    }

    /// Takes in the next commit of the walk.
    pub fn found(&mut self, id: CommitId, out: &mut Vec<CommitId>) -> (r: WalkStep)
        requires
            old(self).count < usize::MAX,
            old(self).count + 1 == old(self).limit ==> old(self).visited + old(self).limit
                <= usize::MAX,
        ensures
            final(out)@ == old(out)@.push(id),
            final(self).limit == old(self).limit,
            final(self).count == old(self).count + 1,
            if old(self).count + 1 == old(self).limit {
                &&& r == WalkStep::Done(old(self).limit)
                &&& final(self).visited == old(self).visited + old(self).limit
            } else {
                &&& r is Next
                &&& final(self).visited == old(self).visited
            },
    {
        out.push(id);
        self.count = self.count + 1;
        if self.count == self.limit {
            WalkStep::Done(self.ended())
        } else {
            WalkStep::Next
        }
    }

    /// Takes in that the batch has ended. Returns the number of commits that it visited.
    pub fn ended(&mut self) -> (r: usize)
        requires
            old(self).visited + old(self).count <= usize::MAX,
        ensures
            r == old(self).count,
            *final(self) == (LogWalkerWithoutFilter {
                visited: (old(self).visited + old(self).count) as usize,
                ..*old(self)
            }),
    {
        self.visited = self.visited + self.count;
        self.count
    }

    /// Reads a batch of commits from what is left of a walk, in which nothing stands for a
    /// failure. Returns the number of commits that it visited. A batch that fails does not count
    /// as visited, though its commits are returned.
    pub fn read(&mut self, walk: &Vec<Option<CommitId>>, out: &mut Vec<CommitId>) -> (r: Result<
        usize,
        WalkError,
    >)
        requires
            !fails(walk@, old(self).limit as int) ==> old(self).visited + batch_len(
                sound_ids(walk@).len(),
                old(self).limit as int,
            ) <= usize::MAX,
        ensures
            ({
                let sound = sound_ids(walk@);
                let visited = batch_len(sound.len(), old(self).limit as int);
                &&& final(out)@ == old(out)@ + sound.take(visited)
                &&& final(self).limit == old(self).limit
                &&& if fails(walk@, old(self).limit as int) {
                    &&& r is Err
                    &&& final(self).visited == old(self).visited
                } else {
                    &&& r == Ok::<usize, WalkError>(visited as usize)
                    &&& final(self).visited == old(self).visited + visited
                }
            }),
    {
        let ghost before = out@;
        self.begin();
        let mut i: usize = 0;
        assert(out@ =~= before + sound_ids(walk@.take(0)));
        while i < walk.len()
            invariant
                i <= walk@.len(),
                self.limit == old(self).limit,
                self.count == i,
                self.visited == old(self).visited,
                !fails(walk@, self.limit as int) ==> self.visited + batch_len(
                    sound_ids(walk@).len(),
                    self.limit as int,
                ) <= usize::MAX,
                sound_ids(walk@.take(i as int)).len() == i,
                self.limit == 0 || i < self.limit,
                before == old(out)@,
                out@ == before + sound_ids(walk@.take(i as int)),
            decreases walk@.len() - i,
        {
            proof {
                assert(walk@.take(i + 1).drop_last() =~= walk@.take(i as int));
                assert(walk@.take(i + 1).last() == walk@[i as int]);
                if walk@[i as int] is Some {
                    lemma_sound_ids_grow(walk@, i + 1);
                }
            }
            let step = match walk[i] {
                Some(id) => self.found(id, out),
                None => {
                    proof {
                        lemma_sound_ids_stop(walk@, i as int);
                        assert(sound_ids(walk@).take(i as int) =~= sound_ids(walk@));
                    }
                    return Err(WalkError);
                },
            };
            i = i + 1;
            assert(out@ =~= before + sound_ids(walk@.take(i as int)));
            if let WalkStep::Done(count) = step {
                proof {
                    lemma_sound_ids_grow(walk@, i as int);
                }
                return Ok(count);
            }
        }
        proof {
            assert(walk@.take(i as int) =~= walk@);
            assert(sound_ids(walk@).take(i as int) =~= sound_ids(walk@));
        }
        Ok(self.ended())
    }
}

proof fn lemma_sound_ids_stop(walk: Seq<Option<CommitId>>, at: int)
    requires
        0 <= at < walk.len(),
        sound_ids(walk.take(at)).len() == at,
        walk[at] is None,
    ensures
        sound_ids(walk) == sound_ids(walk.take(at)),
    decreases walk.len(),
{
    let rest = walk.drop_last();
    if at == walk.len() - 1 {
        assert(rest =~= walk.take(at));
    } else {
        assert(rest.take(at) =~= walk.take(at));
        lemma_sound_ids_stop(rest, at);
    }
}

proof fn lemma_sound_ids_grow(walk: Seq<Option<CommitId>>, at: int)
    requires
        0 <= at <= walk.len(),
        sound_ids(walk.take(at)).len() == at,
    ensures
        at <= sound_ids(walk).len() <= walk.len(),
        sound_ids(walk).take(at) == sound_ids(walk.take(at)),
    decreases walk.len(),
{
    if at == walk.len() {
        assert(walk.take(at) =~= walk);
        assert(sound_ids(walk).take(at) =~= sound_ids(walk));
    } else {
        let rest = walk.drop_last();
        assert(rest.take(at) =~= walk.take(at));
        lemma_sound_ids_grow(rest, at);
        assert(sound_ids(walk).take(at) =~= sound_ids(rest).take(at));
    }
}

/// What reading a walk without a filter gives, batch after batch until one visits nothing.
pub open spec fn read_all_ids(walk: Seq<Option<CommitId>>, limit: int) -> Seq<CommitId>
    decreases walk.len(),
{
    let visited = batch_len(sound_ids(walk).len(), limit);
    if visited <= 0 || walk.len() < visited {
        Seq::empty()
    } else {
        sound_ids(walk).take(visited) + read_all_ids(walk.skip(visited), limit)
    }
}

/// The ids of a walk that does not fail are its own, in its order.
proof fn lemma_sound_ids(walk: Seq<Option<CommitId>>)
    requires
        sound_ids(walk).len() == walk.len(),
    ensures
        forall|i: int| 0 <= i < walk.len() ==> walk[i] == Some(#[trigger] sound_ids(walk)[i]),
    decreases walk.len(),
{
    if walk.len() > 0 {
        let rest = walk.drop_last();
        lemma_sound_ids_grow(rest, 0);
        lemma_sound_ids(rest);
        assert forall|i: int| 0 <= i < walk.len() implies walk[i] == Some(
            #[trigger] sound_ids(walk)[i],
        ) by {
            if i < rest.len() {
                assert(sound_ids(rest)[i] == sound_ids(walk)[i]);
                assert(rest[i] == walk[i]);
            }
        }
    }
}

/// A walk in which nothing stands for a failure does not fail.
proof fn lemma_all_found(walk: Seq<Option<CommitId>>)
    requires
        forall|i: int| 0 <= i < walk.len() ==> (#[trigger] walk[i]) is Some,
    ensures
        sound_ids(walk).len() == walk.len(),
    decreases walk.len(),
{
    if walk.len() > 0 {
        let rest = walk.drop_last();
        assert forall|i: int| 0 <= i < rest.len() implies (#[trigger] rest[i]) is Some by {
            assert(rest[i] == walk[i]);
        }
        lemma_all_found(rest);
        assert(walk.last() == walk[walk.len() - 1]);
    }
}

/// Reading until nothing is left gives all commits of the walk in its order, whatever the limit of
/// a batch. It keeps to every order that the walk keeps to, and has no commit twice where the walk
/// has none. With `precedes(a, b)` for `b` being a parent of `a`, every commit comes before its
/// parents.
pub proof fn law_unfiltered_reads_add_up(
    walk: Seq<Option<CommitId>>,
    limit: int,
    precedes: spec_fn(CommitId, CommitId) -> bool,
)
    requires
        0 <= limit,
        sound_ids(walk).len() == walk.len(),
    ensures
        read_all_ids(walk, limit) == sound_ids(walk),
        forall|i: int| 0 <= i < walk.len() ==> walk[i] == Some(#[trigger] sound_ids(walk)[i]),
        found_keeps(walk, precedes) ==> ids_keep(read_all_ids(walk, limit), precedes)
            && read_all_ids(walk, limit).no_duplicates(),
{
    lemma_sound_ids(walk);
    lemma_unfiltered_reads(walk, limit);
    let ids = sound_ids(walk);
    if found_keeps(walk, precedes) {
        assert forall|i: int, j: int|
            #![trigger ids[i], ids[j]]
            0 <= i < j < ids.len() implies ids[i] != ids[j] && !precedes(ids[j], ids[i]) by {
            assert(walk[i] == Some(ids[i]) && walk[j] == Some(ids[j]));
        }
        assert forall|i: int, j: int|
            0 <= i < ids.len() && 0 <= j < ids.len() && i != j implies ids[i] != ids[j] by {
            if i < j {
                assert(ids[i] != ids[j]);
            } else {
                assert(ids[j] != ids[i]);
            }
        }
    }
}

/// Whether what was found keeps to an order, none of it twice: of two commits, the later is never
/// one that has to come before the other.
pub open spec fn found_keeps(
    walk: Seq<Option<CommitId>>,
    precedes: spec_fn(CommitId, CommitId) -> bool,
) -> bool {
    forall|i: int, j: int|
        #![trigger walk[i], walk[j]]
        0 <= i < j < walk.len() ==> match (walk[i], walk[j]) {
            (Some(a), Some(b)) => a != b && !precedes(b, a),
            _ => true,
        }
}

proof fn lemma_unfiltered_reads(walk: Seq<Option<CommitId>>, limit: int)
    requires
        0 <= limit,
        sound_ids(walk).len() == walk.len(),
    ensures
        read_all_ids(walk, limit) == sound_ids(walk),
    decreases walk.len(),
{
    if walk.len() > 0 {
        let visited = batch_len(walk.len(), limit);
        let rest = walk.skip(visited);
        lemma_sound_ids(walk);
        assert forall|i: int| 0 <= i < rest.len() implies (#[trigger] rest[i]) is Some by {
            assert(walk[visited + i] == Some(sound_ids(walk)[visited + i]));
        }
        lemma_all_found(rest);
        lemma_sound_ids(rest);
        lemma_unfiltered_reads(rest, limit);
        let ids = sound_ids(walk);
        assert forall|i: int| 0 <= i < rest.len() implies #[trigger] sound_ids(rest)[i]
            == ids[visited + i] by {
            assert(rest[i] == Some(sound_ids(rest)[i]));
            assert(walk[visited + i] == Some(ids[visited + i]));
        }
        assert(ids.take(visited) + sound_ids(rest) =~= ids);
    }
}

/// The commits from which a walk starts are the same however the branches are listed.
pub proof fn law_tips_are_determined(a: Seq<CommitId>, b: Seq<CommitId>)
    requires
        ascending(a),
        ascending(b),
        forall|id: CommitId| #[trigger] a.contains(id) <==> b.contains(id),
    ensures
        a == b,
    decreases a.len(),
{
    if a.len() == 0 {
        if b.len() > 0 {
            assert(b.contains(b[0]));
            assert(a.contains(b[0]));
        }
        assert(a =~= b);
    } else {
        assert(a.contains(a.last()));
        assert(b.contains(a.last()));
        let k = choose|k: int| 0 <= k < b.len() && b[k] == a.last();
        assert(b.contains(b.last()));
        assert(a.contains(b.last()));
        let l = choose|l: int| 0 <= l < a.len() && a[l] == b.last();
        assert(a.last() == b.last()) by {
            if k < b.len() - 1 {
                assert(b[k].before(b[b.len() - 1]));
            }
            if l < a.len() - 1 {
                assert(a[l].before(a[a.len() - 1]));
            }
        }
        let (ra, rb) = (a.drop_last(), b.drop_last());
        assert forall|i: int, j: int|
            #![trigger ra[i], ra[j]]
            0 <= i < j < ra.len() implies ra[i].before(ra[j]) by {
            assert(a[i].before(a[j]));
        }
        assert forall|i: int, j: int|
            #![trigger rb[i], rb[j]]
            0 <= i < j < rb.len() implies rb[i].before(rb[j]) by {
            assert(b[i].before(b[j]));
        }
        assert forall|id: CommitId| #[trigger] ra.contains(id) <==> rb.contains(id) by {
            if ra.contains(id) {
                let i = choose|i: int| 0 <= i < ra.len() && ra[i] == id;
                assert(a[i].before(a[a.len() - 1]));
                assert(a.contains(id));
                let j = choose|j: int| 0 <= j < b.len() && b[j] == id;
                assert(rb[j] == id);
            }
            if rb.contains(id) {
                let j = choose|j: int| 0 <= j < rb.len() && rb[j] == id;
                assert(b[j].before(b[b.len() - 1]));
                assert(b.contains(id));
                assert(a.contains(id));
                let i = choose|i: int| 0 <= i < a.len() && a[i] == id;
                assert(ra[i] == id);
            }
        }
        law_tips_are_determined(ra, rb);
        assert(a =~= ra.push(a.last()));
        assert(b =~= rb.push(b.last()));
    }
}

/// The sound part of a walk is all commits on which the filter, where one is asked, did not fail.
/// It reaches up to the first failure, or to the end.
pub proof fn law_sound_part(walk: Seq<Walked>, filtered: bool)
    ensures
        ({
            let sound = sound_len(walk, filtered);
            &&& sound <= walk.len()
            &&& forall|i: int|
                0 <= i < sound ==> (#[trigger] walk[i]) is Commit && (filtered
                    ==> !(walk[i]->Commit_1 is Failed))
            &&& sound < walk.len() ==> walk[sound as int] is Failed || filtered
                && walk[sound as int]->Commit_1 is Failed
        }),
    decreases walk.len(),
{
    if walk.len() > 0 {
        let rest = walk.drop_last();
        law_sound_part(rest, filtered);
        let sound = sound_len(walk, filtered);
        let before = sound_len(rest, filtered);
        assert forall|i: int| 0 <= i < sound implies (#[trigger] walk[i]) is Commit && (filtered
            ==> !(walk[i]->Commit_1 is Failed)) by {
            if i < before {
                assert(rest[i] == walk[i]);
            }
        }
        if before < rest.len() {
            assert(rest[before as int] == walk[before as int]);
        }
    }
}

/// A batch visits the sound part of a walk, but no more commits than its limit, where it has one.
pub proof fn law_batch_len(sound: nat, limit: nat)
    ensures
        limit == 0 || sound < limit ==> batch_len(sound, limit as int) == sound,
        0 < limit <= sound ==> batch_len(sound, limit as int) == limit,
{
}

/// Every visited commit is counted once, for the walk and for the batch, and a batch is full
/// exactly when it has visited as many commits as its limit. With a filter, a commit is visited
/// once the filter was asked about it.
pub proof fn law_visits_are_counted(walker: LogWalker, id: CommitId)
    requires
        walker.visited_count < usize::MAX,
        walker.count < usize::MAX,
    ensures
        ({
            let (after, step) = walker.on_decided();
            &&& after.visited_count == walker.visited_count + 1
            &&& after.count == walker.count + 1
            &&& after.limit == walker.limit
            &&& after.filtered == walker.filtered
            &&& step == if walker.count + 1 == walker.limit {
                WalkStep::Done(walker.limit)
            } else {
                WalkStep::Next
            }
        }),
        walker.filtered ==> walker.on_found(id) == (walker, WalkStep::AskFilter(id)),
        !walker.filtered ==> walker.on_found(id) == walker.on_decided(),
{
}

/// The commits of a walk without a filter are those before the first failure, in order. Reading it
/// fails exactly where a batch comes to that failure.
pub proof fn law_found_commits(walk: Seq<Option<CommitId>>, limit: nat)
    ensures
        ({
            let ids = sound_ids(walk);
            &&& ids.len() <= walk.len()
            &&& forall|i: int| 0 <= i < ids.len() ==> walk[i] == Some(#[trigger] ids[i])
            &&& ids.len() < walk.len() ==> walk[ids.len() as int] is None
            &&& fails(walk, limit as int) <==> ids.len() < walk.len() && (limit == 0 || ids.len()
                < limit)
        }),
    decreases walk.len(),
{
    if walk.len() > 0 {
        let rest = walk.drop_last();
        law_found_commits(rest, limit);
        let ids = sound_ids(walk);
        let before = sound_ids(rest);
        assert forall|i: int| 0 <= i < ids.len() implies walk[i] == Some(#[trigger] ids[i]) by {
            if i < before.len() {
                assert(before[i] == ids[i]);
                assert(rest[i] == walk[i]);
            }
        }
        if before.len() < rest.len() {
            assert(rest[before.len() as int] == walk[before.len() as int]);
        }
    }
}

/// A walk starts from the commits that branches point at, and from the head, in ascending order of
/// their ids.
pub proof fn law_tips(
    branches: Seq<Option<CommitId>>,
    head: Option<CommitId>,
    id: CommitId,
    tips: Seq<CommitId>,
)
    ensures
        is_tip(branches, head, id) <==> head == Some(id) || exists|i: int|
            0 <= i < branches.len() && #[trigger] branches[i] == Some(id),
        ascending(tips) <==> forall|i: int, j: int|
            #![trigger tips[i], tips[j]]
            0 <= i < j < tips.len() ==> tips[i].high * 0x1_0000_0000 + tips[i].low < tips[j].high
                * 0x1_0000_0000 + tips[j].low,
{
    assert forall|a: CommitId, b: CommitId| #[trigger]
        a.before(b) <==> a.high * 0x1_0000_0000 + a.low < b.high * 0x1_0000_0000 + b.low by {
        law_ids_are_ordered(a, b);
    }
}

/// A walk that does not fail is read up to the limit of a batch, and every commit that was visited
/// is counted. Without a filter all of them are returned, in order.
pub proof fn law_walk_is_read(
    before: LogWalker,
    ids: Seq<CommitId>,
    walk: &Vec<Walked>,
    out_before: Vec<CommitId>,
    after: LogWalker,
    out_after: Vec<CommitId>,
    r: Result<usize, WalkError>,
    pass: spec_fn(CommitId) -> bool,
)
    requires
        walk@ == judged(ids, pass),
        before.visited_count + ids.len() <= usize::MAX,
        exists|m: &mut LogWalker, out: &mut Vec<CommitId>|
            *m == before && *final(m) == after && *out == out_before && *final(out) == out_after
                && call_requires(LogWalker::read, (m, walk, out)) && #[trigger] call_ensures(
                LogWalker::read,
                (m, walk, out),
                r,
            ),
    ensures
        ({
            let visited = if before.limit == 0 || ids.len() < before.limit {
                ids.len() as int
            } else {
                before.limit as int
            };
            &&& r == Ok::<usize, WalkError>(visited as usize)
            &&& after.visited_count == before.visited_count + visited
            &&& out_after@ == out_before@ + if before.filtered {
                ids.take(visited).filter(pass)
            } else {
                ids.take(visited)
            }
        }),
{
    law_batch_of_sound_walk(ids, pass, before.filtered, before.limit as int);
}

/// Both walkers read the same commits from a walk that does not fail, where none is filtered.
pub proof fn law_walkers_agree(
    before: LogWalkerWithoutFilter,
    found: &Vec<Option<CommitId>>,
    out_before: Vec<CommitId>,
    after: LogWalkerWithoutFilter,
    out_after: Vec<CommitId>,
    r: Result<usize, WalkError>,
    other_before: LogWalker,
    walk: &Vec<Walked>,
    other_after: LogWalker,
    other_out: Vec<CommitId>,
    other_r: Result<usize, WalkError>,
    ids: Seq<CommitId>,
    pass: spec_fn(CommitId) -> bool,
)
    requires
        found@ == ids.map_values(|id: CommitId| Some(id)),
        walk@ == judged(ids, pass),
        !other_before.filtered,
        other_before.limit == before.limit,
        before.visited + ids.len() <= usize::MAX,
        other_before.visited_count + ids.len() <= usize::MAX,
        exists|m: &mut LogWalkerWithoutFilter, out: &mut Vec<CommitId>|
            *m == before && *final(m) == after && *out == out_before && *final(out) == out_after
                && call_requires(LogWalkerWithoutFilter::read, (m, found, out))
                && #[trigger] call_ensures(LogWalkerWithoutFilter::read, (m, found, out), r),
        exists|m: &mut LogWalker, out: &mut Vec<CommitId>|
            *m == other_before && *final(m) == other_after && *out == out_before && *final(out)
                == other_out && call_requires(LogWalker::read, (m, walk, out))
                && #[trigger] call_ensures(LogWalker::read, (m, walk, out), other_r),
    ensures
        out_after@ == other_out@,
        r == other_r,
        after.visited - before.visited == other_after.visited_count - other_before.visited_count,
{
    law_walk_is_read(
        other_before,
        ids,
        walk,
        out_before,
        other_after,
        other_out,
        other_r,
        pass,
    );
    lemma_all_found(found@);
    lemma_sound_ids(found@);
    assert(sound_ids(found@) =~= ids) by {
        assert forall|i: int| 0 <= i < ids.len() implies sound_ids(found@)[i] == ids[i] by {
            assert(found@[i] == Some(sound_ids(found@)[i]));
        }
    }
}

/// With a filter, a commit that the walk comes to waits for the verdict, and is returned exactly
/// where it passes. Without one it is returned at once. Either way it is visited once.
pub proof fn law_commit_is_visited(
    before: LogWalker,
    id: CommitId,
    pass: bool,
    out_before: Vec<CommitId>,
    found: LogWalker,
    out_found: Vec<CommitId>,
    wants: WalkStep,
    decided: LogWalker,
    out_decided: Vec<CommitId>,
    then_wants: WalkStep,
)
    requires
        before.visited_count < usize::MAX - 1,
        before.count <= before.visited_count,
        exists|m: &mut LogWalker, out: &mut Vec<CommitId>|
            *m == before && *final(m) == found && *out == out_before && *final(out) == out_found
                && call_requires(LogWalker::found, (m, id, out)) && #[trigger] call_ensures(
                LogWalker::found,
                (m, id, out),
                wants,
            ),
        exists|m: &mut LogWalker, out: &mut Vec<CommitId>|
            *m == found && *final(m) == decided && *out == out_found && *final(out) == out_decided
                && call_requires(LogWalker::decided, (m, id, pass, out))
                && #[trigger] call_ensures(LogWalker::decided, (m, id, pass, out), then_wants),
    ensures
        !before.filtered ==> {
            &&& out_found@ == out_before@.push(id)
            &&& found.visited_count == before.visited_count + 1
            &&& wants == if before.count + 1 == before.limit {
                WalkStep::Done(before.limit)
            } else {
                WalkStep::Next
            }
        },
        before.filtered ==> {
            &&& wants == WalkStep::AskFilter(id)
            &&& out_found@ == out_before@
            &&& found == before
            &&& pass ==> out_decided@ == out_before@.push(id)
            &&& !pass ==> out_decided@ == out_before@
            &&& decided.visited_count == before.visited_count + 1
            &&& decided.count == before.count + 1
            &&& then_wants == if before.count + 1 == before.limit {
                WalkStep::Done(before.limit)
            } else {
                WalkStep::Next
            }
        },
{
}

} // verus!
