//! Sets of commits that keep the order in which commits were added.

use indexmap::IndexSet;
use vstd::prelude::*;

use crate::commit_id::CommitId;
use crate::index_set::{
    set_clear, set_contains, set_eq, set_get_index, set_get_index_of, set_insert, set_keys, set_len,
    set_new,
};

verus! {

/// The id that a pair of numbers stands for.
pub open spec fn id_of(key: (u128, u32)) -> CommitId {
    CommitId { high: key.0, low: key.1 }
}

/// `base` with the commits of `more` that are not there yet, each behind what was there before it.
pub open spec fn extended(base: Seq<CommitId>, more: Seq<CommitId>) -> Seq<CommitId>
    decreases more.len(),
{
    if more.len() == 0 {
        base
    } else {
        let before = extended(base, more.drop_last());
        if before.contains(more.last()) {
            before
        } else {
            before.push(more.last())
        }
    }
}

/// Commits in the order in which they were added, none of them twice.
pub struct CommitSet {
    set: IndexSet<(u128, u32)>,
}

impl View for CommitSet {
    type V = Seq<CommitId>;

    closed spec fn view(&self) -> Seq<CommitId> {
        set_keys(self.set).map_values(|key: (u128, u32)| id_of(key))
    }
}

impl CommitSet {
    /// A set without commits.
    pub fn new() -> (r: CommitSet)
        ensures
            r@ == Seq::<CommitId>::empty(),
    {
        let r = CommitSet { set: set_new() };
        assert(r@ =~= Seq::<CommitId>::empty());
        r
    }

    /// Number of commits.
    pub fn len(&self) -> (r: usize)
        ensures
            r == self@.len(),
    {
        set_len(&self.set)
    }

    /// Whether the set has no commits.
    pub fn is_empty(&self) -> (r: bool)
        ensures
            r == (self@.len() == 0),
    {
        set_len(&self.set) == 0
    }

    /// The commit at `index`. It stands nowhere else.
    pub fn get(&self, index: usize) -> (r: Option<CommitId>)
        ensures
            r is Some <==> index < self@.len(),
            r matches Some(id) ==> id == self@[index as int],
            r matches Some(id) ==> forall|j: int|
                0 <= j < self@.len() && j != index ==> #[trigger] self@[j] != id,
    {
        match set_get_index(&self.set, index) {
            Some(key) => Some(CommitId { high: key.0, low: key.1 }),
            None => None,
        }
    }

    /// The position of `id`.
    pub fn get_index_of(&self, id: &CommitId) -> (r: Option<usize>)
        ensures
            r is Some <==> self@.contains(*id),
            r matches Some(i) ==> i < self@.len() && self@[i as int] == *id,
            r matches Some(i) ==> forall|j: int|
                0 <= j < self@.len() && j != i ==> #[trigger] self@[j] != *id,
    {
        proof {
            self.lemma_contains(*id);
        }
        set_get_index_of(&self.set, &(id.high, id.low))
    }

    /// Whether the set has `id`.
    pub fn contains(&self, id: &CommitId) -> (r: bool)
        ensures
            r == self@.contains(*id),
    {
        proof {
            self.lemma_contains(*id);
        }
        set_contains(&self.set, &(id.high, id.low))
    }

    /// Adds `id` behind the other commits, unless the set has it already. Says whether it did.
    pub fn insert(&mut self, id: CommitId) -> (r: bool)
        ensures
            r == !old(self)@.contains(id),
            final(self)@ == extended(old(self)@, seq![id]),
    {
        proof {
            self.lemma_contains(id);
        }
        let r = set_insert(&mut self.set, (id.high, id.low));
        proof {
            assert(seq![id].drop_last() =~= Seq::<CommitId>::empty());
            assert(extended(old(self)@, Seq::<CommitId>::empty()) == old(self)@);
            if r {
                assert(self@ =~= old(self)@.push(id));
            } else {
                assert(self@ =~= old(self)@);
            }
        }
        r
    }

    /// Adds the commits of `more` that are not there yet.
    pub fn extend(&mut self, more: &Vec<CommitId>)
        ensures
            final(self)@ == extended(old(self)@, more@),
    {
        let ghost base = self@;
        let mut i: usize = 0;
        assert(more@.take(0) =~= Seq::<CommitId>::empty());
        while i < more.len()
            invariant
                i <= more.len(),
                self@ == extended(base, more@.take(i as int)),
            decreases more.len() - i,
        {
            let ghost before = self@;
            self.insert(more[i]);
            proof {
                let id = more@[i as int];
                assert(more@.take(i + 1).drop_last() =~= more@.take(i as int));
                assert(seq![id].drop_last() =~= Seq::<CommitId>::empty());
                assert(extended(before, Seq::<CommitId>::empty()) == before);
            }
            i = i + 1;
        }
        assert(more@.take(i as int) =~= more@);
    }

    /// Removes all commits.
    pub fn clear(&mut self)
        ensures
            final(self)@ == Seq::<CommitId>::empty(),
    {
        set_clear(&mut self.set);
        assert(self@ =~= Seq::<CommitId>::empty());
    }

    /// Whether both sets have the same commits, in whatever order.
    pub fn same_commits(&self, other: &CommitSet) -> (r: bool)
        ensures
            r == (self@.to_set() == other@.to_set()),
    {
        proof {
            lemma_same_items(*self, *other);
        }
        set_eq(&self.set, &other.set)
    }

    /// All commits in order, none of them twice.
    pub fn to_vec(&self) -> (r: Vec<CommitId>)
        ensures
            r@ == self@,
            r@.no_duplicates(),
    {
        self.range(0, self.len())
    }

    /// The commits from position `start` on, at most `count` of them.
    pub fn range(&self, start: usize, count: usize) -> (r: Vec<CommitId>)
        ensures
            start <= self@.len() ==> r@ == self@.skip(start as int).take(
                if count <= self@.len() - start {
                    count as int
                } else {
                    self@.len() - start
                },
            ),
            start > self@.len() ==> r@.len() == 0,
            r@.no_duplicates(),
    {
        let mut out: Vec<CommitId> = Vec::new();
        let len: usize = self.len();
        if start >= len {
            assert(self@.skip(self@.len() as int).take(0) =~= out@);
            return out;
        }
        let wanted: usize = if count <= len - start {
            count
        } else {
            len - start
        };
        let mut i: usize = 0;
        while i < wanted
            invariant
                i <= wanted,
                len == self@.len(),
                start <= len,
                wanted <= len - start,
                out@ == self@.subrange(start as int, start + i),
                forall|k: int, j: int|
                    #![trigger self@[k], self@[j]]
                    start <= k < start + i && 0 <= j < len && j != k ==> self@[k] != self@[j],
            decreases wanted - i,
        {
            if let Some(id) = self.get(start + i) {
                out.push(id);
            }
            assert(self@.subrange(start as int, start + i + 1) =~= self@.subrange(
                start as int,
                start + i,
            ).push(self@[start + i]));
            i = i + 1;
        }
        assert(self@.skip(start as int).take(wanted as int) =~= out@);
        assert forall|k: int, j: int|
            0 <= k < out@.len() && 0 <= j < out@.len() && k != j implies out@[k] != out@[j] by {
            assert(out@[k] == self@[start + k] && out@[j] == self@[start + j]);
        }
        out
    }

    proof fn lemma_contains(&self, id: CommitId)
        ensures
            self@.contains(id) == set_keys(self.set).contains((id.high, id.low)),
    {
        let keys = set_keys(self.set);
        let key = (id.high, id.low);
        if keys.contains(key) {
            let i = choose|i: int| 0 <= i < keys.len() && keys[i] == key;
            assert(self@[i] == id);
        }
        if self@.contains(id) {
            let i = choose|i: int| 0 <= i < self@.len() && self@[i] == id;
            assert(keys[i] == key);
        }
    }
}

proof fn lemma_same_items(a: CommitSet, b: CommitSet)
    ensures
        (a@.to_set() == b@.to_set()) == (set_keys(a.set).to_set()
            == set_keys(b.set).to_set()),
{
    let (ka, kb) = (set_keys(a.set), set_keys(b.set));
    if ka.to_set() == kb.to_set() {
        assert forall|id: CommitId| a@.to_set().contains(id) == b@.to_set().contains(id) by {
            a.lemma_contains(id);
            b.lemma_contains(id);
            assert(ka.to_set().contains((id.high, id.low)) == kb.to_set().contains(
                (id.high, id.low),
            ));
        }
        assert(a@.to_set() =~= b@.to_set());
    }
    if a@.to_set() == b@.to_set() {
        assert forall|key: (u128, u32)| ka.to_set().contains(key) == kb.to_set().contains(key) by {
            a.lemma_contains(id_of(key));
            b.lemma_contains(id_of(key));
            assert(a@.to_set().contains(id_of(key)) == b@.to_set().contains(id_of(key)));
        }
        assert(ka.to_set() =~= kb.to_set());
    }
}

/// Extending a set keeps what it has in place, adds no commit twice, and leaves it with the commits
/// of both.
pub proof fn law_extended(base: Seq<CommitId>, more: Seq<CommitId>)
    ensures
        base.is_prefix_of(extended(base, more)),
        base.no_duplicates() ==> extended(base, more).no_duplicates(),
        forall|id: CommitId| #[trigger]
            extended(base, more).contains(id) <==> base.contains(id) || more.contains(id),
    decreases more.len(),
{
    if more.len() > 0 {
        let rest = more.drop_last();
        let before = extended(base, rest);
        law_extended(base, rest);
        assert forall|id: CommitId| #[trigger]
            extended(base, more).contains(id) <==> base.contains(id) || more.contains(id) by {
            assert(more =~= rest.push(more.last()));
            lemma_push_contains(rest, more.last(), id);
            lemma_push_contains(before, more.last(), id);
        }
    }
}

/// A sequence with one item more contains what it had and that item.
pub proof fn lemma_push_contains<A>(s: Seq<A>, x: A, y: A)
    ensures
        s.push(x).contains(y) <==> s.contains(y) || x == y,
{
    if s.contains(y) {
        let i = choose|i: int| 0 <= i < s.len() && s[i] == y;
        assert(s.push(x)[i] == y);
    }
    if x == y {
        assert(s.push(x)[s.len() as int] == y);
    }
}

/// One commit is added behind the others, unless it is there. Commits that are added in two parts
/// are those that are added at once.
pub proof fn law_extended_step_by_step(
    base: Seq<CommitId>,
    id: CommitId,
    first: Seq<CommitId>,
    second: Seq<CommitId>,
)
    ensures
        extended(base, Seq::empty()) == base,
        base.contains(id) ==> extended(base, seq![id]) == base,
        !base.contains(id) ==> extended(base, seq![id]) == base.push(id),
        extended(base, first + second) == extended(extended(base, first), second),
    decreases second.len(),
{
    assert(seq![id].drop_last() =~= Seq::<CommitId>::empty());
    if second.len() == 0 {
        assert(first + second =~= first);
    } else {
        let rest = second.drop_last();
        law_extended_step_by_step(base, id, first, rest);
        assert((first + second).drop_last() =~= first + rest);
        assert((first + second).last() == second.last());
    }
}

/// What stands at a place of a set is in the set, and is found at that place and no other.
pub proof fn law_found_where_it_stands(
    set: &CommitSet,
    index: usize,
    at: Option<CommitId>,
    id: &CommitId,
    found: Option<usize>,
    contained: bool,
)
    requires
        call_ensures(CommitSet::get, (set, index), at),
        at == Some(*id),
        call_ensures(CommitSet::get_index_of, (set, id), found),
        call_ensures(CommitSet::contains, (set, id), contained),
    ensures
        set@[index as int] == *id,
        found == Some(index),
        contained,
{
    assert(set@.contains(set@[index as int]));
}

/// A commit that is added is in the set, and the commits that were there stand where they stood.
pub proof fn law_added_commit(before: CommitSet, id: CommitId, after: CommitSet, added: bool)
    requires
        exists|m: &mut CommitSet|
            *m == before && *final(m) == after && #[trigger] call_ensures(
                CommitSet::insert,
                (m, id),
                added,
            ),
    ensures
        added <==> !before@.contains(id),
        added ==> after@ == before@.push(id),
        !added ==> after@ == before@,
{
    law_extended_step_by_step(before@, id, Seq::empty(), Seq::empty());
}

} // verus!
