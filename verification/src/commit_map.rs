//! Lists of things that belong to commits: tags and branches.

use vstd::prelude::*;

use crate::commit_id::CommitId;

verus! {

/// A list of values for each of some commits. Every commit that it names has at least one value.
pub struct CommitMap<V> {
    /// Ordered by commit, each commit once.
    entries: Vec<(CommitId, Vec<V>)>,
}

/// Whether `entries` are ordered by commit, each commit once, none without values.
spec fn ordered<V>(entries: Seq<(CommitId, Vec<V>)>) -> bool {
    &&& forall|i: int, j: int|
        #![trigger entries[i], entries[j]]
        0 <= i < j < entries.len() ==> entries[i].0.before(entries[j].0)
    &&& forall|i: int| 0 <= i < entries.len() ==> (#[trigger] entries[i]).1@.len() > 0
}

/// Whether some entry is for `id`.
spec fn names<V>(entries: Seq<(CommitId, Vec<V>)>, id: CommitId) -> bool {
    exists|i: int| 0 <= i < entries.len() && (#[trigger] entries[i]).0 == id
}

/// The values of the entry for `id`.
spec fn values_of<V>(entries: Seq<(CommitId, Vec<V>)>, id: CommitId) -> Seq<V> {
    entries[choose|i: int| 0 <= i < entries.len() && (#[trigger] entries[i]).0 == id].1@
}

spec fn as_map<V>(entries: Seq<(CommitId, Vec<V>)>) -> Map<CommitId, Seq<V>> {
    Map::new(|id: CommitId| names(entries, id), |id: CommitId| values_of(entries, id))
}

/// The values of `map` for `id`, none where it does not name the commit.
pub open spec fn values_for<V>(map: Map<CommitId, Seq<V>>, id: CommitId) -> Seq<V> {
    if map.dom().contains(id) {
        map[id]
    } else {
        Seq::empty()
    }
}

impl<V> View for CommitMap<V> {
    type V = Map<CommitId, Seq<V>>;

    closed spec fn view(&self) -> Map<CommitId, Seq<V>> {
        as_map(self.entries@)
    }
}

proof fn lemma_entry<V>(entries: Seq<(CommitId, Vec<V>)>, i: int)
    requires
        ordered(entries),
        0 <= i < entries.len(),
    ensures
        as_map(entries).dom().contains(entries[i].0),
        as_map(entries)[entries[i].0] == entries[i].1@,
{
    let id = entries[i].0;
    assert(names(entries, id));
    let k = choose|k: int| 0 <= k < entries.len() && (#[trigger] entries[k]).0 == id;
    assert(k == i) by {
        if k < i {
            assert(entries[k].0.before(entries[i].0));
        }
        if i < k {
            assert(entries[i].0.before(entries[k].0));
        }
    }
}

/// An entry that is replaced changes the list of its own commit only.
proof fn lemma_replaced<V>(entries: Seq<(CommitId, Vec<V>)>, at: int, values: Vec<V>)
    requires
        ordered(entries),
        0 <= at < entries.len(),
        values@.len() > 0,
    ensures
        ordered(entries.update(at, (entries[at].0, values))),
        as_map(entries.update(at, (entries[at].0, values))) == as_map(entries).insert(
            entries[at].0,
            values@,
        ),
{
    let id = entries[at].0;
    let after = entries.update(at, (id, values));
    let expected = as_map(entries).insert(id, values@);
    assert forall|i: int, j: int|
        #![trigger after[i], after[j]]
        0 <= i < j < after.len() implies after[i].0.before(after[j].0) by {
        assert(entries[i].0.before(entries[j].0));
    }
    lemma_entry(after, at);
    assert forall|other: CommitId| #[trigger]
        as_map(after).dom().contains(other) == expected.dom().contains(other) && (as_map(
        after,
    ).dom().contains(other) ==> as_map(after)[other] == expected[other]) by {
        if other != id {
            if names(after, other) {
                let j = choose|j: int| 0 <= j < after.len() && (#[trigger] after[j]).0 == other;
                lemma_entry(after, j);
                lemma_entry(entries, j);
            }
            if names(entries, other) {
                let j = choose|j: int| 0 <= j < entries.len() && (#[trigger] entries[j]).0 == other;
                lemma_entry(entries, j);
                lemma_entry(after, j);
            }
        }
    }
    assert(as_map(after) =~= expected);
}

/// An entry that is put at its place adds the list of its commit.
proof fn lemma_inserted<V>(
    entries: Seq<(CommitId, Vec<V>)>,
    at: int,
    id: CommitId,
    values: Vec<V>,
)
    requires
        ordered(entries),
        0 <= at <= entries.len(),
        forall|i: int| 0 <= i < at ==> (#[trigger] entries[i]).0.before(id),
        forall|i: int| at <= i < entries.len() ==> id.before((#[trigger] entries[i]).0),
        values@.len() > 0,
    ensures
        ordered(entries.insert(at, (id, values))),
        as_map(entries.insert(at, (id, values))) == as_map(entries).insert(id, values@),
{
    let after = entries.insert(at, (id, values));
    let expected = as_map(entries).insert(id, values@);
    assert forall|i: int, j: int|
        #![trigger after[i], after[j]]
        0 <= i < j < after.len() implies after[i].0.before(after[j].0) by {
        let (k, l) = (if i < at { i } else { i - 1 }, if j < at { j } else { j - 1 });
        if i != at {
            assert(after[i] == entries[k]);
        }
        if j != at {
            assert(after[j] == entries[l]);
        }
    }
    assert forall|i: int| 0 <= i < after.len() implies (#[trigger] after[i]).1@.len() > 0 by {
        let k = if i < at { i } else { i - 1 };
        if i != at {
            assert(after[i] == entries[k]);
        }
    }
    assert(after[at] == (id, values));
    lemma_entry(after, at);
    assert forall|other: CommitId| #[trigger]
        as_map(after).dom().contains(other) == expected.dom().contains(other) && (as_map(
        after,
    ).dom().contains(other) ==> as_map(after)[other] == expected[other]) by {
        if other != id {
            if names(after, other) {
                let j = choose|j: int| 0 <= j < after.len() && (#[trigger] after[j]).0 == other;
                let k = if j < at { j } else { j - 1 };
                lemma_entry(after, j);
                assert(after[j] == entries[k]);
                lemma_entry(entries, k);
            }
            if names(entries, other) {
                let k = choose|k: int| 0 <= k < entries.len() && (#[trigger] entries[k]).0 == other;
                let j = if k < at { k } else { k + 1 };
                lemma_entry(entries, k);
                assert(after[j] == entries[k]);
                lemma_entry(after, j);
            }
        }
    }
    assert(as_map(after) =~= expected);
}

impl<V> CommitMap<V> {
    #[verifier::type_invariant]
    spec fn well_formed(self) -> bool {
        ordered(self.entries@)
    }

    /// A map that names no commit.
    pub fn new() -> (r: CommitMap<V>)
        ensures
            r@ == Map::<CommitId, Seq<V>>::empty(),
    {
        let r = CommitMap { entries: Vec::new() };
        assert(r@ =~= Map::<CommitId, Seq<V>>::empty());
        r
    }

    /// The first position whose commit does not come before `id`.
    fn position(entries: &Vec<(CommitId, Vec<V>)>, id: &CommitId) -> (r: usize)
        requires
            ordered(entries@),
        ensures
            r <= entries@.len(),
            forall|i: int| 0 <= i < r ==> (#[trigger] entries@[i]).0.before(*id),
            forall|i: int| r <= i < entries@.len() ==> !(#[trigger] entries@[i]).0.before(*id),
    {
        let mut low: usize = 0;
        let mut high: usize = entries.len();
        while low < high
            invariant
                ordered(entries@),
                low <= high <= entries@.len(),
                forall|i: int| 0 <= i < low ==> (#[trigger] entries@[i]).0.before(*id),
                forall|i: int|
                    high <= i < entries@.len() ==> !(#[trigger] entries@[i]).0.before(*id),
            decreases high - low,
        {
            let middle: usize = low + (high - low) / 2;
            if entries[middle].0.is_before(id) {
                low = middle + 1;
            } else {
                high = middle;
            }
        }
        low
    }

    /// The values for `id`.
    pub fn get(&self, id: &CommitId) -> (r: Option<&Vec<V>>)
        ensures
            r is Some <==> self@.dom().contains(*id),
            r matches Some(values) ==> values@ == self@[*id],
            r matches Some(values) ==> values@.len() > 0,
    {
        proof {
            use_type_invariant(self);
        }
        let at: usize = Self::position(&self.entries, id);
        if at < self.entries.len() && self.entries[at].0 == *id {
            proof {
                lemma_entry(self.entries@, at as int);
            }
            Some(&self.entries[at].1)
        } else {
            assert(!names(self.entries@, *id));
            None
        }
    }

    /// Adds `value` behind the other values for `id`.
    pub fn push(&mut self, id: CommitId, value: V)
        ensures
            final(self)@ == old(self)@.insert(id, values_for(old(self)@, id).push(value)),
    {
        proof {
            use_type_invariant(&*self);
        }
        let mut entries: Vec<(CommitId, Vec<V>)> = Vec::new();
        std::mem::swap(&mut entries, &mut self.entries);
        let ghost before = entries@;
        let at: usize = Self::position(&entries, &id);
        if at < entries.len() && entries[at].0 == id {
            let (_, mut values) = entries.remove(at);
            values.push(value);
            entries.insert(at, (id, values));
            proof {
                lemma_entry(before, at as int);
                lemma_replaced(before, at as int, values);
                assert(entries@ =~= before.update(at as int, (id, values)));
            }
        } else {
            let mut values: Vec<V> = Vec::new();
            values.push(value);
            entries.insert(at, (id, values));
            proof {
                assert forall|i: int| at <= i < before.len() implies id.before(
                    (#[trigger] before[i]).0,
                ) by {
                    if i > at {
                        assert(before[at as int].0.before(before[i].0));
                    }
                }
                assert(!names(before, id));
                assert(values@ =~= Seq::<V>::empty().push(value));
                lemma_inserted(before, at as int, id, values);
            }
        }
        self.entries = entries;
    }

    /// Removes everything.
    pub fn clear(&mut self)
        ensures
            final(self)@ == Map::<CommitId, Seq<V>>::empty(),
    {
        self.entries = Vec::new();
        assert(self@ =~= Map::<CommitId, Seq<V>>::empty());
    }
}

/// A commit that a map does not name has no values.
pub proof fn law_values_for<V>(map: Map<CommitId, Seq<V>>, id: CommitId)
    ensures
        map.dom().contains(id) ==> values_for(map, id) == map[id],
        !map.dom().contains(id) ==> values_for(map, id).len() == 0,
{
}

/// A value that is added for a commit is the last of its values, and those of all other commits
/// stay as they are.
pub proof fn law_added_value<V>(
    before: CommitMap<V>,
    id: CommitId,
    value: V,
    after: CommitMap<V>,
    other: CommitId,
)
    requires
        exists|m: &mut CommitMap<V>|
            *m == before && *final(m) == after && #[trigger] call_ensures(
                CommitMap::<V>::push,
                (m, id, value),
                (),
            ),
    ensures
        after@.dom().contains(id),
        after@[id].last() == value,
        before@.dom().contains(id) ==> after@[id].drop_last() == before@[id],
        !before@.dom().contains(id) ==> after@[id] == seq![value],
        other != id ==> (after@.dom().contains(other) <==> before@.dom().contains(other)),
        other != id && before@.dom().contains(other) ==> after@[other] == before@[other],
{
    assert(before@.dom().contains(id) ==> after@[id].drop_last() =~= before@[id]);
    assert(!before@.dom().contains(id) ==> after@[id] =~= seq![value]);
}

} // verus!
