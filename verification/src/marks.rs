//! Marked commits.

use vstd::prelude::*;

use crate::commit_id::{
    law_text_identifies_commit, law_text_is_the_number, law_text_reads_back, law_text_shape,
    padded_digits, CommitId, CommitIdError,
};
use crate::commit_list::CommitList;
use crate::text::{join, joined, law_split_joined, split, texts};

verus! {

/// Whether `id` is among the marked commits.
pub open spec fn has_mark(marked: Seq<(usize, CommitId)>, id: CommitId) -> bool {
    exists|i: int| 0 <= i < marked.len() && (#[trigger] marked[i]).1 == id
}

/// Whether the marked commits are ordered by their positions.
pub open spec fn marks_ordered(marked: Seq<(usize, CommitId)>) -> bool {
    forall|i: int, j: int|
        #![trigger marked[i], marked[j]]
        0 <= i < j < marked.len() ==> marked[i].0 <= marked[j].0
}

/// The marked commits without `id`.
pub open spec fn without_mark(marked: Seq<(usize, CommitId)>, id: CommitId) -> Seq<
    (usize, CommitId),
> {
    marked.filter(|mark: (usize, CommitId)| mark.1 != id)
}

/// What toggling the mark of `id`, which stands at `position`, makes of the marked commits: all
/// marks of it go, or it joins the others in order.
pub open spec fn toggled(
    before: Seq<(usize, CommitId)>,
    position: usize,
    id: CommitId,
    after: Seq<(usize, CommitId)>,
) -> bool {
    if has_mark(before, id) {
        after == without_mark(before, id)
    } else {
        &&& marks_ordered(after)
        &&& after.to_multiset() == before.push((position, id)).to_multiset()
    }
}

/// The texts of the marked commits.
pub open spec fn mark_texts(marked: Seq<(usize, CommitId)>) -> Seq<Seq<char>> {
    marked.map_values(|mark: (usize, CommitId)| mark.1.text())
}

/// Inserting an item at any place adds it to the multiset.
proof fn lemma_insert_multiset<A>(s: Seq<A>, at: int, x: A)
    requires
        0 <= at <= s.len(),
    ensures
        s.insert(at, x).to_multiset() == s.to_multiset().insert(x),
{
    broadcast use vstd::seq_lib::group_to_multiset_ensures;

    let inserted = s.insert(at, x);
    assert(inserted.remove(at) =~= s);
    assert(inserted[at] == x);
    assert(s.to_multiset() == inserted.to_multiset().remove(x));
    assert(inserted.contains(x));
    assert(inserted.to_multiset() =~= s.to_multiset().insert(x));
}

/// A mark is among the marks exactly where their multiset has it.
proof fn lemma_has_mark_multiset(a: Seq<(usize, CommitId)>, b: Seq<(usize, CommitId)>, id: CommitId)
    requires
        a.to_multiset() == b.to_multiset(),
        has_mark(a, id),
    ensures
        has_mark(b, id),
{
    broadcast use vstd::seq_lib::group_to_multiset_ensures;

    let i = choose|i: int| 0 <= i < a.len() && (#[trigger] a[i]).1 == id;
    assert(a.contains(a[i]));
    assert(b.to_multiset().count(a[i]) > 0);
    assert(b.contains(a[i]));
}

proof fn lemma_without_mark(marked: Seq<(usize, CommitId)>, id: CommitId)
    ensures
        !has_mark(without_mark(marked, id), id),
        forall|other: CommitId|
            other != id ==> (#[trigger] has_mark(without_mark(marked, id), other) <==> has_mark(
                marked,
                other,
            )),
        marks_ordered(marked) ==> marks_ordered(without_mark(marked, id)),
        without_mark(marked, id).to_multiset() == marked.to_multiset().filter(
            |mark: (usize, CommitId)| mark.1 != id,
        ),
        forall|i: int|
            0 <= i < without_mark(marked, id).len() ==> marked.contains(
                #[trigger] without_mark(marked, id)[i],
            ),
    decreases marked.len(),
{
    broadcast use vstd::seq_lib::group_to_multiset_ensures;

    reveal(Seq::filter);
    let keep = |mark: (usize, CommitId)| mark.1 != id;
    let after = without_mark(marked, id);
    if marked.len() == 0 {
        assert(after.to_multiset() =~= marked.to_multiset().filter(keep));
    } else {
        let rest = marked.drop_last();
        let last = marked.last();
        lemma_without_mark(rest, id);
        assert(marked =~= rest.push(last));
        let after_rest = without_mark(rest, id);
        assert(after == if keep(last) {
            after_rest.push(last)
        } else {
            after_rest
        });
        assert(after.to_multiset() =~= marked.to_multiset().filter(keep));
        assert forall|i: int| 0 <= i < after.len() implies marked.contains(#[trigger] after[i]) by {
            if i < after_rest.len() {
                assert(rest.contains(after_rest[i]));
                let k = choose|k: int| 0 <= k < rest.len() && rest[k] == after_rest[i];
                assert(marked[k] == after[i]);
            } else {
                assert(marked[marked.len() - 1] == last);
            }
        }
        assert forall|other: CommitId| other != id implies (#[trigger] has_mark(after, other)
            <==> has_mark(marked, other)) by {
            if has_mark(after, other) {
                let i = choose|i: int| 0 <= i < after.len() && (#[trigger] after[i]).1 == other;
                assert(marked.contains(after[i]));
                let k = choose|k: int| 0 <= k < marked.len() && marked[k] == after[i];
                assert(marked[k].1 == other);
            }
            if has_mark(marked, other) {
                let k = choose|k: int| 0 <= k < marked.len() && (#[trigger] marked[k]).1 == other;
                if k < rest.len() {
                    assert(rest[k].1 == other);
                    assert(has_mark(rest, other));
                    assert(has_mark(after_rest, other));
                    let i = choose|i: int|
                        0 <= i < after_rest.len() && (#[trigger] after_rest[i]).1 == other;
                    assert(after[i].1 == other);
                } else {
                    assert(after[after.len() - 1].1 == other);
                }
            }
        }
        if has_mark(after, id) {
            let i = choose|i: int| 0 <= i < after.len() && (#[trigger] after[i]).1 == id;
            if i < after_rest.len() {
                assert(after_rest[i].1 == id);
            }
        }
        if marks_ordered(marked) {
            assert forall|i: int, j: int|
                #![trigger rest[i], rest[j]]
                0 <= i < j < rest.len() implies rest[i].0 <= rest[j].0 by {
                assert(marked[i].0 <= marked[j].0);
            }
            assert(marks_ordered(after_rest));
            assert forall|i: int, j: int|
                #![trigger after[i], after[j]]
                0 <= i < j < after.len() implies after[i].0 <= after[j].0 by {
                if j < after_rest.len() {
                    assert(after_rest[i].0 <= after_rest[j].0);
                } else {
                    assert(rest.contains(after_rest[i]));
                    let k = choose|k: int| 0 <= k < rest.len() && rest[k] == after_rest[i];
                    assert(marked[k].0 <= marked[marked.len() - 1].0);
                }
            }
        }
    }
}

/// Toggling a mark turns it round, and leaves the marks of all other commits as they were.
pub proof fn law_toggle_one_mark(
    before: Seq<(usize, CommitId)>,
    position: usize,
    id: CommitId,
    after: Seq<(usize, CommitId)>,
)
    requires
        toggled(before, position, id, after),
    ensures
        has_mark(after, id) == !has_mark(before, id),
        forall|other: CommitId|
            other != id ==> (#[trigger] has_mark(after, other) <==> has_mark(before, other)),
        marks_ordered(before) ==> marks_ordered(after),
{
    if has_mark(before, id) {
        lemma_without_mark(before, id);
    } else {
        let pushed = before.push((position, id));
        assert(pushed[before.len() as int].1 == id);
        lemma_has_mark_multiset(pushed, after, id);
        assert forall|other: CommitId| other != id implies (#[trigger] has_mark(after, other)
            <==> has_mark(before, other)) by {
            if has_mark(before, other) {
                let i = choose|i: int| 0 <= i < before.len() && (#[trigger] before[i]).1 == other;
                assert(pushed[i].1 == other);
                lemma_has_mark_multiset(pushed, after, other);
            }
            if has_mark(after, other) {
                lemma_has_mark_multiset(after, pushed, other);
                let i = choose|i: int| 0 <= i < pushed.len() && (#[trigger] pushed[i]).1 == other;
                assert(before[i].1 == other);
            }
        }
    }
}

/// Marking a commit and unmarking it again leaves the marks that there were.
pub proof fn law_toggle_twice(
    before: Seq<(usize, CommitId)>,
    first_position: usize,
    second_position: usize,
    id: CommitId,
    between: Seq<(usize, CommitId)>,
    after: Seq<(usize, CommitId)>,
)
    requires
        !has_mark(before, id),
        toggled(before, first_position, id, between),
        toggled(between, second_position, id, after),
    ensures
        after.to_multiset() == before.to_multiset(),
        marks_ordered(after),
{
    broadcast use vstd::seq_lib::group_to_multiset_ensures;

    law_toggle_one_mark(before, first_position, id, between);
    lemma_without_mark(between, id);
    let keep = |mark: (usize, CommitId)| mark.1 != id;
    assert(between.to_multiset() == before.to_multiset().insert((first_position, id)));
    assert forall|mark: (usize, CommitId)|
        #[trigger] after.to_multiset().count(mark) == before.to_multiset().count(mark) by {
        if mark.1 == id && before.to_multiset().count(mark) > 0 {
            assert(before.contains(mark));
            let i = choose|i: int| 0 <= i < before.len() && before[i] == mark;
            assert(before[i].1 == id);
        }
    }
    assert(after.to_multiset() =~= before.to_multiset());
}

/// Puts `mark` behind the marks whose position is not greater.
fn insert_mark(marked: &mut Vec<(usize, CommitId)>, mark: (usize, CommitId))
    requires
        marks_ordered(old(marked)@),
    ensures
        marks_ordered(final(marked)@),
        final(marked)@.to_multiset() == old(marked)@.to_multiset().insert(mark),
{
    let mut at: usize = marked.len();
    while at > 0 && marked[at - 1].0 > mark.0
        invariant
            at <= marked@.len(),
            forall|i: int| at <= i < marked@.len() ==> (#[trigger] marked@[i]).0 > mark.0,
        decreases at,
    {
        at = at - 1;
    }
    let ghost before = marked@;
    marked.insert(at, mark);
    proof {
        lemma_insert_multiset(before, at as int, mark);
        let after = marked@;
        assert forall|i: int, j: int|
            #![trigger after[i], after[j]]
            0 <= i < j < after.len() implies after[i].0 <= after[j].0 by {
            let (k, l) = (if i < at { i } else { i - 1 }, if j < at { j } else { j - 1 });
            if i != at && j != at {
                assert(before[k].0 <= before[l].0);
            } else if j == at {
                assert(before[i].0 <= before[at - 1].0);
            }
        }
    }
}

impl CommitList {
    /// Number of marked commits.
    pub fn marked_count(&self) -> (r: usize)
        ensures
            r == self.marked@.len(),
    {
        self.marked.len()
    }

    /// Removes all marks.
    pub fn clear_marked(&mut self)
        ensures
            final(self).marked@ == Seq::<(usize, CommitId)>::empty(),
            *final(self) == (CommitList { marked: final(self).marked, ..*old(self) }),
    {
        self.marked.clear();
    }

    /// The marked commits.
    pub fn marked_commits(&self) -> (r: Vec<CommitId>)
        ensures
            r@ == self.marked@.map_values(|mark: (usize, CommitId)| mark.1),
    {
        let mut out: Vec<CommitId> = Vec::new();
        let mut i: usize = 0;
        while i < self.marked.len()
            invariant
                i <= self.marked@.len(),
                out@.len() == i,
                forall|j: int| 0 <= j < i ==> out@[j] == (#[trigger] self.marked@[j]).1,
            decreases self.marked@.len() - i,
        {
            out.push(self.marked[i].1);
            i = i + 1;
        }
        assert(out@ =~= self.marked@.map_values(|mark: (usize, CommitId)| mark.1));
        out
    }

    /// Whether `id` is marked, or nothing while no commit is.
    pub fn is_marked(&self, id: &CommitId) -> (r: Option<bool>)
        ensures
            r == (if self.marked@.len() == 0 {
                None
            } else {
                Some(has_mark(self.marked@, *id))
            }),
    {
        if self.marked.is_empty() {
            return None;
        }
        let mut i: usize = 0;
        while i < self.marked.len()
            invariant
                i <= self.marked@.len(),
                self.marked@.len() > 0,
                forall|j: int| 0 <= j < i ==> (#[trigger] self.marked@[j]).1 != *id,
            decreases self.marked@.len() - i,
        {
            if self.marked[i].1 == *id {
                return Some(true);
            }
            i = i + 1;
        }
        Some(false)
    }

    /// Whether the selected loaded commit is marked.
    pub fn selected_entry_marked(&self) -> (r: bool)
        ensures
            r == (self.entry() is Some && has_mark(self.marked@, self.entry()->0.id)),
    {
        match self.selected_entry() {
            Some(e) => match self.is_marked(&e.id) {
                Some(marked) => marked,
                None => false,
            },
            None => false,
        }
    }

    /// Toggles the mark of the selected loaded commit.
    pub fn mark(&mut self)
        ensures
            *final(self) == (CommitList { marked: final(self).marked, ..*old(self) }),
            old(self).entry() is None ==> final(self).marked@ == old(self).marked@,
            old(self).entry() matches Some(e) ==> toggled(
                old(self).marked@,
                old(self).item_position() as usize,
                e.id,
                final(self).marked@,
            ),
    {
        let id = match self.selected_entry() {
            Some(e) => e.id,
            None => {
                return;
            },
        };
        let selected_ci: usize = self.selection.commit_index.into();
        let selected_item: usize = selected_ci.saturating_sub(self.items.index_offset());
        let is_marked = match self.is_marked(&id) {
            Some(marked) => marked,
            None => false,
        };
        let ghost before = self.marked@;
        if is_marked {
            let mut kept: Vec<(usize, CommitId)> = Vec::new();
            let mut i: usize = 0;
            assert(without_mark(before.take(0), id) =~= kept@) by {
                reveal(Seq::filter);
            }
            while i < self.marked.len()
                invariant
                    i <= self.marked@.len(),
                    self.marked@ == before,
                    kept@ == without_mark(before.take(i as int), id),
                    *self == *old(self),
                decreases self.marked@.len() - i,
            {
                let mark = self.marked[i];
                if !(mark.1 == id) {
                    kept.push(mark);
                }
                proof {
                    reveal(Seq::filter);
                    assert(before.take(i + 1).drop_last() =~= before.take(i as int));
                }
                i = i + 1;
            }
            assert(before.take(i as int) =~= before);
            self.marked = kept;
        } else {
            let mut sorted: Vec<(usize, CommitId)> = Vec::new();
            let mut i: usize = 0;
            assert(before.take(0).to_multiset() =~= sorted@.to_multiset()) by {
                assert(before.take(0) =~= sorted@);
            }
            while i < self.marked.len()
                invariant
                    i <= self.marked@.len(),
                    self.marked@ == before,
                    marks_ordered(sorted@),
                    sorted@.to_multiset() == before.take(i as int).to_multiset(),
                    *self == *old(self),
                decreases self.marked@.len() - i,
            {
                insert_mark(&mut sorted, self.marked[i]);
                proof {
                    vstd::seq_lib::to_multiset_build(before.take(i as int), before[i as int]);
                    assert(before.take(i + 1) =~= before.take(i as int).push(before[i as int]));
                }
                i = i + 1;
            }
            insert_mark(&mut sorted, (selected_item, id));
            proof {
                assert(before.take(i as int) =~= before);
                vstd::seq_lib::to_multiset_build(before, (selected_item, id));
            }
            self.marked = sorted;
        }
    }

    /// The text of the commit ids to copy: those of the marked commits, or that of the selected
    /// loaded commit where none are marked.
    pub fn concat_selected_commit_ids(&self) -> (r: Option<String>)
        ensures
            self.marked@.len() > 0 ==> r is Some && r->0@ == joined(
                mark_texts(self.marked@),
                seq![' '],
            ),
            self.marked@.len() == 0 ==> (r is Some <==> self.entry() is Some),
            self.marked@.len() == 0 && r is Some ==> r->0@ == self.entry()->0.id.text(),
            self.marked@.len() == 1 ==> r->0@ == self.marked@[0].1.text(),
            self.marked@.len() > 0 ==> split(r->0@, ' ') == Seq::new(
                self.marked@.len(),
                |i: int| self.marked@[i].1.text(),
            ),
    {
        if self.marked.is_empty() {
            return match self.selected_entry() {
                Some(e) => Some(e.id.to_string()),
                None => None,
            };
        }
        let mut parts: Vec<String> = Vec::new();
        let mut i: usize = 0;
        while i < self.marked.len()
            invariant
                i <= self.marked@.len(),
                parts@.len() == i,
                forall|j: int|
                    0 <= j < i ==> (#[trigger] parts@[j])@ == self.marked@[j].1.text(),
            decreases self.marked@.len() - i,
        {
            parts.push(self.marked[i].1.to_string());
            i = i + 1;
        }
        proof {
            reveal_strlit(" ");
            assert(" "@ =~= seq![' ']);
            assert(texts(parts@) =~= mark_texts(self.marked@));
            law_copied_text(self.marked@);
        }
        Some(join(&parts, " "))
    }

    /// The text to copy: the ids of the marked commits, or that of the selected loaded commit where
    /// none are marked. Where there is none, nothing is copied.
    pub fn copy_commit_hash(&self) -> (r: Option<String>)
        ensures
            self.marked@.len() > 0 ==> r is Some && r->0@ == joined(
                mark_texts(self.marked@),
                seq![' '],
            ),
            self.marked@.len() == 0 ==> (r is Some <==> self.entry() is Some),
            self.marked@.len() == 0 && r is Some ==> r->0@ == self.entry()->0.id.text(),
            self.marked@.len() == 1 ==> r->0@ == self.marked@[0].1.text(),
            self.marked@.len() > 0 ==> split(r->0@, ' ') == Seq::new(
                self.marked@.len(),
                |i: int| self.marked@[i].1.text(),
            ),
    {
        self.concat_selected_commit_ids()
    }
}

/// The text that is copied for marked commits is that of the id where one is marked. Split at its
/// spaces, it is the ids of the marked commits in their order.
pub proof fn law_copied_text(marked: Seq<(usize, CommitId)>)
    requires
        marked.len() > 0,
    ensures
        marked.len() == 1 ==> joined(mark_texts(marked), seq![' ']) == marked[0].1.text(),
        split(joined(mark_texts(marked), seq![' ']), ' ') == Seq::new(
            marked.len(),
            |i: int| marked[i].1.text(),
        ),
{
    let parts = mark_texts(marked);
    assert forall|i: int| 0 <= i < parts.len() implies !(#[trigger] parts[i]).contains(' ') by {
        law_text_is_the_number(marked[i].1);
        if parts[i].contains(' ') {
            let k = choose|k: int| 0 <= k < parts[i].len() && parts[i][k] == ' ';
            assert(marked[i].1.text()[k] == ' ');
        }
    }
    law_split_joined(parts, ' ');
    assert(parts =~= Seq::new(marked.len(), |i: int| marked[i].1.text()));
}

/// What is copied for one marked commit, read as an id, gives the commit back.
pub proof fn law_copied_id_reads_back(mark: (usize, CommitId), read: CommitId)
    requires
        read.text() == padded_digits(joined(mark_texts(seq![mark]), seq![' '])),
    ensures
        read == mark.1,
{
    law_copied_text(seq![mark]);
    law_text_reads_back(mark.1, read);
}

/// Different marked commits give different copied texts.
pub proof fn law_copied_text_tells_commits(
    a: Seq<(usize, CommitId)>,
    b: Seq<(usize, CommitId)>,
)
    requires
        a.len() > 0,
        b.len() > 0,
        joined(mark_texts(a), seq![' ']) == joined(mark_texts(b), seq![' ']),
    ensures
        a.map_values(|mark: (usize, CommitId)| mark.1) == b.map_values(
            |mark: (usize, CommitId)| mark.1,
        ),
{
    law_copied_text(a);
    law_copied_text(b);
    let a_texts = Seq::new(a.len(), |i: int| a[i].1.text());
    let b_texts = Seq::new(b.len(), |i: int| b[i].1.text());
    assert(a_texts.len() == b_texts.len());
    assert forall|i: int| 0 <= i < a.len() implies (#[trigger] a[i]).1 == b[i].1 by {
        assert(a_texts[i] == b_texts[i]);
        law_text_identifies_commit(a[i].1, b[i].1);
    }
    assert(a.map_values(|mark: (usize, CommitId)| mark.1) =~= b.map_values(
        |mark: (usize, CommitId)| mark.1,
    ));
}

/// Toggling the mark of a commit that has none adds one mark, with its position, and puts the marks
/// in the order of their positions. Toggling it again takes away its marks and no others, and keeps
/// that order.
pub proof fn law_toggle_marks(
    before: Seq<(usize, CommitId)>,
    position: usize,
    id: CommitId,
    after: Seq<(usize, CommitId)>,
)
    requires
        toggled(before, position, id, after),
    ensures
        before.map_values(|mark: (usize, CommitId)| mark.1).contains(id) ==> {
            &&& forall|i: int| 0 <= i < after.len() ==> (#[trigger] after[i]).1 != id
            &&& forall|mark: (usize, CommitId)|
                mark.1 != id ==> #[trigger] after.to_multiset().count(mark)
                    == before.to_multiset().count(mark)
            &&& (forall|i: int, j: int|
                #![trigger before[i], before[j]]
                0 <= i < j < before.len() ==> before[i].0 <= before[j].0) ==> forall|
                i: int,
                j: int,
            |
                #![trigger after[i], after[j]]
                0 <= i < j < after.len() ==> after[i].0 <= after[j].0
        },
        !before.map_values(|mark: (usize, CommitId)| mark.1).contains(id) ==> {
            &&& after.len() == before.len() + 1
            &&& after.to_multiset() == before.to_multiset().insert((position, id))
            &&& forall|i: int, j: int|
                #![trigger after[i], after[j]]
                0 <= i < j < after.len() ==> after[i].0 <= after[j].0
        },
        has_mark(before, id) <==> before.map_values(|mark: (usize, CommitId)| mark.1).contains(id),
{
    broadcast use vstd::seq_lib::group_to_multiset_ensures;

    let ids = before.map_values(|mark: (usize, CommitId)| mark.1);
    if has_mark(before, id) {
        let i = choose|i: int| 0 <= i < before.len() && (#[trigger] before[i]).1 == id;
        assert(ids[i] == id);
        lemma_without_mark(before, id);
    } else {
        if ids.contains(id) {
            let i = choose|i: int| 0 <= i < ids.len() && ids[i] == id;
            assert(before[i].1 == id);
        }
        assert(after.len() == after.to_multiset().len());
        assert(before.push((position, id)).len() == before.push(
            (position, id),
        ).to_multiset().len());
    }
}

/// The marked commits are listed in the order of the marks, none left out. A commit is marked
/// exactly where it is listed.
pub proof fn law_marked_commits(
    list: &CommitList,
    listed: Vec<CommitId>,
    id: &CommitId,
    marked: Option<bool>,
    count: usize,
)
    requires
        call_ensures(CommitList::marked_commits, (list,), listed),
        call_ensures(CommitList::is_marked, (list, id), marked),
        call_ensures(CommitList::marked_count, (list,), count),
    ensures
        listed@.len() == list.marked@.len(),
        forall|i: int| 0 <= i < listed@.len() ==> #[trigger] listed@[i] == list.marked@[i].1,
        marked is None <==> count == 0,
        marked is Some ==> (marked->0 <==> listed@.contains(*id)),
        count == listed@.len(),
{
    if has_mark(list.marked@, *id) {
        let i = choose|i: int| 0 <= i < list.marked@.len() && (#[trigger] list.marked@[i]).1 == *id;
        assert(listed@[i] == *id);
    }
    if listed@.contains(*id) {
        let i = choose|i: int| 0 <= i < listed@.len() && listed@[i] == *id;
        assert(list.marked@[i].1 == *id);
    }
}

/// What is copied where one commit is marked, or selected and none is marked, is read as that
/// commit.
pub proof fn law_copied_id_is_read(
    list: &CommitList,
    copied: Option<String>,
    text: &str,
    read: Result<CommitId, CommitIdError>,
)
    requires
        call_ensures(CommitList::concat_selected_commit_ids, (list,), copied),
        copied is Some,
        text@ == copied->0@,
        list.marked@.len() <= 1,
        call_ensures(CommitId::from_str_unchecked, (text,), read),
    ensures
        list.marked@.len() == 1 ==> read == Ok::<CommitId, CommitIdError>(list.marked@[0].1),
        list.marked@.len() == 0 ==> read == Ok::<CommitId, CommitIdError>(list.entry()->0.id),
{
    let id = if list.marked@.len() == 1 {
        list.marked@[0].1
    } else {
        list.entry()->0.id
    };
    law_text_shape(id);
    law_text_reads_back(id, read->Ok_0);
}

/// Split at its spaces, what is copied is the texts of the marked commits as they are listed. What
/// is copied for other marked commits differs.
pub proof fn law_copied_ids_are_listed(
    list: &CommitList,
    copied: Option<String>,
    listed: Vec<CommitId>,
    other: &CommitList,
    other_copied: Option<String>,
    other_listed: Vec<CommitId>,
)
    requires
        list.marked@.len() > 0,
        other.marked@.len() > 0,
        call_ensures(CommitList::concat_selected_commit_ids, (list,), copied),
        call_ensures(CommitList::marked_commits, (list,), listed),
        call_ensures(CommitList::concat_selected_commit_ids, (other,), other_copied),
        call_ensures(CommitList::marked_commits, (other,), other_listed),
    ensures
        copied is Some,
        split(copied->0@, ' ') == listed@.map_values(|id: CommitId| id.text()),
        listed@ != other_listed@ ==> copied->0@ != other_copied->0@,
{
    law_copied_text(list.marked@);
    assert(split(copied->0@, ' ') =~= listed@.map_values(|id: CommitId| id.text()));
    if copied->0@ == other_copied->0@ {
        law_copied_text_tells_commits(list.marked@, other.marked@);
    }
}

} // verus!
