//! Moving the selection, and what keys do.

use vstd::prelude::*;

use crate::commit_id::CommitId;
use crate::commit_list::{highlighted_at, CommitList, CommitListError};
use crate::doc_line::DocLine;
use crate::marks::{has_mark, law_toggle_one_mark, toggled};

verus! {

/// How far the selection moves.
#[derive(Clone, Copy, Debug, PartialEq, Eq, Structural)]
pub enum ScrollType {
    /// Some commits up.
    Up,
    /// Some commits down.
    Down,
    /// To the first commit.
    Home,
    /// To the last commit.
    End,
    /// A page up.
    PageUp,
    /// A page down.
    PageDown,
}

/// Which key was pressed.
#[derive(Clone, Copy, Debug, PartialEq, Eq, Structural)]
pub enum KeyCode {
    /// The backspace key.
    Backspace,
    /// The enter key.
    Enter,
    /// The left arrow.
    Left,
    /// The right arrow.
    Right,
    /// The up arrow.
    Up,
    /// The down arrow.
    Down,
    /// The home key.
    Home,
    /// The end key.
    End,
    /// The page up key.
    PageUp,
    /// The page down key.
    PageDown,
    /// The tab key.
    Tab,
    /// The tab key with shift.
    BackTab,
    /// The delete key.
    Delete,
    /// The insert key.
    Insert,
    /// A function key.
    F(u8),
    /// A character.
    Char(char),
    /// The escape key.
    Esc,
    /// Any other key, by a number that stands for it.
    Other(u32),
}

/// A key with the modifiers that are held with it.
#[derive(Clone, Copy, Debug, PartialEq, Eq, Structural)]
pub struct KeyEvent {
    /// The key.
    pub code: KeyCode,
    /// The modifiers, one bit each.
    pub modifiers: u8,
}

/// The keys that the list listens to.
#[derive(Clone, Copy, Debug, PartialEq, Eq, Structural)]
pub struct ListKeys {
    /// Moves the selection up.
    pub move_up: KeyEvent,
    /// Moves the selection down.
    pub move_down: KeyEvent,
    /// Selects the first commit.
    pub shift_up: KeyEvent,
    /// Selects the first commit.
    pub home: KeyEvent,
    /// Selects the last commit.
    pub shift_down: KeyEvent,
    /// Selects the last commit.
    pub end: KeyEvent,
    /// Moves the selection a page up.
    pub page_up: KeyEvent,
    /// Moves the selection a page down.
    pub page_down: KeyEvent,
    /// Toggles the mark of the selected commit.
    pub log_mark_commit: KeyEvent,
    /// Checks out the selected commit.
    pub log_checkout_commit: KeyEvent,
}

/// What a key asks of the list.
#[derive(Clone, Copy, Debug, PartialEq, Eq, Structural)]
pub enum ListAction {
    /// Move the selection.
    Move(ScrollType),
    /// Toggle the mark of the selected commit.
    Mark,
    /// Check out the selected commit.
    Checkout,
}

/// Whether an event was for the list.
#[derive(Clone, Copy, Debug, PartialEq, Eq, Structural)]
pub enum EventState {
    /// The list took the event.
    Consumed,
    /// The event is left to others.
    NotConsumed,
}

/// What came of an event.
#[derive(Clone, Copy, Debug, PartialEq, Eq, Structural)]
pub struct EventOutcome {
    /// Whether the event was for the list.
    pub state: EventState,
    /// A commit to check out.
    pub checkout: Option<CommitId>,
}

/// A command that the list offers.
#[derive(Clone, Copy, Debug, PartialEq, Eq, Structural)]
pub enum CommandKind {
    /// Scrolling.
    Scroll,
    /// Marking the selected commit, or unmarking it where it is marked.
    Mark {
        /// Whether the selected commit is marked.
        marked: bool,
    },
}

/// An entry of the command bar.
#[derive(Clone, Copy, Debug, PartialEq, Eq, Structural)]
pub struct CommandInfo {
    /// The command.
    pub kind: CommandKind,
    /// Whether it would do something now.
    pub enabled: bool,
    /// Whether it is shown.
    pub available: bool,
}

/// Whether commands of other components are still asked for.
#[derive(Clone, Copy, Debug, PartialEq, Eq, Structural)]
pub enum CommandBlocking {
    /// They are not.
    Blocking,
    /// They are.
    PassingOn,
}

/// What the key `k` asks for: the first action to whose key it belongs.
pub open spec fn action_of(k: KeyEvent, keys: ListKeys) -> Option<ListAction> {
    if k == keys.move_up {
        Some(ListAction::Move(ScrollType::Up))
    } else if k == keys.move_down {
        Some(ListAction::Move(ScrollType::Down))
    } else if k == keys.shift_up || k == keys.home {
        Some(ListAction::Move(ScrollType::Home))
    } else if k == keys.shift_down || k == keys.end {
        Some(ListAction::Move(ScrollType::End))
    } else if k == keys.page_up {
        Some(ListAction::Move(ScrollType::PageUp))
    } else if k == keys.page_down {
        Some(ListAction::Move(ScrollType::PageDown))
    } else if k == keys.log_mark_commit {
        Some(ListAction::Mark)
    } else if k == keys.log_checkout_commit {
        Some(ListAction::Checkout)
    } else {
        None
    }
}

/// The keys in the order in which they are looked at, each with what it asks for.
pub open spec fn bindings(keys: ListKeys) -> Seq<(KeyEvent, ListAction)> {
    seq![
        (keys.move_up, ListAction::Move(ScrollType::Up)),
        (keys.move_down, ListAction::Move(ScrollType::Down)),
        (keys.shift_up, ListAction::Move(ScrollType::Home)),
        (keys.home, ListAction::Move(ScrollType::Home)),
        (keys.shift_down, ListAction::Move(ScrollType::End)),
        (keys.end, ListAction::Move(ScrollType::End)),
        (keys.page_up, ListAction::Move(ScrollType::PageUp)),
        (keys.page_down, ListAction::Move(ScrollType::PageDown)),
        (keys.log_mark_commit, ListAction::Mark),
        (keys.log_checkout_commit, ListAction::Checkout),
    ]
}

/// Whether every key is another.
pub open spec fn keys_differ(keys: ListKeys) -> bool {
    seq![
        keys.move_up,
        keys.move_down,
        keys.shift_up,
        keys.home,
        keys.shift_down,
        keys.end,
        keys.page_up,
        keys.page_down,
        keys.log_mark_commit,
        keys.log_checkout_commit,
    ].no_duplicates()
}

/// Whether a key belongs to a binding.
pub fn key_match(ev: &KeyEvent, binding: KeyEvent) -> (r: bool)
    ensures
        r == (*ev == binding),
{
    ev.code == binding.code && ev.modifiers == binding.modifiers
}

/// What the key `k` asks for.
pub fn key_action(k: &KeyEvent, keys: &ListKeys) -> (r: Option<ListAction>)
    ensures
        r == action_of(*k, *keys),
        forall|i: int|
            0 <= i < bindings(*keys).len() && (#[trigger] bindings(*keys)[i]).0 == *k && (forall|
                j: int,
            |
                0 <= j < i ==> (#[trigger] bindings(*keys)[j]).0 != *k) ==> r == Some(
                bindings(*keys)[i].1,
            ),
        (forall|i: int|
            0 <= i < bindings(*keys).len() ==> (#[trigger] bindings(*keys)[i]).0 != *k)
            ==> r is None,
{
    proof {
        law_first_binding_wins(*k, *keys);
    }
    if key_match(k, keys.move_up) {
        Some(ListAction::Move(ScrollType::Up))
    } else if key_match(k, keys.move_down) {
        Some(ListAction::Move(ScrollType::Down))
    } else if key_match(k, keys.shift_up) || key_match(k, keys.home) {
        Some(ListAction::Move(ScrollType::Home))
    } else if key_match(k, keys.shift_down) || key_match(k, keys.end) {
        Some(ListAction::Move(ScrollType::End))
    } else if key_match(k, keys.page_up) {
        Some(ListAction::Move(ScrollType::PageUp))
    } else if key_match(k, keys.page_down) {
        Some(ListAction::Move(ScrollType::PageDown))
    } else if key_match(k, keys.log_mark_commit) {
        Some(ListAction::Mark)
    } else if key_match(k, keys.log_checkout_commit) {
        Some(ListAction::Checkout)
    } else {
        None
    }
}

/// `i`, but no less than zero and no more than `last`.
pub open spec fn clamped(i: int, last: int) -> int {
    if last <= i {
        last
    } else if i <= 0 {
        0
    } else {
        i
    }
}

/// Where a move that asks for index `i` ends.
pub open spec fn target(scroll: ScrollType, from: int, step: int, page: int, last: int) -> int {
    match scroll {
        ScrollType::Up => clamped(from - step, last),
        ScrollType::Down => clamped(from + step, last),
        ScrollType::PageUp => clamped(from - page, last),
        ScrollType::PageDown => clamped(from + page, last),
        ScrollType::Home => 0,
        ScrollType::End => last,
    }
}

/// The step for a scroll speed: at least one commit.
pub open spec fn step_of(speed: int) -> int {
    if speed <= 1 {
        1
    } else {
        speed
    }
}

/// Whether a scroll speed is a number of commits.
pub open spec fn valid_speed(speed: i64) -> bool {
    0 <= speed <= usize::MAX
}

impl CommitList {
    /// Number of commits that a page moves: one less than there are rows.
    pub open spec fn page(self) -> int {
        match self.current_size {
            Some(size) => if size.1 == 0 {
                0
            } else {
                size.1 - 1
            },
            None => 0,
        }
    }

    /// Where the selection goes while nothing is highlighted.
    pub open spec fn normal_target(self, scroll: ScrollType, speed: int) -> DocLine {
        DocLine::commit(
            target(scroll, self.selected(), step_of(speed), self.page(), self.last_index()),
        )
    }

    /// Number of highlighted commits.
    pub open spec fn highlight_count(self) -> int {
        match self.highlights {
            Some(highlights) => highlights@.len() as int,
            None => 0,
        }
    }

    /// Position of the selected commit among the highlighted commits, zero where it is none of
    /// them.
    pub open spec fn highlight_cursor(self) -> int {
        match self.highlighted_selection {
            Some(position) => position as int,
            None => 0,
        }
    }

    /// The position among the highlighted commits to which a move goes.
    pub open spec fn highlight_target(self, scroll: ScrollType) -> int {
        let last = if self.highlight_count() == 0 {
            0
        } else {
            self.highlight_count() - 1
        };
        match scroll {
            ScrollType::Up => clamped(self.highlight_cursor() - 1, last),
            ScrollType::Down => clamped(self.highlight_cursor() + 1, last),
            _ => self.highlight_cursor(),
        }
    }

    /// The highlighted commit to which a move goes, if it goes anywhere.
    pub open spec fn highlight_choice(self, scroll: ScrollType) -> Option<CommitId> {
        let to = self.highlight_target(scroll);
        if to != self.highlight_cursor() && to < self.highlight_count() {
            Some(self.highlights->0@[to])
        } else {
            None
        }
    }

    /// What a move among the highlighted commits makes of the list and returns.
    pub open spec fn moves_highlighted(
        self,
        scroll: ScrollType,
        after: CommitList,
        r: Result<bool, CommitListError>,
    ) -> bool {
        match self.highlight_choice(scroll) {
            None => r == Ok::<bool, CommitListError>(false) && after == self,
            Some(id) => if self.commits@.contains(id) {
                &&& r == Ok::<bool, CommitListError>(true)
                &&& after == self.with_selected(self.commits@.index_of(id))
            } else {
                &&& r == Err::<bool, CommitListError>(CommitListError::NotLoaded)
                &&& after == self
            },
        }
    }

    /// What a move through all commits makes of the list and returns.
    pub open spec fn moves_normal(
        self,
        scroll: ScrollType,
        speed: i64,
        after: CommitList,
        r: Result<bool, CommitListError>,
    ) -> bool {
        if valid_speed(speed) {
            let to = self.normal_target(scroll, speed as int);
            &&& r == Ok::<bool, CommitListError>(to != self.selection)
            &&& after == (CommitList { selection: to, ..self })
        } else {
            &&& r == Err::<bool, CommitListError>(CommitListError::ScrollSpeed)
            &&& after == self
        }
    }

    /// What a move makes of the list and returns.
    pub open spec fn moves(
        self,
        scroll: ScrollType,
        speed: i64,
        after: CommitList,
        r: Result<bool, CommitListError>,
    ) -> bool {
        if self.items.highlighting {
            self.moves_highlighted(scroll, after, r)
        } else {
            self.moves_normal(scroll, speed, after, r)
        }
    }

    /// The place `ofs` commits before `doc_line`, or the first.
    pub fn docline_saturating_sub(&self, doc_line: DocLine, ofs: usize) -> (r: DocLine)
        ensures
            r == DocLine::commit(
                if ofs <= doc_line.index() {
                    doc_line.index() - ofs
                } else {
                    0
                },
            ),
    {
        doc_line.saturating_sub(ofs)
    }

    /// The place `ofs` commits after `doc_line`, or the last index that there is.
    pub fn docline_saturating_add(&self, doc_line: DocLine, ofs: usize) -> (r: DocLine)
        ensures
            r == DocLine::commit(
                if doc_line.index() + ofs <= usize::MAX {
                    doc_line.index() + ofs
                } else {
                    usize::MAX as int
                },
            ),
    {
        doc_line.saturating_add(ofs)
    }

    /// The place `ofs` commits before the selection, or the first.
    pub fn selection_saturating_sub(&self, ofs: usize) -> (r: DocLine)
        ensures
            r == DocLine::commit(
                if ofs <= self.selected() {
                    self.selected() - ofs
                } else {
                    0
                },
            ),
    {
        self.docline_saturating_sub(self.selection, ofs)
    }

    /// The place `ofs` commits after the selection, or the last index that there is.
    pub fn selection_saturating_add(&self, ofs: usize) -> (r: DocLine)
        ensures
            r == DocLine::commit(
                if self.selected() + ofs <= usize::MAX {
                    self.selected() + ofs
                } else {
                    usize::MAX as int
                },
            ),
    {
        self.docline_saturating_add(self.selection, ofs)
    }

    /// Moves the selection: among the highlighted commits where there are any, else through all.
    /// Says whether it moved.
    pub fn move_selection(&mut self, scroll: ScrollType, speed: i64) -> (r: Result<
        bool,
        CommitListError,
    >)
        ensures
            old(self).moves(scroll, speed, *final(self), r),
            0 <= speed <= usize::MAX && !old(self).items.highlighting ==> {
                &&& scroll is Home ==> final(self).selection.commit_index.0 == 0
                &&& scroll is End ==> final(self).selection.commit_index.0 == if old(
                    self,
                ).commits@.len() == 0 {
                    0
                } else {
                    old(self).commits@.len() - 1
                }
            },
    {
        if self.items.highlighting() {
            self.move_selection_highlighting(scroll)
        } else {
            self.move_selection_normal(scroll, speed)
        }
    }

    /// Moves the selection to the highlighted commit before or behind. Says whether it moved.
    pub fn move_selection_highlighting(&mut self, scroll: ScrollType) -> (r: Result<
        bool,
        CommitListError,
    >)
        ensures
            old(self).moves_highlighted(scroll, *final(self), r),
    {
        let (current_index, selection_max) = self.highlighted_selection_info();
        let new_index: usize = match scroll {
            ScrollType::Up => current_index.saturating_sub(1),
            ScrollType::Down => current_index.saturating_add(1),
            _ => {
                return Ok(false);
            },
        };
        let last: usize = selection_max.saturating_sub(1);
        let new_index: usize = if new_index <= last {
            new_index
        } else {
            last
        };
        assert(new_index == self.highlight_target(scroll));
        if new_index == current_index {
            return Ok(false);
        }
        let new_selected_commit = match &self.highlights {
            Some(highlights) => highlights.get(new_index),
            None => None,
        };
        assert(new_selected_commit == self.highlight_choice(scroll));
        match new_selected_commit {
            Some(c) => match self.select_commit(c) {
                Ok(()) => Ok(true),
                Err(e) => Err(e),
            },
            None => Ok(false),
        }
    }

    /// Moves the selection through all commits, `speed` of them at a time. Says whether it moved.
    pub fn move_selection_normal(&mut self, scroll: ScrollType, speed: i64) -> (r: Result<
        bool,
        CommitListError,
    >)
        ensures
            old(self).moves_normal(scroll, speed, *final(self), r),
            0 <= speed <= usize::MAX ==> {
                &&& scroll is Home ==> final(self).selection.commit_index.0 == 0
                &&& scroll is End ==> final(self).selection.commit_index.0 == if old(
                    self,
                ).commits@.len() == 0 {
                    0
                } else {
                    old(self).commits@.len() - 1
                }
            },
    {
        if speed < 0 || speed as u64 > usize::MAX as u64 {
            return Err(CommitListError::ScrollSpeed);
        }
        let speed_int: usize = if speed <= 1 {
            1
        } else {
            speed as usize
        };
        let rows: u16 = match self.current_size() {
            Some(size) => size.1,
            None => 0,
        };
        let page_offset: usize = (rows as usize).saturating_sub(1);
        let new_selection = match scroll {
            ScrollType::Up => self.selection_saturating_sub(speed_int),
            ScrollType::Down => self.selection_saturating_add(speed_int),
            ScrollType::PageUp => self.selection_saturating_sub(page_offset),
            ScrollType::PageDown => self.selection_saturating_add(page_offset),
            ScrollType::Home => DocLine::at_commit(0),
            ScrollType::End => self.selection_max(),
        };
        let max = self.selection_max();
        let new_selection = if new_selection.commit_index.0 <= max.commit_index.0 {
            new_selection
        } else {
            max
        };
        assert(new_selection == self.normal_target(scroll, speed as int));
        let needs_update = !(new_selection == self.selection);
        self.selection = new_selection;
        Ok(needs_update)
    }

    /// The commit to check out: the selected loaded one.
    pub fn checkout(&self) -> (r: Option<CommitId>)
        ensures
            r == (match self.entry() {
                Some(e) => Some(e.id),
                None => None,
            }),
    {
        match self.selected_entry() {
            Some(e) => Some(e.id),
            None => None,
        }
    }

    /// Handles an event: `ev` is the key that was pressed, or nothing for any other event.
    pub fn event(&mut self, ev: Option<KeyEvent>, keys: &ListKeys, speed: i64) -> (r: Result<
        EventOutcome,
        CommitListError,
    >)
        ensures
            match (match ev {
                Some(k) => action_of(k, *keys),
                None => None,
            }) {
                None => *final(self) == *old(self) && r == Ok::<EventOutcome, CommitListError>(
                    EventOutcome { state: EventState::NotConsumed, checkout: None },
                ),
                Some(ListAction::Move(scroll)) => match r {
                    Ok(outcome) => {
                        &&& old(self).moves(
                            scroll,
                            speed,
                            *final(self),
                            Ok(outcome.state is Consumed),
                        )
                        &&& outcome.checkout is None
                    },
                    Err(e) => old(self).moves(scroll, speed, *final(self), Err(e)),
                },
                Some(ListAction::Mark) => {
                    &&& r == Ok::<EventOutcome, CommitListError>(
                        EventOutcome { state: EventState::Consumed, checkout: None },
                    )
                    &&& *final(self) == (CommitList { marked: final(self).marked, ..*old(self) })
                    &&& match old(self).entry() {
                        Some(e) => toggled(
                            old(self).marked@,
                            old(self).item_position() as usize,
                            e.id,
                            final(self).marked@,
                        ),
                        None => final(self).marked@ == old(self).marked@,
                    }
                },
                Some(ListAction::Checkout) => {
                    &&& *final(self) == *old(self)
                    &&& r == Ok::<EventOutcome, CommitListError>(
                        EventOutcome {
                            state: EventState::Consumed,
                            checkout: match old(self).entry() {
                                Some(e) => Some(e.id),
                                None => None,
                            },
                        },
                    )
                },
            },
            keys_differ(*keys) && !old(self).items.highlighting && 0 <= speed <= usize::MAX ==> {
                &&& ev == Some(keys.home) ==> final(self).selection.commit_index.0 == 0
                &&& ev == Some(keys.end) ==> final(self).selection.commit_index.0 == if old(
                    self,
                ).commits@.len() == 0 {
                    0
                } else {
                    old(self).commits@.len() - 1
                }
            },
    {
        proof {
            if keys_differ(*keys) {
                law_each_key_has_its_action(*keys);
            }
        }
        let action = match &ev {
            Some(k) => key_action(k, keys),
            None => None,
        };
        let mut checkout: Option<CommitId> = None;
        let selection_changed: bool = match action {
            Some(ListAction::Move(scroll)) => match self.move_selection(scroll, speed) {
                Ok(changed) => changed,
                Err(e) => {
                    return Err(e);
                },
            },
            Some(ListAction::Mark) => {
                self.mark();
                true
            },
            Some(ListAction::Checkout) => {
                checkout = self.checkout();
                true
            },
            None => false,
        };
        let state = if selection_changed {
            EventState::Consumed
        } else {
            EventState::NotConsumed
        };
        Ok(EventOutcome { state, checkout })
    }

    /// Adds the commands that the list offers.
    pub fn commands(&self, out: &mut Vec<CommandInfo>, _force_all: bool) -> (r: CommandBlocking)
        ensures
            r is PassingOn,
            final(out)@ == old(out)@ + seq![
                CommandInfo {
                    kind: CommandKind::Scroll,
                    enabled: self.entry() is Some,
                    available: true,
                },
                CommandInfo {
                    kind: CommandKind::Mark {
                        marked: self.entry() is Some && has_mark(
                            self.marked@,
                            self.entry()->0.id,
                        ),
                    },
                    enabled: true,
                    available: true,
                },
            ],
    {
        out.push(
            CommandInfo {
                kind: CommandKind::Scroll,
                enabled: self.selected_entry().is_some(),
                available: true,
            },
        );
        out.push(
            CommandInfo {
                kind: CommandKind::Mark { marked: self.selected_entry_marked() },
                enabled: true,
                available: true,
            },
        );
        CommandBlocking::PassingOn
    }
}

/// No move, however far, leaves the list: behind it the selection is at a commit of the list, or at
/// the beginning of an empty one.
pub proof fn law_moves_stay_inside(
    before: CommitList,
    scroll: ScrollType,
    speed: i64,
    after: CommitList,
    r: Result<bool, CommitListError>,
)
    requires
        before.commits@.len() <= usize::MAX,
        before.selected() <= before.last_index(),
        before.moves(scroll, speed, after, r),
    ensures
        after.selected() <= after.last_index(),
        after.commits == before.commits,
        before.wf() ==> after.wf(),
{
}

/// A move among the highlighted commits ends at one of them: the one before, or the one behind.
pub proof fn law_highlight_moves(
    before: CommitList,
    scroll: ScrollType,
    speed: i64,
    after: CommitList,
)
    requires
        before.items.highlighting,
        before.commits@.len() <= usize::MAX,
        before.highlights is Some ==> before.highlights->0@.no_duplicates(),
        before.highlight_count() <= usize::MAX,
        before.moves(scroll, speed, after, Ok(true)),
    ensures
        highlighted_at(after.commits@, after.highlights, after.selected()),
        after.highlighted_selection == Some(before.highlight_target(scroll) as usize),
        after.highlights == before.highlights,
        after.commits@[after.selected()]
            == before.highlights->0@[before.highlight_target(scroll)],
{
    let to = before.highlight_target(scroll);
    let highlights = before.highlights->0@;
    let id = highlights[to];
    assert(highlights.contains(id));
    assert(highlights.index_of(id) == to);
}

/// Moving to the next highlighted commit and back comes back to the same commit.
pub proof fn law_highlight_down_then_up(
    before: CommitList,
    speed: i64,
    between: CommitList,
    after: CommitList,
)
    requires
        before.items.highlighting,
        before.commits@.len() <= usize::MAX,
        before.highlights is Some,
        before.highlights->0@.no_duplicates(),
        before.highlight_count() <= usize::MAX,
        before.selected() < before.commits@.len(),
        before.highlighted_selection is Some,
        before.highlight_cursor() < before.highlight_count(),
        before.highlights->0@[before.highlight_cursor()] == before.commits@[before.selected()],
        before.moves(ScrollType::Down, speed, between, Ok(true)),
        between.moves(ScrollType::Up, speed, after, Ok(true)),
    ensures
        after.commits@[after.selected()] == before.commits@[before.selected()],
        after.highlighted_selection == before.highlighted_selection,
{
    law_highlight_moves(before, ScrollType::Down, speed, between);
    law_highlight_moves(between, ScrollType::Up, speed, after);
}

/// A move that did not move, or failed, leaves the list as it was.
pub proof fn law_no_move_no_change(
    before: CommitList,
    scroll: ScrollType,
    speed: i64,
    after: CommitList,
    r: Result<bool, CommitListError>,
)
    requires
        before.moves(scroll, speed, after, r),
        r != Ok::<bool, CommitListError>(true),
    ensures
        after == before,
{
}

/// While nothing is highlighted, moving down and then up by the same speed comes back to the same
/// commit, unless the end of the list was in the way.
pub proof fn law_down_then_up(
    before: CommitList,
    speed: i64,
    between: CommitList,
    r1: Result<bool, CommitListError>,
    after: CommitList,
    r2: Result<bool, CommitListError>,
)
    requires
        !before.items.highlighting,
        valid_speed(speed),
        before.commits@.len() <= usize::MAX,
        before.selected() + step_of(speed as int) <= before.last_index(),
        before.moves(ScrollType::Down, speed, between, r1),
        between.moves(ScrollType::Up, speed, after, r2),
    ensures
        after.selected() == before.selected(),
        after.commits == before.commits,
{
}

/// A commit that was selected is the selected commit, whatever was selected before.
pub proof fn law_selected_commit(before: CommitList, id: CommitId, after: CommitList)
    requires
        before.commits@.len() <= usize::MAX,
        before.commits@.contains(id),
        after == before.with_selected(before.commits@.index_of(id)),
    ensures
        0 <= after.selected() < after.commits@.len(),
        after.commits@[after.selected()] == id,
{
}

/// A key asks for what the first binding that it belongs to asks for. A key without a binding asks
/// for nothing.
pub proof fn law_first_binding_wins(k: KeyEvent, keys: ListKeys)
    ensures
        forall|i: int|
            0 <= i < bindings(keys).len() && (#[trigger] bindings(keys)[i]).0 == k && (forall|
                j: int,
            |
                0 <= j < i ==> (#[trigger] bindings(keys)[j]).0 != k) ==> action_of(k, keys)
                == Some(bindings(keys)[i].1),
        (forall|i: int| 0 <= i < bindings(keys).len() ==> (#[trigger] bindings(keys)[i]).0 != k)
            <==> action_of(k, keys) is None,
{
    let b = bindings(keys);
    assert(b[0].0 == keys.move_up && b[1].0 == keys.move_down);
    assert(b[2].0 == keys.shift_up && b[3].0 == keys.home);
    assert(b[4].0 == keys.shift_down && b[5].0 == keys.end);
    assert(b[6].0 == keys.page_up && b[7].0 == keys.page_down);
    assert(b[8].0 == keys.log_mark_commit && b[9].0 == keys.log_checkout_commit);
}

/// Where every key is another, each of them asks for its own action, and any other key for none.
pub proof fn law_each_key_has_its_action(keys: ListKeys)
    requires
        keys_differ(keys),
    ensures
        action_of(keys.move_up, keys) == Some(ListAction::Move(ScrollType::Up)),
        action_of(keys.move_down, keys) == Some(ListAction::Move(ScrollType::Down)),
        action_of(keys.shift_up, keys) == Some(ListAction::Move(ScrollType::Home)),
        action_of(keys.home, keys) == Some(ListAction::Move(ScrollType::Home)),
        action_of(keys.shift_down, keys) == Some(ListAction::Move(ScrollType::End)),
        action_of(keys.end, keys) == Some(ListAction::Move(ScrollType::End)),
        action_of(keys.page_up, keys) == Some(ListAction::Move(ScrollType::PageUp)),
        action_of(keys.page_down, keys) == Some(ListAction::Move(ScrollType::PageDown)),
        action_of(keys.log_mark_commit, keys) == Some(ListAction::Mark),
        action_of(keys.log_checkout_commit, keys) == Some(ListAction::Checkout),
{
    let s = seq![
        keys.move_up,
        keys.move_down,
        keys.shift_up,
        keys.home,
        keys.shift_down,
        keys.end,
        keys.page_up,
        keys.page_down,
        keys.log_mark_commit,
        keys.log_checkout_commit,
    ];
    assert(s[0] == keys.move_up && s[1] == keys.move_down);
    assert(s[2] == keys.shift_up && s[3] == keys.home);
    assert(s[4] == keys.shift_down && s[5] == keys.end);
    assert(s[6] == keys.page_up && s[7] == keys.page_down);
    assert(s[8] == keys.log_mark_commit && s[9] == keys.log_checkout_commit);
}

/// Where every key is another, the keys for the two ends of the list select its first and its last
/// commit.
pub proof fn law_end_keys_select_the_ends(
    before: CommitList,
    keys: ListKeys,
    to_last: bool,
    shifted: bool,
    speed: i64,
    after: CommitList,
    r: Result<bool, CommitListError>,
)
    requires
        keys_differ(keys),
        !before.items.highlighting,
        0 <= speed <= usize::MAX,
        0 < before.commits@.len() <= usize::MAX,
        ({
            let k = if to_last {
                if shifted { keys.shift_down } else { keys.end }
            } else {
                if shifted { keys.shift_up } else { keys.home }
            };
            match action_of(k, keys) {
                Some(ListAction::Move(scroll)) => before.moves(scroll, speed, after, r),
                _ => after == before,
            }
        }),
    ensures
        after.commits == before.commits,
        after.selection.commit_index.0 == if to_last {
            before.commits@.len() - 1
        } else {
            0
        },
        r == Ok::<bool, CommitListError>(after.selection != before.selection),
{
    law_each_key_has_its_action(keys);
}

/// While nothing is highlighted, a move goes up or down by the scroll speed, but by one commit at
/// least, by one row less than a page, or to one of the ends, and never further than to the ends.
/// It tells whether the selection changed, and changes nothing else. A speed that is no number of
/// commits is refused.
pub proof fn law_normal_moves(
    before: CommitList,
    scroll: ScrollType,
    speed: i64,
    after: CommitList,
    r: Result<bool, CommitListError>,
)
    requires
        !before.items.highlighting,
        before.commits@.len() <= usize::MAX,
        before.moves(scroll, speed, after, r),
    ensures
        speed < 0 || speed > usize::MAX ==> r is Err && r->Err_0 is ScrollSpeed && after == before,
        0 <= speed <= usize::MAX ==> ({
            let from = before.selection.commit_index.0 as int;
            let last = if before.commits@.len() == 0 { 0 } else { before.commits@.len() - 1 };
            let step = if speed == 0 { 1 } else { speed as int };
            let page = match before.current_size {
                Some((_, rows)) => if rows == 0 { 0 } else { rows - 1 },
                None => 0,
            };
            let wanted = match scroll {
                ScrollType::Up => from - step,
                ScrollType::Down => from + step,
                ScrollType::PageUp => from - page,
                ScrollType::PageDown => from + page,
                ScrollType::Home => 0,
                ScrollType::End => last,
            };
            let to = after.selection.commit_index.0;
            &&& 0 <= wanted <= last ==> to == wanted
            &&& wanted < 0 ==> to == 0
            &&& wanted > last ==> to == last
            &&& after.selection.line_offset is None
            &&& after == (CommitList { selection: after.selection, ..before })
            &&& r == Ok::<bool, CommitListError>(after.selection != before.selection)
        }),
{
}

/// While commits are highlighted, a move down goes to the next of them and a move up to the one
/// before, where a selection that is none of them counts as the first. It stays where there is no
/// such commit, as any other move does, and is refused where the commit is not in the list.
pub proof fn law_highlight_steps(
    before: CommitList,
    scroll: ScrollType,
    speed: i64,
    after: CommitList,
    r: Result<bool, CommitListError>,
)
    requires
        before.items.highlighting,
        before.highlights is Some,
        before.highlights->0@.no_duplicates(),
        0 < before.highlights->0@.len() <= usize::MAX,
        before.commits@.len() <= usize::MAX,
        before.highlighted_selection is Some ==> before.highlighted_selection->0
            < before.highlights->0@.len(),
        before.moves(scroll, speed, after, r),
    ensures
        ({
            let highlights = before.highlights->0@;
            let cursor = match before.highlighted_selection {
                Some(position) => position as int,
                None => 0,
            };
            let wanted = match scroll {
                ScrollType::Up => cursor - 1,
                ScrollType::Down => cursor + 1,
                _ => -1,
            };
            if 0 <= wanted < highlights.len() {
                if before.commits@.contains(highlights[wanted]) {
                    &&& r == Ok::<bool, CommitListError>(true)
                    &&& before.commits@[after.selection.commit_index.0 as int]
                        == highlights[wanted]
                    &&& after.highlighted_selection == Some(wanted as usize)
                    &&& after == (CommitList {
                        selection: after.selection,
                        highlighted_selection: after.highlighted_selection,
                        ..before
                    })
                } else {
                    r == Err::<bool, CommitListError>(CommitListError::NotLoaded) && after == before
                }
            } else {
                r == Ok::<bool, CommitListError>(false) && after == before
            }
        }),
{
    if r == Ok::<bool, CommitListError>(true) {
        law_highlight_moves(before, scroll, speed, after);
    }
}

/// The commit to check out is the one that is selected in the loaded window.
pub proof fn law_checkout(list: &CommitList, start: usize, r: Option<CommitId>)
    requires
        list.items.index_offset == Some(start),
        start <= list.selection.commit_index.0,
        call_ensures(CommitList::checkout, (list,), r),
    ensures
        ({
            let position = list.selection.commit_index.0 - start;
            &&& r is Some <==> position < list.items.items@.len()
            &&& r is Some ==> r->0 == list.items.items@[position].id
        }),
{
}

/// Going up or down by a number of commits goes by just as many, but not past the first commit or
/// the greatest index.
pub proof fn law_saturating_moves(
    list: &CommitList,
    place: DocLine,
    ofs: usize,
    up: DocLine,
    down: DocLine,
)
    requires
        call_ensures(CommitList::docline_saturating_sub, (list, place, ofs), up),
        call_ensures(CommitList::docline_saturating_add, (list, place, ofs), down),
    ensures
        place.commit_index.0 >= ofs ==> up.commit_index.0 + ofs == place.commit_index.0,
        place.commit_index.0 < ofs ==> up.commit_index.0 == 0,
        place.commit_index.0 + ofs <= usize::MAX ==> down.commit_index.0 == place.commit_index.0
            + ofs,
        place.commit_index.0 + ofs > usize::MAX ==> down.commit_index.0 == usize::MAX,
        up.line_offset is None,
        down.line_offset is None,
{
}

/// Where every key is another and nothing is highlighted, the keys move the selection as they are
/// bound: up or down by the speed, by a page, or to one of the ends.
pub proof fn law_keys_move_the_selection(
    before: CommitList,
    k: KeyEvent,
    keys: &ListKeys,
    speed: i64,
    columns: u16,
    rows: u16,
    after: CommitList,
    r: Result<EventOutcome, CommitListError>,
)
    requires
        keys_differ(*keys),
        !before.items.highlighting,
        1 <= speed <= usize::MAX,
        0 < before.commits@.len() <= usize::MAX,
        before.selection.commit_index.0 < before.commits@.len(),
        before.current_size == Some((columns, rows)),
        1 <= rows,
        exists|m: &mut CommitList|
            *m == before && *final(m) == after && #[trigger] call_ensures(
                CommitList::event,
                (m, Some(k), keys, speed),
                r,
            ),
    ensures
        ({
            let from = before.selection.commit_index.0 as int;
            let to = after.selection.commit_index.0 as int;
            let last = before.commits@.len() - 1;
            let page = rows - 1;
            &&& k == keys.home || k == keys.shift_up ==> to == 0
            &&& k == keys.end || k == keys.shift_down ==> to == last
            &&& k == keys.move_up ==> to == if speed <= from { from - speed } else { 0 }
            &&& k == keys.move_down ==> to == if from + speed <= last { from + speed } else { last }
            &&& k == keys.page_up ==> to == if page <= from { from - page } else { 0 }
            &&& k == keys.page_down ==> to == if from + page <= last { from + page } else { last }
        }),
{
    law_each_key_has_its_action(*keys);
}

/// Where every key is another, one key toggles the mark of the selected commit and of no other, and
/// one asks for its checkout. Neither does anything else.
pub proof fn law_keys_mark_and_check_out(
    before: CommitList,
    k: KeyEvent,
    keys: &ListKeys,
    speed: i64,
    after: CommitList,
    r: Result<EventOutcome, CommitListError>,
    other: CommitId,
)
    requires
        keys_differ(*keys),
        before.entry() is Some,
        exists|m: &mut CommitList|
            *m == before && *final(m) == after && #[trigger] call_ensures(
                CommitList::event,
                (m, Some(k), keys, speed),
                r,
            ),
        k == keys.log_mark_commit || k == keys.log_checkout_commit,
    ensures
        r is Ok,
        r->Ok_0.state is Consumed,
        after.selection == before.selection,
        after.commits == before.commits,
        k == keys.log_mark_commit ==> {
            let id = before.entry()->0.id;
            &&& r->Ok_0.checkout is None
            &&& has_mark(after.marked@, id) == !has_mark(before.marked@, id)
            &&& other != id ==> has_mark(after.marked@, other) == has_mark(before.marked@, other)
        },
        k == keys.log_checkout_commit ==> r->Ok_0.checkout == Some(before.entry()->0.id) && after
            == before,
{
    law_each_key_has_its_action(*keys);
    if k == keys.log_mark_commit {
        law_toggle_one_mark(
            before.marked@,
            before.item_position() as usize,
            before.entry()->0.id,
            after.marked@,
        );
    }
}

/// A key without a binding is left to others, and changes nothing.
pub proof fn law_other_keys_are_passed_on(
    before: CommitList,
    k: KeyEvent,
    keys: &ListKeys,
    speed: i64,
    after: CommitList,
    r: Result<EventOutcome, CommitListError>,
)
    requires
        exists|m: &mut CommitList|
            *m == before && *final(m) == after && #[trigger] call_ensures(
                CommitList::event,
                (m, Some(k), keys, speed),
                r,
            ),
        k != keys.move_up,
        k != keys.move_down,
        k != keys.shift_up,
        k != keys.home,
        k != keys.shift_down,
        k != keys.end,
        k != keys.page_up,
        k != keys.page_down,
        k != keys.log_mark_commit,
        k != keys.log_checkout_commit,
    ensures
        r is Ok,
        r->Ok_0.state is NotConsumed,
        r->Ok_0.checkout is None,
        after == before,
{
}

/// Scrolling is offered where a loaded commit is selected, and the offer to mark says whether that
/// commit is marked. What was offered before stays in front.
pub proof fn law_commands(
    list: &CommitList,
    before: Vec<CommandInfo>,
    after: Vec<CommandInfo>,
    all: bool,
    r: CommandBlocking,
    marked: Option<bool>,
)
    requires
        exists|out: &mut Vec<CommandInfo>|
            *out == before && *final(out) == after && #[trigger] call_ensures(
                CommitList::commands,
                (list, out, all),
                r,
            ),
        list.entry() is Some,
        call_ensures(CommitList::is_marked, (list, &list.entry()->0.id), marked),
    ensures
        r is PassingOn,
        after@.len() == before@.len() + 2,
        after@.take(before@.len() as int) == before@,
        after@[before@.len() as int].kind is Scroll,
        after@[before@.len() as int].enabled,
        after@[before@.len() as int + 1].kind == (CommandKind::Mark {
            marked: marked == Some(true),
        }),
        after@[before@.len() as int + 1].enabled,
{
    assert(after@.take(before@.len() as int) =~= before@);
    assert(list.marked@.len() == 0 ==> !has_mark(list.marked@, list.entry()->0.id));
}

} // verus!
