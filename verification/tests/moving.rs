use std::rc::Rc;

use commitlog::commit_id::CommitId;
use commitlog::commit_list::{CommitList, CommitListError};
use commitlog::commit_set::CommitSet;
use commitlog::doc_line::DocLine;
use commitlog::log_items::CommitInfo;
use commitlog::navigation::{key_match, CommandBlocking, CommandKind, EventOutcome, EventState};
use commitlog::navigation::{KeyCode, KeyEvent, ListKeys, ScrollType};
use commitlog::view::calc_scroll_top;

fn id(n: u32) -> CommitId {
    CommitId { high: 0, low: n }
}

/// A list of `count` commits, all of them loaded.
fn list(count: u32) -> CommitList {
    let mut list = CommitList::new("log");
    let request = list.refresh_extend_data((0..count).map(id).collect()).unwrap();
    let infos: Vec<CommitInfo> = request
        .ids
        .iter()
        .map(|id| CommitInfo {
            message: String::new(),
            time: 0,
            author: String::new(),
            id: *id,
            parents: Vec::new(),
        })
        .collect();
    list.set_fetched(request.start, Some(infos));
    list
}

fn at(list: &CommitList) -> usize {
    list.selection().commit_index.into()
}

#[test]
fn moves_stop_at_the_ends() {
    let mut list = list(5);
    assert_eq!(list.move_selection(ScrollType::Up, 0), Ok(false));
    assert_eq!(list.move_selection(ScrollType::Down, 0), Ok(true));
    assert_eq!(at(&list), 1);
    assert_eq!(list.move_selection(ScrollType::Down, 3), Ok(true));
    assert_eq!(at(&list), 4);
    assert_eq!(list.move_selection(ScrollType::Down, 3), Ok(false));
    assert_eq!(list.move_selection(ScrollType::Up, 3), Ok(true));
    assert_eq!(at(&list), 1);
    assert_eq!(list.move_selection(ScrollType::End, 1), Ok(true));
    assert_eq!(at(&list), 4);
    assert_eq!(list.move_selection(ScrollType::Home, 1), Ok(true));
    assert_eq!(at(&list), 0);
}

#[test]
fn moves_in_an_empty_list() {
    let mut list = CommitList::new("log");
    for scroll in [ScrollType::Up, ScrollType::Down, ScrollType::Home, ScrollType::End] {
        assert_eq!(list.move_selection(scroll, 1), Ok(false));
    }
}

#[test]
fn pages_have_the_height_of_the_view() {
    let mut list = list(100);
    assert_eq!(list.move_selection(ScrollType::PageDown, 1), Ok(false));
    let plan = list.draw(40, 12);
    assert_eq!((plan.width, plan.height), (38, 10));
    list.move_selection(ScrollType::PageDown, 1).unwrap();
    assert_eq!(at(&list), 9);
    list.move_selection(ScrollType::PageUp, 1).unwrap();
    assert_eq!(at(&list), 0);
}

#[test]
fn down_and_up_again() {
    let mut list = list(50);
    list.move_selection(ScrollType::Down, 7).unwrap();
    list.move_selection(ScrollType::Down, 9).unwrap();
    list.move_selection(ScrollType::Up, 9).unwrap();
    assert_eq!(at(&list), 7);
}

#[test]
fn a_negative_speed_is_refused() {
    let mut list = list(5);
    assert_eq!(list.move_selection(ScrollType::Down, -1), Err(CommitListError::ScrollSpeed));
    assert_eq!(at(&list), 0);
    assert_eq!(
        CommitListError::ScrollSpeed.message(),
        "out of range integral type conversion attempted"
    );
}

fn highlight(list: &mut CommitList, ids: &[u32]) {
    let mut set = CommitSet::new();
    for n in ids {
        set.insert(id(*n));
    }
    let request = list.set_highlighting(Some(Rc::new(set))).unwrap();
    let infos: Vec<CommitInfo> = request
        .ids
        .iter()
        .map(|id| CommitInfo {
            message: String::new(),
            time: 0,
            author: String::new(),
            id: *id,
            parents: Vec::new(),
        })
        .collect();
    list.set_fetched(request.start, Some(infos));
}

#[test]
fn moves_among_highlights() {
    let mut list = list(20);
    highlight(&mut list, &[3, 9, 15]);
    assert_eq!(at(&list), 3);
    assert_eq!(list.move_selection(ScrollType::Down, 5), Ok(true));
    assert_eq!(at(&list), 9);
    assert_eq!(list.highlighted_selection, Some(1));
    assert_eq!(list.move_selection(ScrollType::Down, 5), Ok(true));
    assert_eq!(list.move_selection(ScrollType::Down, 5), Ok(false));
    assert_eq!(at(&list), 15);
    assert_eq!(list.move_selection(ScrollType::Up, 5), Ok(true));
    assert_eq!(at(&list), 9);
    assert_eq!(list.move_selection(ScrollType::Home, 5), Ok(false));
    assert_eq!(at(&list), 9);
}

#[test]
fn to_the_next_highlight_and_back() {
    let mut list = list(20);
    highlight(&mut list, &[3, 9, 15]);
    for _ in 0..2 {
        let before = (at(&list), list.highlighted_selection);
        assert_eq!(list.move_selection(ScrollType::Down, 1), Ok(true));
        assert_eq!(list.move_selection(ScrollType::Up, 1), Ok(true));
        assert_eq!((at(&list), list.highlighted_selection), before);
        list.move_selection(ScrollType::Down, 1).unwrap();
    }
}

#[test]
fn a_highlight_outside_the_list_cannot_be_selected() {
    let mut list = list(5);
    highlight(&mut list, &[1, 70]);
    assert_eq!(list.move_selection(ScrollType::Down, 1), Err(CommitListError::NotLoaded));
    assert_eq!(at(&list), 1);
}

fn key(c: char) -> KeyEvent {
    KeyEvent { code: KeyCode::Char(c), modifiers: 0 }
}

fn keys() -> ListKeys {
    let plain = |code: KeyCode| KeyEvent { code, modifiers: 0 };
    ListKeys {
        move_up: plain(KeyCode::Up),
        move_down: plain(KeyCode::Down),
        shift_up: KeyEvent { code: KeyCode::Up, modifiers: 1 },
        home: plain(KeyCode::Home),
        shift_down: KeyEvent { code: KeyCode::Down, modifiers: 1 },
        end: plain(KeyCode::End),
        page_up: plain(KeyCode::PageUp),
        page_down: plain(KeyCode::PageDown),
        log_mark_commit: key(' '),
        log_checkout_commit: key('C'),
    }
}

fn outcome(consumed: bool, checkout: Option<CommitId>) -> EventOutcome {
    let state = if consumed { EventState::Consumed } else { EventState::NotConsumed };
    EventOutcome { state, checkout }
}

#[test]
fn keys_and_what_they_do() {
    let keys = keys();
    let mut list = list(30);
    list.draw(80, 7);
    assert_eq!(list.event(Some(keys.move_down), &keys, 2), Ok(outcome(true, None)));
    assert_eq!(at(&list), 2);
    assert_eq!(list.event(Some(keys.page_down), &keys, 2), Ok(outcome(true, None)));
    assert_eq!(at(&list), 6);
    assert_eq!(list.event(Some(keys.page_up), &keys, 2), Ok(outcome(true, None)));
    assert_eq!(list.event(Some(keys.move_up), &keys, 1), Ok(outcome(true, None)));
    assert_eq!(at(&list), 1);
    assert_eq!(list.event(Some(keys.shift_down), &keys, 1), Ok(outcome(true, None)));
    assert_eq!(at(&list), 29);
    assert_eq!(list.event(Some(keys.end), &keys, 1), Ok(outcome(false, None)));
    assert_eq!(list.event(Some(keys.shift_up), &keys, 1), Ok(outcome(true, None)));
    assert_eq!(list.event(Some(keys.home), &keys, 1), Ok(outcome(false, None)));
    assert_eq!(
        list.event(Some(keys.log_checkout_commit), &keys, 1),
        Ok(outcome(true, Some(id(0))))
    );
    assert_eq!(list.event(Some(key('x')), &keys, 1), Ok(outcome(false, None)));
    assert_eq!(list.event(None, &keys, 1), Ok(outcome(false, None)));
    assert_eq!(
        list.event(Some(keys.move_down), &keys, -1),
        Err(CommitListError::ScrollSpeed)
    );
    assert!(key_match(&key('a'), key('a')));
    assert!(!key_match(&key('a'), KeyEvent { code: KeyCode::Char('a'), modifiers: 1 }));
}

#[test]
fn marks_are_toggled_and_ordered() {
    let keys = keys();
    let mut list = list(10);
    let mark = |list: &mut CommitList, n: u32| {
        list.select_commit(id(n)).unwrap();
        assert_eq!(list.event(Some(keys.log_mark_commit), &keys, 1), Ok(outcome(true, None)));
    };
    assert_eq!(list.is_marked(&id(3)), None);
    mark(&mut list, 6);
    mark(&mut list, 2);
    mark(&mut list, 4);
    assert_eq!(list.marked_commits(), vec![id(2), id(4), id(6)]);
    assert_eq!(list.marked_count(), 3);
    assert!(list.selected_entry_marked());
    assert_eq!(list.is_marked(&id(3)), Some(false));
    assert_eq!(list.is_marked(&id(6)), Some(true));
    mark(&mut list, 4);
    assert_eq!(list.marked_commits(), vec![id(2), id(6)]);
    assert!(!list.selected_entry_marked());
    mark(&mut list, 4);
    assert_eq!(list.marked_commits(), vec![id(2), id(4), id(6)]);
    list.clear_marked();
    assert_eq!(list.marked_count(), 0);
}

#[test]
fn marking_nothing_is_consumed_all_the_same() {
    let keys = keys();
    let mut list = CommitList::new("log");
    assert_eq!(list.event(Some(keys.log_mark_commit), &keys, 1), Ok(outcome(true, None)));
    assert_eq!(list.marked_count(), 0);
    assert_eq!(list.event(Some(keys.log_checkout_commit), &keys, 1), Ok(outcome(true, None)));
}

#[test]
fn commands_that_are_offered() {
    let mut out = Vec::new();
    let mut list = list(3);
    assert_eq!(list.commands(&mut out, false), CommandBlocking::PassingOn);
    assert_eq!(out.len(), 2);
    assert_eq!(out[0].kind, CommandKind::Scroll);
    assert!(out[0].enabled && out[0].available);
    assert_eq!(out[1].kind, CommandKind::Mark { marked: false });
    list.mark();
    list.commands(&mut out, true);
    assert_eq!(out[3].kind, CommandKind::Mark { marked: true });
    CommitList::new("log").commands(&mut out, false);
    assert!(!out[4].enabled && out[5].enabled);
}

#[test]
fn scrolling_follows_the_selection() {
    assert_eq!(calc_scroll_top(5, 0, 9), 0);
    assert_eq!(calc_scroll_top(0, 10, 9), 0);
    assert_eq!(calc_scroll_top(0, 10, 10), 1);
    assert_eq!(calc_scroll_top(7, 10, 3), 3);
    assert_eq!(calc_scroll_top(3, 10, 7), 3);
    assert_eq!(calc_scroll_top(usize::MAX, 3, usize::MAX), usize::MAX);
    for top in 0..12 {
        for height in 1..6 {
            for selection in 0..12 {
                let moved = calc_scroll_top(top, height, selection);
                assert!(moved <= selection && selection < moved + height);
                assert_eq!(calc_scroll_top(moved, height, selection), moved);
            }
        }
    }
}

#[test]
fn drawing_scrolls_and_tells_where_it_is() {
    let mut list = list(30);
    list.select_commit(id(20)).unwrap();
    let plan = list.draw(60, 12);
    assert_eq!(plan.title, "log 10/30");
    assert_eq!(plan.scroll_max, 29);
    assert_eq!(plan.scroll_position, 20);
    assert_eq!(list.scroll_top, DocLine::at_commit(11));
    assert_eq!(list.current_size(), Some((58, 10)));
    let plan = list.draw(1, 1);
    assert_eq!((plan.width, plan.height), (0, 0));
    assert_eq!(list.scroll_top, DocLine::at_commit(0));
}
