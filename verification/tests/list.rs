use std::rc::Rc;

use commitlog::branch::{BranchDetails, BranchInfo, LocalBranch, Tag, Tags};
use commitlog::commit_id::CommitId;
use commitlog::commit_list::{CommitList, CommitListError, FetchRequest, SLICE_SIZE};
use commitlog::commit_map::CommitMap;
use commitlog::commit_set::CommitSet;
use commitlog::doc_line::{CommitIndex, DocLine};
use commitlog::log_items::CommitInfo;

fn id(n: usize) -> CommitId {
    CommitId { high: 7, low: n as u32 }
}

fn set(ids: &[usize]) -> CommitSet {
    let mut set = CommitSet::new();
    for n in ids {
        set.insert(id(*n));
    }
    set
}

fn counting(count: usize) -> Vec<CommitId> {
    (0..count).map(id).collect()
}

/// What a repository tells of the commits that were asked for.
fn infos(request: &FetchRequest) -> Vec<CommitInfo> {
    request
        .ids
        .iter()
        .map(|id| CommitInfo {
            message: format!("message {}", id.low),
            time: i64::from(id.low),
            author: "author".to_string(),
            id: *id,
            parents: Vec::new(),
        })
        .collect()
}

fn load(list: &mut CommitList, request: Option<FetchRequest>) {
    if let Some(request) = request {
        let found = infos(&request);
        list.set_fetched(request.start, Some(found));
    }
}

fn loaded(count: usize) -> CommitList {
    let mut list = CommitList::new("log");
    let request = list.refresh_extend_data(counting(count));
    load(&mut list, request);
    list
}

#[test]
fn a_set_keeps_its_order() {
    let mut commits = set(&[5, 3, 9]);
    assert!(!commits.insert(id(3)));
    assert!(commits.insert(id(1)));
    assert_eq!(commits.to_vec(), vec![id(5), id(3), id(9), id(1)]);
    assert_eq!(commits.len(), 4);
    assert!(!commits.is_empty());
    assert_eq!(commits.get(2), Some(id(9)));
    assert_eq!(commits.get(4), None);
    assert_eq!(commits.get_index_of(&id(9)), Some(2));
    assert_eq!(commits.get_index_of(&id(2)), None);
    assert!(commits.contains(&id(5)) && !commits.contains(&id(6)));
    assert_eq!(commits.range(1, 2), vec![id(3), id(9)]);
    assert_eq!(commits.range(3, 9), vec![id(1)]);
    assert_eq!(commits.range(9, 1), vec![]);
    commits.extend(&vec![id(9), id(8), id(8)]);
    assert_eq!(commits.to_vec(), vec![id(5), id(3), id(9), id(1), id(8)]);
    assert!(set(&[1, 2]).same_commits(&set(&[2, 1])));
    assert!(!set(&[1, 2]).same_commits(&set(&[2])));
    commits.clear();
    assert!(commits.is_empty());
}

#[test]
fn a_map_groups_by_commit() {
    let mut map: CommitMap<u8> = CommitMap::new();
    map.push(id(2), 20);
    map.push(id(1), 10);
    map.push(id(2), 21);
    assert_eq!(map.get(&id(2)), Some(&vec![20, 21]));
    assert_eq!(map.get(&id(1)), Some(&vec![10]));
    assert_eq!(map.get(&id(3)), None);
    map.clear();
    assert_eq!(map.get(&id(1)), None);
}

#[test]
fn a_new_list_is_empty() {
    let list = CommitList::new("log");
    assert_eq!(list.title, "log");
    assert_eq!(list.selection(), DocLine::at_commit(0));
    assert_eq!(list.current_size(), None);
    assert!(list.tags().is_none());
    assert!(list.selected_entry().is_none());
    assert!(list.copy_items().is_empty());
    assert_eq!(list.checkout(), None);
}

#[test]
fn extending_asks_for_the_window_at_the_selection() {
    let mut list = CommitList::new("log");
    let request = list.refresh_extend_data(counting(3000)).unwrap();
    assert_eq!(request.start, 0);
    assert_eq!(request.ids.len(), SLICE_SIZE);
    assert_eq!(request.width, 100);
    assert_eq!(list.copy_items(), counting(3000));
    list.set_fetched(0, Some(infos(&request)));
    assert!(list.fetch_commits(false).is_none());
    assert!(list.refresh_extend_data(vec![]).is_none());

    list.select_commit(id(2000)).unwrap();
    list.current_size = Some((80, 24));
    let request = list.fetch_commits(false).unwrap();
    assert_eq!(request.start, 1400);
    assert_eq!(request.ids[0], id(1400));
    assert_eq!(request.ids.len(), 1200);
    assert_eq!(request.width, 80);
}

/// What was asked for settles the list, and has the selected commit.
#[test]
fn loading_settles() {
    for selected in [0, 1, 599, 600, 601, 1999, 2999] {
        let mut list = loaded(3000);
        list.select_commit(id(selected)).unwrap();
        let request = list.fetch_commits(true);
        load(&mut list, request);
        assert!(list.fetch_commits(false).is_none());
        assert!(list.is_list_in_sync());
        assert_eq!(list.selected_entry().unwrap().id, id(selected));
        assert_eq!(list.selected_commit_id(), id(selected));
    }
}

/// A window that begins behind the last commit is of no use, but does no harm.
#[test]
fn a_window_behind_the_list() {
    let mut list = loaded(10);
    list.set_fetched(50, Some(infos(&FetchRequest { start: 50, ids: counting(3), width: 9 })));
    let request = list.fetch_commits(false).unwrap();
    assert_eq!(request.start, 0);
    assert!(list.refresh_extend_data(vec![id(10)]).is_some());
    assert!(list.set_highlighting(Some(Rc::new(set(&[4])))).is_some());
    assert_eq!(list.selected_commit_id(), id(4));
}

#[test]
fn a_failed_load_changes_nothing() {
    let mut list = loaded(10);
    list.set_fetched(3, None);
    assert_eq!(list.items.index_offset(), 0);
    assert_eq!(list.items.items.len(), 10);
}

#[test]
fn new_commits_forget_what_was_loaded() {
    let mut list = loaded(10);
    assert!(list.set_commits(set(&[9, 8, 7, 6, 5, 4, 3, 2, 1, 0])).is_none());
    assert_eq!(list.items.items.len(), 10);
    let request = list.set_commits(set(&[3, 2, 1])).unwrap();
    assert_eq!(request.ids, vec![id(3), id(2), id(1)]);
    assert!(list.items.items.is_empty());
    assert_eq!(list.items.index_offset_raw(), None);
    list.clear();
    assert!(list.copy_items().is_empty());
}

#[test]
fn data_is_needed_near_the_edges_of_the_window() {
    let mut list = loaded(3000);
    let needs = |list: &CommitList, n: usize| list.needs_data(CommitIndex(n), CommitIndex(2999));
    assert!(!needs(&list, 0));
    assert!(!needs(&list, 1000));
    assert!(needs(&list, 1150));
    assert!(needs(&list, 2500));
    list.select_commit(id(1150)).unwrap();
    assert!(list.refresh_extend_data(vec![]).is_some());
}

#[test]
fn selecting_commits() {
    let mut list = loaded(10);
    assert_eq!(list.select_commit(id(4)), Ok(()));
    assert_eq!(list.selected_commit_id(), id(4));
    assert_eq!(list.select_commit(id(99)), Err(CommitListError::NotLoaded));
    assert_eq!(list.selected_commit_id(), id(4));
    assert_eq!(
        CommitListError::NotLoaded.message(),
        "Could not select commit. It might not be loaded yet or it might be on a different branch."
    );
    assert_eq!(list.checkout(), Some(id(4)));
}

#[test]
fn highlighting_selects_the_nearest() {
    let mut list = loaded(20);
    list.select_commit(id(10)).unwrap();
    let request = list.set_highlighting(Some(Rc::new(set(&[2, 13, 8]))));
    assert_eq!(list.selection(), DocLine::at_commit(8));
    assert_eq!(list.highlighted_selection_info(), (2, 3));
    load(&mut list, request);
    assert!(list.items.highlighting());
    assert!(list.items.get(13).unwrap().highlighted);
    assert!(!list.items.get(12).unwrap().highlighted);
    // Of two that are equally near, the one behind is taken.
    list.select_commit(id(10)).unwrap();
    list.set_highlighting(Some(Rc::new(set(&[7, 13]))));
    assert_eq!(list.selection(), DocLine::at_commit(13));
    assert!(list.selection_highlighted());
    // Highlights that are not in the list do not move the selection.
    list.set_highlighting(Some(Rc::new(set(&[77]))));
    assert_eq!(list.selection(), DocLine::at_commit(13));
    assert_eq!(list.highlighted_selection, None);
    // No highlights are none at all.
    list.set_highlighting(Some(Rc::new(CommitSet::new())));
    assert!(list.highlights.is_none());
    assert_eq!(list.highlighted_selection_info(), (0, 0));
}

fn branch(name: &str, top: usize) -> BranchInfo {
    BranchInfo {
        name: name.to_string(),
        reference: format!("refs/heads/{name}"),
        top_commit: id(top),
        details: BranchDetails::Local(LocalBranch { upstream: None }),
    }
}

#[test]
fn branches_and_tags() {
    let mut list = loaded(5);
    list.set_local_branches(vec![branch("a", 1), branch("b", 2), branch("c", 1)]);
    let names: Vec<&str> =
        list.local_branches.get(&id(1)).unwrap().iter().map(|b| b.name.as_str()).collect();
    assert_eq!(names, vec!["a", "c"]);
    list.set_local_branches(vec![]);
    assert!(list.local_branches.get(&id(1)).is_none());
    list.set_remote_branches(vec![branch("r", 4)]);
    assert_eq!(list.remote_branches.get(&id(4)).unwrap().len(), 1);
    let mut tags: Tags = CommitMap::new();
    tags.push(id(3), Tag { name: "v1".to_string() });
    list.set_tags(tags);
    assert_eq!(list.tags().unwrap().get(&id(3)).unwrap()[0].name, "v1");
}
