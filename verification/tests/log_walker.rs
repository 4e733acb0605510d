use commitlog::commit_id::CommitId;
use commitlog::log_walker::{LogWalker, LogWalkerWithoutFilter};
use commitlog::log_walker::{Verdict, WalkError, WalkStep, Walked};

fn id(n: u32) -> CommitId {
    CommitId { high: 0, low: n }
}

fn walk(ids: &[u32]) -> Vec<Walked> {
    ids.iter().map(|n| Walked::Commit(id(*n), Verdict::Pass)).collect()
}

#[test]
fn test_limit() {
    let oid2 = id(2);
    let history = walk(&[2, 1]);

    let mut items = Vec::new();
    let mut walker = LogWalker::new(1);
    walker.read(&history, &mut items).unwrap();

    assert_eq!(items.len(), 1);
    assert_eq!(items[0], oid2);
}

#[test]
fn test_logwalker() {
    let oid2 = id(2);
    let history = walk(&[2, 1]);

    let mut items = Vec::new();
    let mut walker = LogWalker::new(100);
    walker.read(&history, &mut items).unwrap();

    assert_eq!(items.len(), 2);
    assert_eq!(items[0], oid2);

    let rest = history[walker.visited()..].to_vec();
    let mut items = Vec::new();
    walker.read(&rest, &mut items).unwrap();

    assert_eq!(items.len(), 0);
}

#[test]
fn test_logwalker_without_filter() {
    let oid2 = id(2);
    let (mut walker, tips) = LogWalkerWithoutFilter::new(&vec![Some(oid2)], Some(oid2), 100);
    assert_eq!(tips, vec![oid2]);
    let history = vec![Some(id(2)), Some(id(1))];

    let mut items = Vec::new();
    assert!(matches!(walker.read(&history, &mut items), Ok(2)));

    assert_eq!(items.len(), 2);
    assert_eq!(items[0], oid2);

    let rest = history[walker.visited()..].to_vec();
    let mut items = Vec::new();
    assert!(matches!(walker.read(&rest, &mut items), Ok(0)));

    assert_eq!(items.len(), 0);
}

/// A walk over commits, and whether the filter lets each of them pass.
fn filtered(commits: &[u32], pass: impl Fn(u32) -> bool) -> Vec<Walked> {
    let verdict = |n: u32| if pass(n) { Verdict::Pass } else { Verdict::Reject };
    commits.iter().map(|n| Walked::Commit(id(*n), verdict(*n))).collect()
}

/// The file that each commit changed, and its message.
fn file_and_message(n: u32) -> (&'static str, &'static str) {
    match n {
        1 => ("foo", "commit1"),
        2 => ("baz", "commit2"),
        _ => ("foo", "commit3"),
    }
}

#[test]
fn test_logwalker_with_filter() {
    let second_commit_id = id(2);
    let commits = [3, 2, 1];

    let diff_contains_baz = filtered(&commits, |n| file_and_message(n).0 == "baz");
    let mut items = Vec::new();
    let mut walker = LogWalker::new(100).filter(true);
    walker.read(&diff_contains_baz, &mut items).unwrap();

    assert_eq!(items.len(), 1);
    assert_eq!(items[0], second_commit_id);

    let rest = diff_contains_baz[walker.visited()..].to_vec();
    let mut items = Vec::new();
    walker.read(&rest, &mut items).unwrap();

    assert_eq!(items.len(), 0);

    let diff_contains_bar = filtered(&commits, |n| file_and_message(n).0 == "bar");
    let mut items = Vec::new();
    let mut walker = LogWalker::new(100).filter(true);
    walker.read(&diff_contains_bar, &mut items).unwrap();

    assert_eq!(items.len(), 0);
}

/// Whether the characters of `pattern` occur in `text` in order.
fn fuzzy(text: &str, pattern: &str) -> bool {
    let mut rest = text.chars();
    pattern.chars().all(|wanted| rest.any(|c| c == wanted))
}

#[test]
fn test_logwalker_with_filter_search() {
    let second_commit_id = id(2);
    let commits = [3, 2, 1];
    let message = |n: u32| if n == 2 { "my commit msg (#2)" } else { file_and_message(n).1 };

    let log_filter = filtered(&commits, |n| fuzzy(message(n), "my msg"));
    let mut items = Vec::new();
    let mut walker = LogWalker::new(100).filter(true);
    walker.read(&log_filter, &mut items).unwrap();

    assert_eq!(items.len(), 1);
    assert_eq!(items[0], second_commit_id);

    let log_filter = filtered(&commits, |n| fuzzy(file_and_message(n).0, "fo"));
    let mut items = Vec::new();
    let mut walker = LogWalker::new(100).filter(true);
    walker.read(&log_filter, &mut items).unwrap();

    assert_eq!(items.len(), 2);
}

#[test]
fn a_filter_only_counts_when_it_is_set() {
    let history = filtered(&[3, 2, 1], |n| n == 2);
    let mut items = Vec::new();
    let mut walker = LogWalker::new(100).filter(true).filter(false);
    assert_eq!(walker.read(&history, &mut items), Ok(3));
    assert_eq!(items, vec![id(3), id(2), id(1)]);
}

#[test]
fn rejected_commits_count_as_visited() {
    let history = filtered(&[5, 4, 3, 2, 1], |n| n % 2 == 0);
    let mut items = Vec::new();
    let mut walker = LogWalker::new(3).filter(true);
    assert_eq!(walker.read(&history, &mut items), Ok(3));
    assert_eq!(walker.visited(), 3);
    assert_eq!(items, vec![id(4)]);
    let rest = history[walker.visited()..].to_vec();
    assert_eq!(walker.read(&rest, &mut items), Ok(2));
    assert_eq!(walker.visited(), 5);
    assert_eq!(items, vec![id(4), id(2)]);
}

#[test]
fn batches_add_up_to_the_whole_walk() {
    let history = walk(&[7, 6, 5, 4, 3, 2, 1]);
    let mut at_once = Vec::new();
    assert_eq!(LogWalker::new(0).read(&history, &mut at_once), Ok(7));
    let mut in_batches = Vec::new();
    let mut walker = LogWalker::new(3);
    for expected in [3, 3, 1, 0] {
        let rest = history[walker.visited()..].to_vec();
        assert_eq!(walker.read(&rest, &mut in_batches), Ok(expected));
    }
    assert_eq!(in_batches, at_once);
}

#[test]
fn the_order_of_the_walk_is_kept_for_every_limit() {
    let ids = [9, 4, 7, 1, 8, 2];
    let history = walk(&ids);
    let expected: Vec<CommitId> = ids.iter().map(|n| id(*n)).collect();
    for limit in 0..8 {
        let mut out = Vec::new();
        let mut walker = LogWalker::new(limit);
        loop {
            let rest = history[walker.visited()..].to_vec();
            if walker.read(&rest, &mut out) == Ok(0) {
                break;
            }
        }
        assert_eq!(out, expected);
    }
}

#[test]
fn a_failing_walk_keeps_what_came_before() {
    let mut history = walk(&[3, 2]);
    history.push(Walked::Failed);
    history.push(Walked::Commit(id(1), Verdict::Pass));
    let mut items = Vec::new();
    let mut walker = LogWalker::new(0);
    assert_eq!(walker.read(&history, &mut items), Err(WalkError));
    assert_eq!(items, vec![id(3), id(2)]);
    assert_eq!(walker.visited(), 2);

    let mut items = Vec::new();
    let mut walker = LogWalker::new(2);
    assert_eq!(walker.read(&history, &mut items), Ok(2));
}

#[test]
fn a_failing_filter_leaves_its_commit_unvisited() {
    let history = vec![
        Walked::Commit(id(2), Verdict::Pass),
        Walked::Commit(id(1), Verdict::Failed),
    ];
    let mut items = Vec::new();
    let mut walker = LogWalker::new(0).filter(true);
    assert_eq!(walker.read(&history, &mut items), Err(WalkError));
    assert_eq!(items, vec![id(2)]);
    assert_eq!(walker.visited(), 1);
}

#[test]
fn a_walk_step_by_step() {
    let mut out = Vec::new();
    let mut walker = LogWalker::new(2).filter(true);
    assert_eq!(walker.begin(), WalkStep::Next);
    assert_eq!(walker.found(id(9), &mut out), WalkStep::AskFilter(id(9)));
    assert_eq!(walker.decided(id(9), false, &mut out), WalkStep::Next);
    assert_eq!(walker.found(id(8), &mut out), WalkStep::AskFilter(id(8)));
    assert_eq!(walker.decided(id(8), true, &mut out), WalkStep::Done(2));
    assert_eq!(out, vec![id(8)]);
    assert_eq!(walker.begin(), WalkStep::Next);
    assert_eq!(walker.ended(), 0);
    assert_eq!(walker.visited(), 2);
}

#[test]
fn a_failed_batch_without_filter_does_not_count() {
    let (mut walker, tips) = LogWalkerWithoutFilter::new(&vec![], None, 0);
    assert!(tips.is_empty());
    let mut items = Vec::new();
    let history = vec![Some(id(3)), None, Some(id(1))];
    assert_eq!(walker.read(&history, &mut items), Err(WalkError));
    assert_eq!(items, vec![id(3)]);
    assert_eq!(walker.visited(), 0);
}

#[test]
fn a_walk_without_filter_stops_at_its_limit() {
    let (mut walker, _) = LogWalkerWithoutFilter::new(&vec![], None, 2);
    let mut items = Vec::new();
    let history = vec![Some(id(3)), Some(id(2)), None];
    assert_eq!(walker.read(&history, &mut items), Ok(2));
    assert_eq!(walker.visited(), 2);
    assert_eq!(items, vec![id(3), id(2)]);
}

#[test]
fn unfiltered_reads_add_up_for_every_limit() {
    let ids = [9, 4, 7, 1, 8, 2];
    let history: Vec<Option<CommitId>> = ids.iter().map(|n| Some(id(*n))).collect();
    let expected: Vec<CommitId> = ids.iter().map(|n| id(*n)).collect();
    for limit in 0..8 {
        let (mut walker, _) = LogWalkerWithoutFilter::new(&vec![], None, limit);
        let mut out = Vec::new();
        loop {
            let rest = history[walker.visited()..].to_vec();
            if walker.read(&rest, &mut out) == Ok(0) {
                break;
            }
        }
        assert_eq!(out, expected);
        assert_eq!(walker.visited(), ids.len());
    }
}

#[test]
fn the_filter_is_asked_once_about_each_visited_commit() {
    let ids = [9, 4, 7, 1, 8];
    for (limit, expected) in [(0, 5), (3, 3), (5, 5), (9, 5)] {
        let mut walker = LogWalker::new(limit).filter(true);
        let (mut asked, mut out) = (Vec::new(), Vec::new());
        let mut left = ids.iter();
        let mut step = walker.begin();
        loop {
            step = match step {
                WalkStep::Next => match left.next() {
                    Some(n) => walker.found(id(*n), &mut out),
                    None => WalkStep::Done(walker.ended()),
                },
                WalkStep::AskFilter(commit) => {
                    asked.push(commit);
                    walker.decided(commit, commit.low % 2 == 0, &mut out)
                }
                WalkStep::Done(_) => break,
            };
        }
        assert_eq!(asked, ids[..expected].iter().map(|n| id(*n)).collect::<Vec<_>>());
        let even: Vec<CommitId> =
            ids[..expected].iter().filter(|n| **n % 2 == 0).map(|n| id(*n)).collect();
        assert_eq!(out, even);
    }
}

#[test]
fn tips_are_sorted_and_occur_once() {
    let branches = vec![Some(id(7)), None, Some(id(2)), Some(id(7)), Some(id(5))];
    let (_, tips) = LogWalkerWithoutFilter::new(&branches, Some(id(2)), 1);
    assert_eq!(tips, vec![id(2), id(5), id(7)]);
    let (_, tips) = LogWalkerWithoutFilter::new(&branches, Some(CommitId { high: 1, low: 0 }), 1);
    assert_eq!(tips.last(), Some(&CommitId { high: 1, low: 0 }));
    let reversed: Vec<Option<CommitId>> = branches.iter().rev().copied().collect();
    let (_, again) = LogWalkerWithoutFilter::new(&reversed, Some(id(2)), 1);
    assert_eq!(again, vec![id(2), id(5), id(7)]);
}
