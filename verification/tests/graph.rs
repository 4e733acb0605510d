use commitlog::commit_id::CommitId;
use commitlog::graph_cache::{default_graph_settings, extract_settings, GraphCache};
use commitlog::log_items::CommitInfo;
use commitlog::tracks::{BranchModel, GlyphSet, GraphLines, TextFormat, TrackOrder};

fn commit(n: u32, message: &str, parents: &[u32]) -> CommitInfo {
    CommitInfo {
        message: message.to_string(),
        time: 0,
        author: String::new(),
        id: CommitId { high: 0, low: n },
        parents: parents.iter().map(|p| CommitId { high: 0, low: *p }).collect(),
    }
}

/// Commits that follow one another.
fn line(count: u32) -> Vec<CommitInfo> {
    (0..count)
        .map(|n| {
            let parents = if n + 1 < count { vec![n + 1] } else { vec![] };
            commit(n, "work", &parents)
        })
        .collect()
}

#[test]
fn nothing_is_drawn_at_first() {
    let cache = GraphCache::new();
    assert!(cache.document().is_none());
    assert_eq!(cache.get_graph_line(0), "%% no graph data %%");
    assert_eq!(cache.row_scroll(), 0);
    assert_eq!(cache.layout_commit_height(0), 0);
}

#[test]
fn a_graph_without_commits_has_no_lines() {
    let mut cache = GraphCache::new();
    cache.compute_layout(0..3, 1);
    assert_eq!(cache.get_graph_line(0), "%% no graph data %%");
    assert_eq!(cache.layout_commit_height(0), 0);
    assert_eq!(cache.row_scroll(), 0);
}

#[test]
fn commits_in_a_line_take_one_row_each() {
    let mut cache = GraphCache::new();
    cache.add_commits(&line(5));
    cache.compute_layout(0..5, 4);
    let lines = cache.document().unwrap();
    assert_eq!(lines.graph_lines.len(), 5);
    assert_eq!(lines.commit2line, vec![0, 1, 2, 3, 4]);
    assert_eq!(cache.row_scroll(), 0);
    for row in 0..5 {
        assert!(cache.get_graph_line(row).contains('●'));
        assert_eq!(cache.layout_commit_height(row), 1);
    }
    assert_eq!(cache.get_graph_line(5), "%% no graph data %%");
    assert_eq!(cache.layout_commit_height(5), 0);
}

/// Commits one by one, or all at once, make the same graph.
#[test]
fn commits_can_be_added_in_parts() {
    let commits = line(4);
    let mut at_once = GraphCache::new();
    at_once.add_commits(&commits);
    at_once.compute_layout(0..4, 0);
    let mut in_parts = GraphCache::new();
    for c in &commits {
        in_parts.add_commits(&vec![c.clone()]);
    }
    in_parts.compute_layout(0..4, 0);
    for row in 0..4 {
        assert_eq!(at_once.get_graph_line(row), in_parts.get_graph_line(row));
    }
}

/// Two branches that were forked from one commit and merged again.
fn merged() -> Vec<CommitInfo> {
    vec![
        commit(10, "Merge branch 'side'", &[11, 12]),
        commit(11, "main work", &[13]),
        commit(12, "side work", &[13]),
        commit(13, "base", &[]),
    ]
}

#[test]
fn a_merge_takes_more_rows_than_commits() {
    let mut cache = GraphCache::new();
    cache.add_commits(&merged());
    cache.compute_layout(0..4, 3);
    let (count, rows) = {
        let lines = cache.document().unwrap();
        (lines.graph_lines.len(), lines.commit2line.clone())
    };
    assert!(count > 4);
    assert_eq!(rows[0], 0);
    assert!(cache.get_graph_line(0).contains('○'));
    // The heights of the commits cover all lines.
    let heights: Vec<usize> = (0..4).map(|i| cache.layout_commit_height(i)).collect();
    assert_eq!(heights.iter().sum::<usize>(), count);
    assert_eq!(rows[2], heights[0] + heights[1]);
    // The selected commit is on one of the four rows that are shown.
    let scroll = cache.row_scroll();
    assert!(scroll <= rows[3] && rows[3] < scroll + 4);
    assert_eq!(scroll, rows[3] + 1 - 4);
}

#[test]
fn a_section_may_reach_behind_the_last_commit() {
    let mut cache = GraphCache::new();
    cache.add_commits(&line(2));
    cache.compute_layout(0..4, 1);
    let lines = cache.document().unwrap();
    assert_eq!(lines.commit2line, vec![0, 1, 2, 4]);
    assert_eq!(lines.graph_lines.len(), 4);
    assert_eq!(cache.layout_commit_height(2), 2);
    assert_eq!(cache.layout_commit_height(3), 0);
}

#[test]
fn a_section_behind_the_last_commit_is_empty_lines() {
    let mut cache = GraphCache::new();
    cache.add_commits(&line(2));
    cache.compute_layout(5..7, 6);
    let lines = cache.document().unwrap();
    assert_eq!(lines.commit2line, vec![0, 2]);
    assert_eq!(lines.graph_lines.len(), 2);
    assert_eq!(cache.row_scroll(), 1);
}

#[test]
fn an_empty_section_has_no_lines() {
    let mut cache = GraphCache::new();
    cache.add_commits(&line(2));
    cache.compute_layout(1..1, 0);
    let lines = cache.document().unwrap();
    assert!(lines.graph_lines.is_empty());
    assert!(lines.commit2line.is_empty());
    assert_eq!(cache.row_scroll(), 1);
}

#[test]
fn a_later_section_is_drawn_from_its_first_commit() {
    let mut cache = GraphCache::new();
    cache.add_commits(&line(10));
    cache.compute_layout(4..7, 6);
    let lines = cache.document().unwrap();
    assert_eq!(lines.commit2line, vec![0, 1, 2]);
    assert_eq!(cache.row_scroll(), 0);
}

fn drawn() -> GraphLines {
    GraphLines {
        graph_lines: vec!["a".into(), "b".into(), "c".into(), "d".into(), "e".into()],
        commit2line: vec![0, 1, 4],
    }
}

#[test]
fn a_document_scrolls_to_the_selection() {
    let mut cache = GraphCache::new();
    cache.set_document(drawn(), 20, 3, 22);
    assert_eq!(cache.row_scroll(), 2);
    assert_eq!(cache.get_graph_line(4), "e");
    assert_eq!(cache.layout_commit_height(0), 1);
    assert_eq!(cache.layout_commit_height(1), 3);
    assert_eq!(cache.layout_commit_height(2), 1);
    assert_eq!(cache.layout_commit_height(3), 0);
    cache.set_document(drawn(), 20, 3, 21);
    assert_eq!(cache.row_scroll(), 0);
    // A selection before the section counts as its first commit, one behind it as the first row.
    cache.set_document(drawn(), 20, 3, 7);
    assert_eq!(cache.row_scroll(), 0);
    cache.set_document(drawn(), 20, 0, 99);
    assert_eq!(cache.row_scroll(), 1);
}

#[test]
fn graphs_have_their_settings() {
    let options = extract_settings();
    assert!(!options.compact && !options.colored && options.ends_last_first);
    assert_eq!(options.branches, BranchModel::Free);
    assert_eq!(options.characters, GlyphSet::Round);
    assert_eq!(options.branch_order, TrackOrder::ShortestFirst);
    assert_eq!(options.format, TextFormat::OneLine);
    assert_eq!(options.wrapping, None);
    assert!(options.default_merge_patterns);
    let options = default_graph_settings();
    assert!(options.compact && options.colored && options.ends_last_first);
    assert!(!options.include_remote && !options.debug && !options.reverse_commit_order);
    assert_eq!(options.branches, BranchModel::GitFlow);
}

/// The lines of a merge, drawn in full width with rounded corners.
#[test]
fn lines_join_the_tracks_of_a_merge() {
    let mut cache = GraphCache::new();
    cache.add_commits(&merged());
    cache.compute_layout(0..4, 0);
    let lines = cache.document().unwrap();
    assert_eq!(lines.graph_lines, vec!["  ○", "╭>┤", "│ ●", "● │", "╰─┤", "  ●"]);
    assert_eq!(lines.commit2line, vec![0, 2, 3, 5]);
}

/// The same commits, added in whatever parts, draw the same lines every time.
#[test]
fn the_same_commits_draw_the_same_graph() {
    for seed in 0..20 {
        let commits = tangled(30, seed);
        let drawn = |part: usize, start: usize, end: usize| {
            let mut cache = GraphCache::new();
            cache.add_commits(&vec![]);
            for c in commits.chunks(part) {
                cache.add_commits(&c.to_vec());
            }
            cache.compute_layout(start..end, end);
            let lines = cache.document().unwrap();
            (lines.graph_lines.clone(), lines.commit2line.clone(), cache.row_scroll())
        };
        for (start, end) in [(0, 30), (4, 19), (25, 33)] {
            let at_once = drawn(30, start, end);
            for part in [1, 7, 29] {
                assert_eq!(drawn(part, start, end), at_once);
            }
        }
    }
}

/// A section that stands past what any list holds is drawn as empty lines too.
#[test]
fn a_section_far_behind_the_last_commit() {
    let mut cache = GraphCache::new();
    cache.add_commits(&line(2));
    let start = usize::MAX / 2;
    cache.compute_layout(start..start + 3, start);
    let lines = cache.document().unwrap();
    assert_eq!(lines.commit2line, vec![0, 2, 4]);
    assert_eq!(lines.graph_lines.len(), 3);
}

/// Histories with forks and merges: commit `n` has up to three parents among the older ones.
fn tangled(count: u32, seed: u64) -> Vec<CommitInfo> {
    let mut state = seed;
    let mut next = move |below: u64| {
        state = state.wrapping_mul(6364136223846793005).wrapping_add(1442695040888963407);
        (state >> 33) % below
    };
    (0..count)
        .map(|n| {
            let older = u64::from(count - 1 - n);
            let mut parents: Vec<u32> = Vec::new();
            if older > 0 {
                for _ in 0..1 + next(3) {
                    let parent = n + 1 + next(older.min(6)) as u32;
                    if !parents.contains(&parent) {
                        parents.push(parent);
                    }
                }
            }
            commit(n, "Merge branch 'topic'", &parents)
        })
        .collect()
}

#[test]
fn rows_of_tangled_histories() {
    for seed in 0..40 {
        let mut cache = GraphCache::new();
        let commits = tangled(40, seed);
        cache.add_commits(&commits);
        for (start, end) in [(0, 40), (0, 13), (7, 31), (35, 45), (39, 40)] {
            let selection = (start + end) / 2;
            cache.compute_layout(start..end, selection);
            let count = end - start;
            let known = 40.min(end) - start;
            let lines = cache.document().unwrap();
            let rows = &lines.commit2line;
            let height = lines.graph_lines.len();
            assert_eq!(rows.len(), count);
            assert_eq!(rows[0], 0);
            for i in 0..count {
                assert!(i + 1 == count || rows[i] < rows[i + 1]);
                assert!(i >= known || rows[i] + (count - i) <= height);
                assert!(i < known || rows[i] == rows[known] + 2 * (i - known));
            }
            assert!(known == count || height == rows[known] + (count - known));
            for (row, line) in lines.graph_lines.iter().enumerate() {
                let symbols: Vec<char> = line.chars().filter(|c| "○●".contains(*c)).collect();
                let expected: Vec<char> = match rows[..known].iter().position(|r| *r == row) {
                    Some(i) if commits[start + i].parents.len() > 1 => vec!['○'],
                    Some(_) => vec!['●'],
                    None => vec![],
                };
                assert_eq!(symbols, expected);
            }
            let row = rows[selection - start];
            let scroll = cache.row_scroll();
            assert!(scroll <= row && row < scroll + count);
        }
    }
}
