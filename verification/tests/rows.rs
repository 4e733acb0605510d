use std::rc::Rc;

use commitlog::ansi::{ansi_spans, is_single_line};
use commitlog::branch::{BranchDetails, BranchInfo, LocalBranch, RemoteBranch};
use commitlog::branch::{Tag, Tags, UpstreamBranch};
use commitlog::commit_id::CommitId;
use commitlog::commit_list::CommitList;
use commitlog::commit_map::CommitMap;
use commitlog::commit_set::CommitSet;
use commitlog::doc_line::DocLine;
use commitlog::log_items::CommitInfo;
use commitlog::rows::{graph_row, Span, ThemeStyle};

fn id(n: u32) -> CommitId {
    CommitId { high: 0xabcd << 112, low: n }
}

fn info(n: u32) -> CommitInfo {
    CommitInfo {
        message: format!("message {n}"),
        time: 0,
        author: "Ann".to_string(),
        id: id(n),
        parents: Vec::new(),
    }
}

fn list(count: u32) -> CommitList {
    let mut list = CommitList::new("log");
    let request = list.refresh_extend_data((0..count).map(id).collect()).unwrap();
    list.set_fetched(request.start, Some((0..count).map(info).collect()));
    list
}

fn times(count: usize) -> Vec<String> {
    vec!["12:00".to_string(); count]
}

fn text(row: &[Span]) -> String {
    row.iter()
        .map(|span| match span {
            Span::Themed(content, _) => content.clone(),
            Span::Ansi(span) => span.0.clone(),
        })
        .collect()
}

fn styles(row: &[Span]) -> Vec<ThemeStyle> {
    row.iter()
        .map(|span| match span {
            Span::Themed(_, style) => *style,
            Span::Ansi(_) => ThemeStyle::Default,
        })
        .collect()
}

#[test]
fn a_row_fills_its_width() {
    let list = list(3);
    let rows = list.get_text_no_graph(10, 60, &times(3));
    assert_eq!(rows.len(), 3);
    assert_eq!(
        text(&rows[1]),
        format!("{:60}", "abcd000 12:00 Ann            message 1")
    );
    assert_eq!(
        styles(&rows[0]),
        vec![
            ThemeStyle::CommitHash { selected: true },
            ThemeStyle::Text { selected: true },
            ThemeStyle::CommitTime { selected: true },
            ThemeStyle::Text { selected: true },
            ThemeStyle::CommitAuthor { selected: true },
            ThemeStyle::Text { selected: true },
            ThemeStyle::Text { selected: true },
            ThemeStyle::Text { selected: true },
        ]
    );
    assert_eq!(styles(&rows[1])[0], ThemeStyle::CommitHash { selected: false });
}

#[test]
fn the_author_column_has_its_limits() {
    let list = list(1);
    let author = |width: usize| match &list.get_text_no_graph(1, width, &times(1))[0][4] {
        Span::Themed(content, _) => content.chars().count(),
        Span::Ansi(_) => 0,
    };
    assert_eq!(author(0), 3);
    assert_eq!(author(30), 3);
    assert_eq!(author(31), 4);
    assert_eq!(author(79), 20);
    assert_eq!(author(500), 20);
}

#[test]
fn rows_start_at_the_top_of_the_view() {
    let mut list = list(9);
    list.scroll_top = DocLine::at_commit(4);
    list.select_commit(id(5)).unwrap();
    let rows = list.get_text_no_graph(3, 40, &times(9));
    assert_eq!(rows.len(), 3);
    assert!(text(&rows[0]).contains("message 4"));
    assert_eq!(styles(&rows[1])[0], ThemeStyle::CommitHash { selected: true });
    list.scroll_top = DocLine::at_commit(8);
    assert_eq!(list.get_text_no_graph(3, 40, &times(9)).len(), 1);
    list.scroll_top = DocLine::at_commit(20);
    assert!(list.get_text_no_graph(3, 40, &times(9)).is_empty());
}

#[test]
fn marks_are_shown_once_there_are_any() {
    let mut list = list(2);
    list.mark();
    let rows = list.get_text_no_graph(2, 0, &times(2));
    assert!(text(&rows[0]).starts_with("\u{2713} abcd000"));
    assert!(text(&rows[1]).starts_with("  abcd000"));
    assert_eq!(styles(&rows[0])[0], ThemeStyle::LogMarker { selected: true });
}

#[test]
fn other_commits_fade_beside_highlights() {
    let mut list = list(2);
    let mut set = CommitSet::new();
    set.insert(id(1));
    let request = list.set_highlighting(Some(Rc::new(set))).unwrap();
    list.set_fetched(request.start, Some(vec![info(0), info(1)]));
    let rows = list.get_text_no_graph(2, 0, &times(2));
    assert_eq!(styles(&rows[0])[0], ThemeStyle::CommitUnhighlighted);
    assert_eq!(styles(&rows[0])[1], ThemeStyle::Default);
    assert_eq!(styles(&rows[1])[0], ThemeStyle::CommitHash { selected: true });
}

fn local(name: &str, upstream: Option<&str>) -> BranchInfo {
    BranchInfo {
        name: name.to_string(),
        reference: format!("refs/heads/{name}"),
        top_commit: id(0),
        details: BranchDetails::Local(LocalBranch {
            upstream: upstream.map(|reference| UpstreamBranch { reference: reference.to_string() }),
        }),
    }
}

fn remote(name: &str) -> BranchInfo {
    BranchInfo {
        name: name.to_string(),
        reference: format!("refs/remotes/{name}"),
        top_commit: id(0),
        details: BranchDetails::Remote(RemoteBranch { has_tracking: true }),
    }
}

#[test]
fn tags_and_branches_are_labels() {
    let mut list = list(1);
    let mut tags: Tags = CommitMap::new();
    tags.push(id(0), Tag { name: "v1".to_string() });
    tags.push(id(0), Tag { name: "v2".to_string() });
    list.set_tags(tags);
    list.set_local_branches(vec![local("main", Some("refs/remotes/o/main")), local("x", None)]);
    list.set_remote_branches(vec![remote("o/main"), remote("o/other")]);
    let row = &list.get_text_no_graph(1, 0, &times(1))[0];
    assert_eq!(
        text(row),
        "abcd000 12:00 Ann  <v1> <v2> {main} {x} [o/main] [o/other] message 0"
    );
    assert_eq!(styles(row)[7], ThemeStyle::Tags { selected: true });
    assert_eq!(styles(row)[9], ThemeStyle::Branch { selected: true });
}

#[test]
fn a_remote_branch_that_all_local_ones_follow_is_not_shown() {
    let mut list = list(1);
    let entry = list.items.get(0).unwrap().clone();
    assert_eq!(list.remote_branches_string(&entry), None);
    list.set_remote_branches(vec![remote("o/main"), remote("o/other")]);
    assert_eq!(list.remote_branches_string(&entry), Some("[o/main] [o/other]".to_string()));
    list.set_local_branches(vec![local("main", Some("refs/remotes/o/main"))]);
    assert_eq!(list.remote_branches_string(&entry), Some("[o/other]".to_string()));
    list.set_remote_branches(vec![remote("o/main")]);
    assert_eq!(list.remote_branches_string(&entry), None);
}

#[test]
fn a_graph_stands_before_the_commit() {
    let list = list(1);
    let entry = list.items.get(0).unwrap();
    let graph = Some("| *".to_string());
    let row = list.get_graph_entry_to_add(graph, entry, false, None, None, None, 0, "now", None);
    assert_eq!(text(&row), "| * abcd000 now Ann  message 0");
    let row = list.get_entry_to_add(entry, false, None, None, None, 0, "now", Some(false));
    assert_eq!(text(&row), "  abcd000 now Ann  message 0");
}

#[test]
fn escape_sequences_become_styles() {
    let spans = ansi_spans(&"plain \u{1b}[31mred".to_string());
    assert_eq!(spans.len(), 2);
    assert_eq!(spans[0].0, "plain ");
    assert_eq!(spans[0].1, None);
    assert_eq!(spans[1].0, "red");
    assert_eq!(spans[1].1, Some("Red".to_string()));
    assert_eq!(spans[1].2, None);
    let spans = ansi_spans(&"\u{1b}[1;44mbold".to_string());
    assert_eq!(spans.len(), 1);
    assert_eq!(spans[0].2, Some("Blue".to_string()));
    assert_eq!(spans[0].4, 1);
}

#[test]
fn single_lines_of_text() {
    for line in ["", "a", "a\n", "a\r\n", "\n", "\u{1b}[0m", "\u{1b}[31m\n", "äß", "a\tb"] {
        assert!(is_single_line(&line.to_string()));
        let spans = ansi_spans(&line.to_string());
        let content: String = spans.iter().map(|span| span.0.clone()).collect();
        assert!(content.len() <= line.len());
    }
}

#[test]
fn texts_of_several_lines() {
    for text in ["a\nb", "\n\n", "a\rb", "\n\r", "a\n\r\n", "\r\r\n"] {
        assert!(!is_single_line(&text.to_string()));
    }
}

#[test]
fn graph_rows_point_at_the_selection() {
    let graph = ansi_spans(&"*".to_string());
    let message = ansi_spans(&"message".to_string());
    let row = graph_row(3, true, Some(graph.clone()), Some(message.clone()));
    assert_eq!(text(&row), "-->*|message");
    let row = graph_row(3, false, Some(graph), None);
    assert_eq!(text(&row), "*|no text line at 3");
    let row = graph_row(12, false, None, Some(message));
    assert_eq!(text(&row), "no graph_lines[12]|message");
}

#[test]
fn the_view_with_the_graph() {
    let mut list = list(9);
    list.scroll_top = DocLine::at_commit(2);
    list.select_commit(id(3)).unwrap();
    let graph: Vec<String> = vec!["*".into(), "\u{1b}[32m|".into()];
    let texts: Vec<String> = vec!["one".into(), "two".into(), "three".into()];
    let rows = list.get_text(4, 80, &graph, &texts, &times(9));
    let shown: Vec<String> = rows.iter().map(|row| text(row)).collect();
    assert_eq!(
        shown,
        vec![
            "*|one",
            "-->||two",
            "no graph_lines[2]|three",
            "no graph_lines[3]|no text line at 3",
        ]
    );
    let rows = list.get_text_graph(1, &graph, &texts);
    assert_eq!(rows.len(), 1);
}

#[test]
fn a_view_that_moves_asks_for_a_new_graph() {
    let mut list = list(500);
    list.draw(80, 22);
    let drawn = Some(list.graph_place());
    assert!(!list.graph_is_current(None));
    assert!(list.graph_is_current(drawn));
    // Moving the selection inside the view keeps the graph.
    list.select_commit(id(10)).unwrap();
    list.draw(80, 22);
    assert!(list.graph_is_current(drawn));
    // Moving the view does not.
    list.select_commit(id(300)).unwrap();
    list.draw(80, 22);
    assert!(!list.graph_is_current(drawn));
    let request = list.get_git_graph(list.graph_is_current(drawn)).unwrap();
    assert_eq!(request.start_rev, id(281).get_short_string());
    assert_eq!(request.count, 200);
    // A smaller view moves too.
    let drawn = Some(list.graph_place());
    list.draw(80, 12);
    assert!(!list.graph_is_current(drawn));
    // So does one whose first commit is another one.
    let drawn = Some(list.graph_place());
    list.set_fetched(1, Some((0..500).map(info).collect()));
    assert!(!list.graph_is_current(drawn));
}

#[test]
fn where_a_graph_begins() {
    let mut list = list(9);
    list.scroll_top = DocLine::at_commit(2);
    assert!(list.get_git_graph(true).is_none());
    let request = list.get_git_graph(false).unwrap();
    assert_eq!(request.start_rev, "abcd000");
    assert_eq!(request.count, 200);
    list.scroll_top = DocLine::at_commit(9);
    assert_eq!(list.get_git_graph(false).unwrap().start_rev, "HEAD");
}
