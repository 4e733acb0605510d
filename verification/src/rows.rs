//! The rows of the view.

use vstd::prelude::*;

use crate::ansi::{
    ansi_line, ansi_line_view, ansi_lines, ansi_span_view, ansi_spans, single_line, AnsiSpan,
    AnsiSpanView,
};
use crate::branch::{BranchDetails, BranchInfo, Tag};
use crate::commit_id::{CommitId, SHORT_ID_DIGITS};
use crate::commit_list::CommitList;
use crate::log_items::LogEntry;
use crate::marks::has_mark;
use crate::text::{
    aligned, byte_len, decimal, decimal_text, join, joined, law_joined_in_two, law_padded_content,
    optional_text, pad, padded, string_width_align, texts,
};

verus! {

/// Whether rows show the commit graph.
pub const LOG_GRAPH_ENABLED: bool = true;

/// Number of commits that a graph covers.
pub const GRAPH_COMMIT_COUNT: usize = 200;

/// Width that is left for other columns before the author gets a share of the rest.
pub const AUTHOR_RESERVE: usize = 19;

/// Least width of the author column.
pub const AUTHOR_MIN: usize = 3;

/// Greatest width of the author column.
pub const AUTHOR_MAX: usize = 20;

/// A role in the colour theme.
#[derive(Clone, Copy, Debug, PartialEq, Eq, Structural)]
pub enum ThemeStyle {
    /// No style.
    Default,
    /// Plain text.
    Text {
        /// Whether its row is selected.
        selected: bool,
    },
    /// The mark of a marked commit.
    LogMarker {
        /// Whether its row is selected.
        selected: bool,
    },
    /// The id of a commit.
    CommitHash {
        /// Whether its row is selected.
        selected: bool,
    },
    /// The time of a commit.
    CommitTime {
        /// Whether its row is selected.
        selected: bool,
    },
    /// The author of a commit.
    CommitAuthor {
        /// Whether its row is selected.
        selected: bool,
    },
    /// The tags of a commit.
    Tags {
        /// Whether its row is selected.
        selected: bool,
    },
    /// The branches of a commit.
    Branch {
        /// Whether its row is selected.
        selected: bool,
    },
    /// A commit that is not highlighted while others are.
    CommitUnhighlighted,
}

/// A piece of a row.
#[derive(Debug)]
pub enum Span {
    /// Text in a style of the theme.
    Themed(String, ThemeStyle),
    /// Text in a style of its own.
    Ansi(AnsiSpan),
}

/// What a piece of a row holds.
pub enum SpanView {
    /// Text in a style of the theme.
    Themed(Seq<char>, ThemeStyle),
    /// Text in a style of its own.
    Ansi(AnsiSpanView),
}

impl View for Span {
    type V = SpanView;

    open spec fn view(&self) -> SpanView {
        match *self {
            Span::Themed(content, style) => SpanView::Themed(content@, style),
            Span::Ansi(span) => SpanView::Ansi(ansi_span_view(span)),
        }
    }
}

impl SpanView {
    /// The text of the piece.
    pub open spec fn content(self) -> Seq<char> {
        match self {
            SpanView::Themed(content, _) => content,
            SpanView::Ansi(span) => span.0,
        }
    }
}

/// What the pieces of a row hold.
pub open spec fn row_view(row: Seq<Span>) -> Seq<SpanView> {
    row.map_values(|span: Span| span@)
}

/// Number of bytes in the texts of a row.
pub open spec fn row_bytes(row: Seq<SpanView>) -> int
    decreases row.len(),
{
    if row.len() == 0 {
        0
    } else {
        row_bytes(row.drop_last()) + byte_len(row.last().content())
    }
}

/// Width of the author column in a row of `width` columns.
pub open spec fn author_width(width: int) -> int {
    let share = if width <= AUTHOR_RESERVE {
        0
    } else {
        (width - AUTHOR_RESERVE) / 3
    };
    if share < AUTHOR_MIN {
        AUTHOR_MIN as int
    } else if share > AUTHOR_MAX {
        AUTHOR_MAX as int
    } else {
        share
    }
}

/// A piece that the row has only where there is a text for it, behind a splitter.
pub open spec fn optional_label(
    splitter: SpanView,
    label: Option<Seq<char>>,
    style: ThemeStyle,
) -> Seq<SpanView> {
    match label {
        Some(text) => seq![splitter, SpanView::Themed(text, style)],
        None => Seq::empty(),
    }
}

/// Everything that a row shows of a commit.
pub struct EntryView {
    /// The graph before the commit.
    pub graph: Option<Seq<char>>,
    /// The short id.
    pub hash: Seq<char>,
    /// The time.
    pub time: Seq<char>,
    /// The author.
    pub author: Seq<char>,
    /// The message.
    pub msg: Seq<char>,
    /// The tags.
    pub tags: Option<Seq<char>>,
    /// The local branches.
    pub local_branches: Option<Seq<char>>,
    /// The remote branches.
    pub remote_branches: Option<Seq<char>>,
    /// Whether the commit is marked, nothing while no commit is.
    pub marked: Option<bool>,
    /// Whether the row is selected.
    pub selected: bool,
    /// Whether the commit is shown in full colours.
    pub normal: bool,
}

impl EntryView {
    /// `style`, or that of commits which are not highlighted.
    pub open spec fn style(self, style: ThemeStyle) -> ThemeStyle {
        if self.normal {
            style
        } else {
            ThemeStyle::CommitUnhighlighted
        }
    }

    /// The space between columns.
    pub open spec fn splitter(self) -> SpanView {
        SpanView::Themed(
            seq![' '],
            if self.normal {
                ThemeStyle::Text { selected: self.selected }
            } else {
                ThemeStyle::Default
            },
        )
    }

    /// The mark, where some commits are marked.
    pub open spec fn marker(self) -> Seq<SpanView> {
        match self.marked {
            Some(marked) => seq![
                SpanView::Themed(
                    seq![
                        if marked {
                            '\u{2713}'
                        } else {
                            ' '
                        },
                    ],
                    ThemeStyle::LogMarker { selected: self.selected },
                ),
                self.splitter(),
            ],
            None => Seq::empty(),
        }
    }

    /// The graph, where there is one.
    pub open spec fn graph_column(self) -> Seq<SpanView> {
        match self.graph {
            Some(text) => seq![SpanView::Themed(text, ThemeStyle::Default), self.splitter()],
            None => Seq::empty(),
        }
    }

    /// The id, the time and the author.
    pub open spec fn columns(self, width: int) -> Seq<SpanView> {
        let selected = self.selected;
        seq![
            SpanView::Themed(self.hash, self.style(ThemeStyle::CommitHash { selected })),
            self.splitter(),
            SpanView::Themed(self.time, self.style(ThemeStyle::CommitTime { selected })),
            self.splitter(),
            SpanView::Themed(
                aligned(self.author, author_width(width) as nat),
                self.style(ThemeStyle::CommitAuthor { selected }),
            ),
            self.splitter(),
        ]
    }

    /// The tags and branches.
    pub open spec fn labels(self) -> Seq<SpanView> {
        let tags = self.style(ThemeStyle::Tags { selected: self.selected });
        let branches = self.style(ThemeStyle::Branch { selected: self.selected });
        optional_label(self.splitter(), self.tags, tags) + optional_label(
            self.splitter(),
            self.local_branches,
            branches,
        ) + optional_label(self.splitter(), self.remote_branches, branches)
    }

    /// The row in front of the message.
    pub open spec fn head(self, width: int) -> Seq<SpanView> {
        self.marker() + self.graph_column() + self.columns(width) + self.labels() + seq![
            self.splitter(),
        ]
    }

    /// The row: the message is padded to fill it up to `width`.
    pub open spec fn row(self, width: int) -> Seq<SpanView> {
        let head = self.head(width);
        let rest = if row_bytes(head) <= width {
            width - row_bytes(head)
        } else {
            0
        };
        head.push(
            SpanView::Themed(
                padded(self.msg, rest as nat),
                self.style(ThemeStyle::Text { selected: self.selected }),
            ),
        )
    }
}

/// `name` between `open` and `close`.
pub open spec fn bracketed(open: char, name: Seq<char>, close: char) -> Seq<char> {
    seq![open] + name + seq![close]
}

/// The names of tags, each in angle brackets.
pub open spec fn tags_label(tags: Seq<Tag>) -> Seq<char> {
    joined(tags.map_values(|tag: Tag| bracketed('<', tag.name@, '>')), seq![' '])
}

/// The names of branches, each between `open` and `close`.
pub open spec fn branches_label(branches: Seq<BranchInfo>, open: char, close: char) -> Seq<char> {
    joined(
        branches.map_values(|branch: BranchInfo| bracketed(open, branch.name@, close)),
        seq![' '],
    )
}

/// Whether `local` follows `remote`.
pub open spec fn follows(local: BranchInfo, remote: BranchInfo) -> bool {
    match local.details {
        BranchDetails::Local(details) => match details.upstream {
            Some(upstream) => upstream.reference@ == remote.reference@,
            None => false,
        },
        BranchDetails::Remote(_) => false,
    }
}

/// Whether all of `branches` follow `remote`.
pub open spec fn all_follow(branches: Seq<BranchInfo>, remote: BranchInfo) -> bool {
    forall|i: int| 0 <= i < branches.len() ==> follows(#[trigger] branches[i], remote)
}

/// Whether a remote branch is shown beside the local branches of its commit: not where all of them
/// follow it.
pub open spec fn shows_remote(local: Option<Seq<BranchInfo>>, remote: BranchInfo) -> bool {
    match local {
        None => true,
        Some(branches) => !all_follow(branches, remote),
    }
}

/// The remote branches that are shown for a commit.
pub open spec fn shown_remotes(
    local: Option<Seq<BranchInfo>>,
    remote: Seq<BranchInfo>,
) -> Seq<BranchInfo> {
    remote.filter(|branch: BranchInfo| shows_remote(local, branch))
}

/// The values that `map` has for `id`.
pub open spec fn lookup<V>(map: Map<CommitId, Seq<V>>, id: CommitId) -> Option<Seq<V>> {
    if map.dom().contains(id) {
        Some(map[id])
    } else {
        None
    }
}

/// The label of the remote branches of a commit.
pub open spec fn remote_label(
    local: Option<Seq<BranchInfo>>,
    remote: Option<Seq<BranchInfo>>,
) -> Option<Seq<char>> {
    match remote {
        None => None,
        Some(branches) => if shown_remotes(local, branches).len() == 0 {
            None
        } else {
            Some(branches_label(shown_remotes(local, branches), '[', ']'))
        },
    }
}

/// The name in brackets.
fn bracket(open: &str, name: &String, close: &str) -> (r: String)
    requires
        open@.len() == 1,
        close@.len() == 1,
    ensures
        r@ == bracketed(open@[0], name@, close@[0]),
{
    let mut out = open.to_owned();
    out.append(name.as_str());
    out.append(close);
    assert(out@ =~= bracketed(open@[0], name@, close@[0]));
    out
}

/// Joins texts with a space between them.
fn join_spaced(parts: &Vec<String>) -> (r: String)
    ensures
        r@ == joined(texts(parts@), seq![' ']),
{
    proof {
        reveal_strlit(" ");
        assert(" "@ =~= seq![' ']);
    }
    join(parts, " ")
}

/// The names of tags, each in angle brackets.
pub fn tags_string(tags: &Vec<Tag>) -> (r: String)
    ensures
        r@ == tags_label(tags@),
{
    proof {
        reveal_strlit("<");
        reveal_strlit(">");
    }
    let mut parts: Vec<String> = Vec::new();
    let mut i: usize = 0;
    while i < tags.len()
        invariant
            i <= tags@.len(),
            parts@.len() == i,
            "<"@.len() == 1,
            "<"@[0] == '<',
            ">"@.len() == 1,
            ">"@[0] == '>',
            forall|j: int|
                0 <= j < i ==> (#[trigger] parts@[j])@ == bracketed('<', tags@[j].name@, '>'),
        decreases tags@.len() - i,
    {
        parts.push(bracket("<", &tags[i].name, ">"));
        i = i + 1;
    }
    assert(texts(parts@) =~= tags@.map_values(|tag: Tag| bracketed('<', tag.name@, '>')));
    join_spaced(&parts)
}

/// The names of branches, each between `open` and `close`.
pub fn branches_string(branches: &Vec<&BranchInfo>, open: &str, close: &str) -> (r: String)
    requires
        open@.len() == 1,
        close@.len() == 1,
    ensures
        r@ == branches_label(branches@.map_values(|b: &BranchInfo| *b), open@[0], close@[0]),
{
    let mut parts: Vec<String> = Vec::new();
    let mut i: usize = 0;
    while i < branches.len()
        invariant
            i <= branches@.len(),
            parts@.len() == i,
            open@.len() == 1,
            close@.len() == 1,
            forall|j: int|
                0 <= j < i ==> (#[trigger] parts@[j])@ == bracketed(
                    open@[0],
                    branches@[j].name@,
                    close@[0],
                ),
        decreases branches@.len() - i,
    {
        parts.push(bracket(open, &branches[i].name, close));
        i = i + 1;
    }
    assert(texts(parts@) =~= branches@.map_values(|b: &BranchInfo| *b).map_values(
        |branch: BranchInfo| bracketed(open@[0], branch.name@, close@[0]),
    ));
    join_spaced(&parts)
}

/// Whether `local` follows `remote`.
pub fn follows_branch(local: &BranchInfo, remote: &BranchInfo) -> (r: bool)
    ensures
        r == follows(*local, *remote),
{
    match &local.details {
        BranchDetails::Local(details) => match &details.upstream {
            Some(upstream) => upstream.reference == remote.reference,
            None => false,
        },
        BranchDetails::Remote(_) => false,
    }
}

/// Whether all of `branches` follow `remote`.
pub fn all_following(branches: &Vec<BranchInfo>, remote: &BranchInfo) -> (r: bool)
    ensures
        r == all_follow(branches@, *remote),
{
    let mut i: usize = 0;
    while i < branches.len()
        invariant
            i <= branches@.len(),
            forall|j: int| 0 <= j < i ==> follows(#[trigger] branches@[j], *remote),
        decreases branches@.len() - i,
    {
        if !follows_branch(&branches[i], remote) {
            return false;
        }
        i = i + 1;
    }
    true
}

/// Whether a remote branch is shown beside the local branches of its commit.
pub fn is_remote_shown(local: Option<&Vec<BranchInfo>>, remote: &BranchInfo) -> (r: bool)
    ensures
        r == shows_remote(
            match local {
                Some(branches) => Some(branches@),
                None => None,
            },
            *remote,
        ),
{
    match local {
        None => true,
        Some(branches) => !all_following(branches, remote),
    }
}

/// Appends a piece in a style of the theme.
fn push_span(row: &mut Vec<Span>, content: &str, style: ThemeStyle)
    ensures
        row_view(final(row)@) == row_view(old(row)@).push(SpanView::Themed(content@, style)),
        final(row)@.len() == old(row)@.len() + 1,
        forall|i: int| 0 <= i < old(row)@.len() ==> #[trigger] final(row)@[i] == old(row)@[i],
{
    row.push(Span::Themed(content.to_owned(), style));
    assert(row_view(row@) =~= row_view(old(row)@).push(SpanView::Themed(content@, style)));
}

/// Appends a splitter and a piece, where there is a text for it.
fn push_label(
    row: &mut Vec<Span>,
    splitter_style: ThemeStyle,
    label: &Option<String>,
    style: ThemeStyle,
)
    ensures
        row_view(final(row)@) == row_view(old(row)@) + optional_label(
            SpanView::Themed(seq![' '], splitter_style),
            optional_text(*label),
            style,
        ),
{
    proof {
        reveal_strlit(" ");
        assert(" "@ =~= seq![' ']);
    }
    if let Some(text) = label {
        push_span(row, " ", splitter_style);
        push_span(row, text.as_str(), style);
    }
    assert(row_view(row@) =~= row_view(old(row)@) + optional_label(
        SpanView::Themed(seq![' '], splitter_style),
        optional_text(*label),
        style,
    ));
}

/// The style of splitters.
fn splitter_style(normal: bool, selected: bool) -> (r: ThemeStyle)
    ensures
        normal ==> r == (ThemeStyle::Text { selected }),
        !normal ==> r is Default,
{
    if normal {
        ThemeStyle::Text { selected }
    } else {
        ThemeStyle::Default
    }
}

/// `style`, or that of commits which are not highlighted.
fn entry_style(normal: bool, style: ThemeStyle) -> (r: ThemeStyle)
    ensures
        r == (if normal {
            style
        } else {
            ThemeStyle::CommitUnhighlighted
        }),
{
    if normal {
        style
    } else {
        ThemeStyle::CommitUnhighlighted
    }
}

/// Appends the mark and the graph.
fn push_front(
    row: &mut Vec<Span>,
    marked: Option<bool>,
    graph: &Option<String>,
    normal: bool,
    selected: bool,
    shown: Ghost<EntryView>,
)
    requires
        shown@.marked == marked,
        shown@.graph == optional_text(*graph),
        shown@.normal == normal,
        shown@.selected == selected,
    ensures
        row_view(final(row)@) == row_view(old(row)@) + shown@.marker() + shown@.graph_column(),
{
    proof {
        reveal_strlit(" ");
        reveal_strlit("\u{2713}");
        assert(" "@ =~= seq![' ']);
        assert("\u{2713}"@ =~= seq!['\u{2713}']);
    }
    let splitter = splitter_style(normal, selected);
    let ghost before = row_view(row@);
    if let Some(marked) = marked {
        let symbol: &str = if marked {
            "\u{2713}"
        } else {
            " "
        };
        push_span(row, symbol, ThemeStyle::LogMarker { selected });
        push_span(row, " ", splitter);
    }
    let ghost with_marker = row_view(row@);
    assert(with_marker =~= before + shown@.marker());
    if let Some(graph) = graph {
        push_span(row, graph.as_str(), ThemeStyle::Default);
        push_span(row, " ", splitter);
    }
    assert(row_view(row@) =~= with_marker + shown@.graph_column());
}

/// Appends the id, the time and the author.
fn push_columns(
    row: &mut Vec<Span>,
    e: &LogEntry,
    time: &str,
    width: usize,
    normal: bool,
    selected: bool,
    shown: Ghost<EntryView>,
)
    requires
        shown@.hash == e.hash_short@,
        shown@.time == time@,
        shown@.author == e.author@,
        shown@.normal == normal,
        shown@.selected == selected,
    ensures
        row_view(final(row)@) == row_view(old(row)@) + shown@.columns(width as int),
{
    proof {
        reveal_strlit(" ");
        assert(" "@ =~= seq![' ']);
    }
    let splitter = splitter_style(normal, selected);
    push_span(
        row,
        e.hash_short.as_str(),
        entry_style(normal, ThemeStyle::CommitHash { selected }),
    );
    push_span(row, " ", splitter);
    push_span(row, time, entry_style(normal, ThemeStyle::CommitTime { selected }));
    push_span(row, " ", splitter);
    let share: usize = width.saturating_sub(AUTHOR_RESERVE) / 3;
    let author_width: usize = if share < AUTHOR_MIN {
        AUTHOR_MIN
    } else if share > AUTHOR_MAX {
        AUTHOR_MAX
    } else {
        share
    };
    let author = string_width_align(e.author.as_str(), author_width);
    push_span(row, author.as_str(), entry_style(normal, ThemeStyle::CommitAuthor { selected }));
    push_span(row, " ", splitter);
    assert(row_view(row@) =~= row_view(old(row)@) + shown@.columns(width as int));
}

/// Appends the tags and branches, and the splitter behind them.
fn push_labels(
    row: &mut Vec<Span>,
    tags: &Option<String>,
    local_branches: &Option<String>,
    remote_branches: &Option<String>,
    normal: bool,
    selected: bool,
    shown: Ghost<EntryView>,
)
    requires
        shown@.tags == optional_text(*tags),
        shown@.local_branches == optional_text(*local_branches),
        shown@.remote_branches == optional_text(*remote_branches),
        shown@.normal == normal,
        shown@.selected == selected,
    ensures
        row_view(final(row)@) == row_view(old(row)@) + shown@.labels() + seq![shown@.splitter()],
{
    let splitter = splitter_style(normal, selected);
    let style_tags = entry_style(normal, ThemeStyle::Tags { selected });
    let style_branches = entry_style(normal, ThemeStyle::Branch { selected });
    push_label(row, splitter, tags, style_tags);
    push_label(row, splitter, local_branches, style_branches);
    push_label(row, splitter, remote_branches, style_branches);
    assert(row_view(row@) =~= row_view(old(row)@) + shown@.labels());
    proof {
        reveal_strlit(" ");
        assert(" "@ =~= seq![' ']);
    }
    push_span(row, " ", splitter);
    assert(row_view(row@) =~= row_view(old(row)@) + shown@.labels() + seq![shown@.splitter()]);
}

/// Number of bytes in the texts of a row, or the greatest number that there is.
fn count_bytes(row: &Vec<Span>) -> (r: usize)
    ensures
        row_bytes(row_view(row@)) <= usize::MAX ==> r == row_bytes(row_view(row@)),
        row_bytes(row_view(row@)) > usize::MAX ==> r == usize::MAX,
{
    let mut total: usize = 0;
    let mut i: usize = 0;
    let ghost view = row_view(row@);
    assert(view.take(0).len() == 0);
    while i < row.len()
        invariant
            i <= row@.len(),
            view == row_view(row@),
            row_bytes(view.take(i as int)) <= usize::MAX ==> total == row_bytes(
                view.take(i as int),
            ),
            row_bytes(view.take(i as int)) > usize::MAX ==> total == usize::MAX,
        decreases row@.len() - i,
    {
        proof {
            assert(view.take(i + 1).drop_last() =~= view.take(i as int));
            assert(view.take(i + 1).last() == row@[i as int]@);
        }
        let len: usize = match &row[i] {
            Span::Themed(content, _) => content.as_str().len(),
            Span::Ansi(span) => span.0.as_str().len(),
        };
        total = total.saturating_add(len);
        i = i + 1;
    }
    assert(view.take(i as int) =~= view);
    total
}

/// The row of a line of the graph: an arrow where it is selected, the graph, a bar and the text.
/// A missing graph or text is replaced by a note.
pub open spec fn graph_row_view(
    line: int,
    selected: bool,
    graph: Option<Seq<AnsiSpanView>>,
    text: Option<Seq<AnsiSpanView>>,
) -> Seq<SpanView> {
    let arrow = if selected {
        seq![SpanView::Themed("-->"@, ThemeStyle::Default)]
    } else {
        Seq::empty()
    };
    let graph_part = match graph {
        Some(spans) => spans.map_values(|span: AnsiSpanView| SpanView::Ansi(span)),
        None => seq![
            SpanView::Themed(
                "no graph_lines["@ + decimal(line as nat) + "]"@,
                ThemeStyle::Default,
            ),
        ],
    };
    let text_part = match text {
        Some(spans) => spans.map_values(|span: AnsiSpanView| SpanView::Ansi(span)),
        None => seq![
            SpanView::Themed("no text line at "@ + decimal(line as nat), ThemeStyle::Default),
        ],
    };
    arrow + graph_part + seq![SpanView::Themed("|"@, ThemeStyle::Default)] + text_part
}

/// Appends styled pieces.
fn append_ansi_text(row: &mut Vec<Span>, spans: Vec<AnsiSpan>)
    ensures
        row_view(final(row)@) == row_view(old(row)@) + ansi_line_view(spans).map_values(
            |span: AnsiSpanView| SpanView::Ansi(span),
        ),
        final(row)@ == old(row)@ + spans@.map_values(|span: AnsiSpan| Span::Ansi(span)),
{
    let ghost before = row_view(row@);
    let ghost added = ansi_line_view(spans).map_values(|span: AnsiSpanView| SpanView::Ansi(span));
    assert(before + added.take(0) =~= before);
    assert(row@ =~= old(row)@ + spans@.take(0).map_values(|span: AnsiSpan| Span::Ansi(span)));
    for span in walk: spans
        invariant
            walk.seq() == spans@,
            added == ansi_line_view(spans).map_values(|span: AnsiSpanView| SpanView::Ansi(span)),
            row_view(row@) == before + added.take(walk.index()),
            row@ == old(row)@ + spans@.take(walk.index()).map_values(
                |span: AnsiSpan| Span::Ansi(span),
            ),
    {
        let ghost so_far = row_view(row@);
        row.push(Span::Ansi(span));
        proof {
            let new_span = SpanView::Ansi(ansi_span_view(span));
            assert(row_view(row@) =~= so_far.push(new_span));
            assert(added.take(walk.index() + 1) =~= added.take(walk.index()).push(new_span));
            assert(row_view(row@) =~= before + added.take(walk.index() + 1));
            assert(row@ =~= old(row)@ + spans@.take(walk.index() + 1).map_values(
                |span: AnsiSpan| Span::Ansi(span),
            ));
        }
    }
    assert(added.take(added.len() as int) =~= added);
    assert(spans@.take(spans@.len() as int) =~= spans@);
}

/// The row of line `line`, from the styled pieces of its graph and its text.
pub fn graph_row(
    line: usize,
    selected: bool,
    graph: Option<Vec<AnsiSpan>>,
    text: Option<Vec<AnsiSpan>>,
) -> (r: Vec<Span>)
    ensures
        row_view(r@) == graph_row_view(
            line as int,
            selected,
            match graph {
                Some(spans) => Some(ansi_line_view(spans)),
                None => None,
            },
            match text {
                Some(spans) => Some(ansi_line_view(spans)),
                None => None,
            },
        ),
        graph is Some && text is Some ==> {
            let before = if selected { 1int } else { 0 };
            let bar = before + graph->0@.len();
            &&& r@.len() == bar + 1 + text->0@.len()
            &&& forall|i: int|
                before <= i < bar ==> (#[trigger] r@[i]) == Span::Ansi(graph->0@[i - before])
            &&& forall|i: int|
                bar < i < r@.len() ==> (#[trigger] r@[i]) == Span::Ansi(text->0@[i - bar - 1])
        },
{
    let mut row: Vec<Span> = Vec::new();
    assert(row_view(row@) =~= Seq::<SpanView>::empty());
    if selected {
        push_span(&mut row, "-->", ThemeStyle::Default);
    }
    let ghost with_arrow = row_view(row@);
    match graph {
        Some(spans) => append_ansi_text(&mut row, spans),
        None => {
            let mut note = "no graph_lines[".to_owned();
            note.append(decimal_text(line).as_str());
            note.append("]");
            push_span(&mut row, note.as_str(), ThemeStyle::Default);
        },
    }
    push_span(&mut row, "|", ThemeStyle::Default);
    match text {
        Some(spans) => append_ansi_text(&mut row, spans),
        None => {
            let mut note = "no text line at ".to_owned();
            note.append(decimal_text(line).as_str());
            push_span(&mut row, note.as_str(), ThemeStyle::Default);
        },
    }
    assert(row_view(row@) =~= graph_row_view(
        line as int,
        selected,
        match graph {
            Some(spans) => Some(ansi_line_view(spans)),
            None => None,
        },
        match text {
            Some(spans) => Some(ansi_line_view(spans)),
            None => None,
        },
    ));
    row
}

/// Where a graph begins, and how many commits it covers.
pub struct GraphRequest {
    /// The revision of the first commit.
    pub start_rev: String,
    /// Number of commits.
    pub count: usize,
}

/// Where a view begins, which decides what graph it shows.
#[derive(Clone, Copy, Debug, PartialEq, Eq, Structural)]
pub struct GraphPlace {
    /// Index of the first commit of the view.
    pub top: usize,
    /// That commit, where it is loaded.
    pub first: Option<CommitId>,
}

/// The styled pieces of line `i` of `lines`.
pub open spec fn line_spans(lines: Seq<String>, i: int) -> Option<Seq<AnsiSpanView>> {
    if i < lines.len() {
        Some(ansi_line(lines[i]@))
    } else {
        None
    }
}

/// Whether the first `height` of `lines` are single lines.
pub open spec fn lines_single(lines: Seq<String>, height: int) -> bool {
    forall|i: int| 0 <= i < height && i < lines.len() ==> single_line(#[trigger] lines[i]@)
}

impl CommitList {
    /// What a row shows of the loaded commit `e`.
    pub open spec fn entry_view(
        self,
        graph: Option<Seq<char>>,
        e: LogEntry,
        selected: bool,
        tags: Option<Seq<char>>,
        local_branches: Option<Seq<char>>,
        remote_branches: Option<Seq<char>>,
        time: Seq<char>,
        marked: Option<bool>,
    ) -> EntryView {
        EntryView {
            graph,
            hash: e.hash_short@,
            time,
            author: e.author@,
            msg: e.msg@,
            tags,
            local_branches,
            remote_branches,
            marked,
            selected,
            normal: !self.items.highlighting || e.highlighted,
        }
    }

    /// What the list shows of the loaded commit at position `i` of the window.
    pub open spec fn listed_view(self, i: int, time: Seq<char>) -> EntryView {
        let e = self.items.items@[i];
        self.entry_view(
            None,
            e,
            i == self.selected(),
            match self.tags {
                Some(tags) => match lookup(tags@, e.id) {
                    Some(list) => Some(tags_label(list)),
                    None => None,
                },
                None => None,
            },
            match lookup(self.local_branches@, e.id) {
                Some(list) => Some(branches_label(list, '{', '}')),
                None => None,
            },
            remote_label(
                lookup(self.local_branches@, e.id),
                lookup(self.remote_branches@, e.id),
            ),
            time,
            if self.marked@.len() == 0 {
                None
            } else {
                Some(has_mark(self.marked@, e.id))
            },
        )
    }

    /// Number of rows that a view of `height` rows shows without the graph.
    pub open spec fn listed_rows(self, height: int) -> int {
        let rest = self.items.items@.len() - self.scroll_top.index();
        if rest <= 0 {
            0
        } else if rest <= height {
            rest
        } else {
            height
        }
    }

    /// The row of a loaded commit.
    pub fn get_entry_to_add(
        &self,
        e: &LogEntry,
        selected: bool,
        tags: Option<String>,
        local_branches: Option<String>,
        remote_branches: Option<String>,
        width: usize,
        time: &str,
        marked: Option<bool>,
    ) -> (r: Vec<Span>)
        ensures
            row_view(r@) == self.entry_view(
                None,
                *e,
                selected,
                optional_text(tags),
                optional_text(local_branches),
                optional_text(remote_branches),
                time@,
                marked,
            ).row(width as int),
    {
        self.get_graph_entry_to_add(
            None,
            e,
            selected,
            tags,
            local_branches,
            remote_branches,
            width,
            time,
            marked,
        )
    }

    /// The row of a loaded commit, with the graph before it.
    pub fn get_graph_entry_to_add(
        &self,
        graph: Option<String>,
        e: &LogEntry,
        selected: bool,
        tags: Option<String>,
        local_branches: Option<String>,
        remote_branches: Option<String>,
        width: usize,
        time: &str,
        marked: Option<bool>,
    ) -> (r: Vec<Span>)
        ensures
            row_view(r@) == self.entry_view(
                optional_text(graph),
                *e,
                selected,
                optional_text(tags),
                optional_text(local_branches),
                optional_text(remote_branches),
                time@,
                marked,
            ).row(width as int),
    {
        let ghost shown = self.entry_view(
            optional_text(graph),
            *e,
            selected,
            optional_text(tags),
            optional_text(local_branches),
            optional_text(remote_branches),
            time@,
            marked,
        );
        let mut txt: Vec<Span> = Vec::new();
        assert(row_view(txt@) =~= Seq::<SpanView>::empty());
        let normal = !self.items.highlighting() || e.highlighted;
        push_front(&mut txt, marked, &graph, normal, selected, Ghost(shown));
        push_columns(&mut txt, e, time, width, normal, selected, Ghost(shown));
        push_labels(
            &mut txt,
            &tags,
            &local_branches,
            &remote_branches,
            normal,
            selected,
            Ghost(shown),
        );
        assert(row_view(txt@) =~= shown.head(width as int));
        let message_width: usize = width.saturating_sub(count_bytes(&txt));
        let msg = pad(e.msg.as_str(), message_width);
        push_span(
            &mut txt,
            msg.as_str(),
            entry_style(normal, ThemeStyle::Text { selected }),
        );
        txt
    }

    /// The label of the remote branches of a loaded commit, without those that all of its local
    /// branches follow.
    pub fn remote_branches_string(&self, e: &LogEntry) -> (r: Option<String>)
        ensures
            optional_text(r) == remote_label(
                lookup(self.local_branches@, e.id),
                lookup(self.remote_branches@, e.id),
            ),
    {
        let remote_branches = match self.remote_branches.get(&e.id) {
            Some(branches) => branches,
            None => {
                return None;
            },
        };
        let local = self.local_branches.get(&e.id);
        let ghost local_view = lookup(self.local_branches@, e.id);
        let mut filtered: Vec<&BranchInfo> = Vec::new();
        let ghost shown = |branch: BranchInfo| shows_remote(local_view, branch);
        let mut i: usize = 0;
        proof {
            reveal(Seq::filter);
            reveal_strlit("[");
            reveal_strlit("]");
            assert(filtered@.map_values(|b: &BranchInfo| *b) =~= remote_branches@.take(0).filter(
                shown,
            ));
        }
        while i < remote_branches.len()
            invariant
                i <= remote_branches@.len(),
                local_view == (match local {
                    Some(branches) => Some(branches@),
                    None => None,
                }),
                shown == (|branch: BranchInfo| shows_remote(local_view, branch)),
                filtered@.map_values(|b: &BranchInfo| *b) == remote_branches@.take(
                    i as int,
                ).filter(shown),
            decreases remote_branches@.len() - i,
        {
            let branch = &remote_branches[i];
            let ghost before = filtered@.map_values(|b: &BranchInfo| *b);
            let keep = is_remote_shown(local, branch);
            if keep {
                filtered.push(branch);
            }
            proof {
                reveal(Seq::filter);
                assert(remote_branches@.take(i + 1).drop_last() =~= remote_branches@.take(
                    i as int,
                ));
                assert(remote_branches@.take(i + 1).last() == *branch);
                assert(filtered@.map_values(|b: &BranchInfo| *b) =~= if keep {
                    before.push(*branch)
                } else {
                    before
                });
            }
            i = i + 1;
        }
        assert(remote_branches@.take(i as int) =~= remote_branches@);
        if filtered.is_empty() {
            None
        } else {
            Some(branches_string(&filtered, "[", "]"))
        }
    }

    /// The label of the tags of a loaded commit.
    fn tags_text(&self, e: &LogEntry) -> (r: Option<String>)
        ensures
            optional_text(r) == (match self.tags {
                Some(tags) => match lookup(tags@, e.id) {
                    Some(list) => Some(tags_label(list)),
                    None => None,
                },
                None => None,
            }),
    {
        match self.tags() {
            Some(tags) => match tags.get(&e.id) {
                Some(list) => Some(tags_string(list)),
                None => None,
            },
            None => None,
        }
    }

    /// The label of the local branches of a loaded commit.
    fn local_branches_text(&self, e: &LogEntry) -> (r: Option<String>)
        ensures
            optional_text(r) == (match lookup(self.local_branches@, e.id) {
                Some(list) => Some(branches_label(list, '{', '}')),
                None => None,
            }),
    {
        match self.local_branches.get(&e.id) {
            Some(list) => {
                let mut branches: Vec<&BranchInfo> = Vec::new();
                let mut i: usize = 0;
                while i < list.len()
                    invariant
                        i <= list@.len(),
                        branches@.len() == i,
                        forall|j: int| 0 <= j < i ==> *(#[trigger] branches@[j]) == list@[j],
                    decreases list@.len() - i,
                {
                    branches.push(&list[i]);
                    i = i + 1;
                }
                proof {
                    reveal_strlit("{");
                    reveal_strlit("}");
                    assert(branches@.map_values(|b: &BranchInfo| *b) =~= list@);
                }
                Some(branches_string(&branches, "{", "}"))
            },
            None => None,
        }
    }

    /// The rows of the view without the graph. `times` are the times of the loaded commits.
    pub fn get_text_no_graph(&self, height: usize, width: usize, times: &Vec<String>) -> (r: Vec<
        Vec<Span>,
    >)
        requires
            times@.len() == self.items.items@.len(),
        ensures
            r@.len() == self.listed_rows(height as int),
            forall|i: int|
                0 <= i < r@.len() ==> row_view((#[trigger] r@[i])@) == self.listed_view(
                    self.scroll_top.index() + i,
                    times@[self.scroll_top.index() + i]@,
                ).row(width as int),
    {
        let selection_line: usize = self.selection.commit_index.into();
        let skip_commits: usize = self.scroll_top.commit_index.into();
        let mut txt: Vec<Vec<Span>> = Vec::new();
        let mut idx: usize = 0;
        while idx < height && skip_commits < self.items.items.len() && idx
            < self.items.items.len() - skip_commits
            invariant
                times@.len() == self.items.items@.len(),
                selection_line == self.selected(),
                skip_commits == self.scroll_top.index(),
                idx <= self.listed_rows(height as int),
                txt@.len() == idx,
                forall|i: int|
                    0 <= i < idx ==> row_view((#[trigger] txt@[i])@) == self.listed_view(
                        self.scroll_top.index() + i,
                        times@[self.scroll_top.index() + i]@,
                    ).row(width as int),
            decreases height - idx,
        {
            let at: usize = skip_commits + idx;
            let e = &self.items.items[at];
            let row = self.get_entry_to_add(
                e,
                at == selection_line,
                self.tags_text(e),
                self.local_branches_text(e),
                self.remote_branches_string(e),
                width,
                times[at].as_str(),
                self.is_marked(&e.id),
            );
            txt.push(row);
            idx = idx + 1;
        }
        txt
    }

    /// Where the view begins.
    pub open spec fn place(self) -> GraphPlace {
        let position = self.scroll_top.index() - self.items.offset();
        GraphPlace {
            top: self.scroll_top.commit_index.0,
            first: if 0 <= position < self.items.items@.len() {
                Some(self.items.items@[position].id)
            } else {
                None
            },
        }
    }

    /// What the view asks for: nothing where a graph is there already, else a graph of a fixed
    /// number of commits. It begins at the first commit of the view where that is loaded, else at
    /// the head.
    pub open spec fn asks_for_graph(self, cached: bool, request: Option<GraphRequest>) -> bool {
        if cached {
            request is None
        } else {
            &&& request is Some
            &&& request->0.count == GRAPH_COMMIT_COUNT
            &&& request->0.start_rev@ == (match self.place().first {
                Some(id) => id.text().take(SHORT_ID_DIGITS as int),
                None => "HEAD"@,
            })
        }
    }

    /// Where the view begins. A graph that is drawn now is for this place.
    pub fn graph_place(&self) -> (r: GraphPlace)
        ensures
            r == self.place(),
    {
        let top: usize = self.scroll_top.commit_index.into();
        let offset: usize = self.items.index_offset();
        let first = if top < offset {
            None
        } else {
            match self.items.get(top - offset) {
                Some(entry) => Some(entry.id),
                None => None,
            }
        };
        GraphPlace { top, first }
    }

    /// Whether a graph that was drawn for a place is the one that the view shows now.
    pub fn graph_is_current(&self, drawn: Option<GraphPlace>) -> (r: bool)
        ensures
            r == (drawn == Some(self.place())),
    {
        match drawn {
            Some(place) => place == self.graph_place(),
            None => false,
        }
    }

    /// The graph to draw, unless one is there already.
    pub fn get_git_graph(&self, cached: bool) -> (r: Option<GraphRequest>)
        requires
            !cached ==> self.items.offset() <= self.scroll_top.index(),
        ensures
            self.asks_for_graph(cached, r),
    {
        if cached {
            return None;
        }
        let skip_commits: usize = self.scroll_top.commit_index.into();
        let skip_items: usize = skip_commits - self.items.index_offset();
        let start_rev = match self.items.get(skip_items) {
            Some(start_log_entry) => start_log_entry.id.get_short_string(),
            None => "HEAD".to_owned(),
        };
        Some(GraphRequest { start_rev, count: GRAPH_COMMIT_COUNT })
    }

    /// The rows of the view with the graph, from the lines of the graph and of the commit texts.
    pub fn get_text_graph(
        &self,
        height: usize,
        graph_lines: &Vec<String>,
        text_lines: &Vec<String>,
    ) -> (r: Vec<Vec<Span>>)
        requires
            self.scroll_top.index() + height <= usize::MAX,
            lines_single(graph_lines@, height as int),
            lines_single(text_lines@, height as int),
        ensures
            r@.len() == height,
            forall|i: int|
                0 <= i < height ==> row_view((#[trigger] r@[i])@) == graph_row_view(
                    i,
                    self.scroll_top.index() + i == self.selected(),
                    line_spans(graph_lines@, i),
                    line_spans(text_lines@, i),
                ),
    {
        let scroll_top_doc_line: usize = self.scroll_top.commit_index.into();
        let selection_doc_line: usize = self.selection().commit_index.into();
        let mut txt: Vec<Vec<Span>> = Vec::new();
        let mut i: usize = 0;
        while i < height
            invariant
                i <= height,
                self.scroll_top.index() + height <= usize::MAX,
                lines_single(graph_lines@, height as int),
                lines_single(text_lines@, height as int),
                scroll_top_doc_line == self.scroll_top.index(),
                selection_doc_line == self.selected(),
                txt@.len() == i,
                forall|j: int|
                    0 <= j < i ==> row_view((#[trigger] txt@[j])@) == graph_row_view(
                        j,
                        self.scroll_top.index() + j == self.selected(),
                        line_spans(graph_lines@, j),
                        line_spans(text_lines@, j),
                    ),
            decreases height - i,
        {
            let doc_line: usize = scroll_top_doc_line + i;
            let graph = if i < graph_lines.len() {
                assert(single_line(graph_lines@[i as int]@));
                Some(ansi_spans(&graph_lines[i]))
            } else {
                None
            };
            let text = if i < text_lines.len() {
                assert(single_line(text_lines@[i as int]@));
                Some(ansi_spans(&text_lines[i]))
            } else {
                None
            };
            let row = graph_row(i, doc_line == selection_doc_line, graph, text);
            txt.push(row);
            i = i + 1;
        }
        txt
    }

    /// The rows of the view at the current scroll offset.
    pub fn get_text(
        &self,
        height: usize,
        width: usize,
        graph_lines: &Vec<String>,
        text_lines: &Vec<String>,
        times: &Vec<String>,
    ) -> (r: Vec<Vec<Span>>)
        requires
            self.scroll_top.index() + height <= usize::MAX,
            lines_single(graph_lines@, height as int),
            lines_single(text_lines@, height as int),
            times@.len() == self.items.items@.len(),
        ensures
            r@.len() == height,
            forall|i: int|
                0 <= i < height ==> row_view((#[trigger] r@[i])@) == graph_row_view(
                    i,
                    self.scroll_top.index() + i == self.selected(),
                    line_spans(graph_lines@, i),
                    line_spans(text_lines@, i),
                ),
            LOG_GRAPH_ENABLED ==> {
                &&& r@.len() == height
                &&& forall|i: int|
                    0 <= i < height ==> row_view((#[trigger] r@[i])@) == graph_row_view(
                        i,
                        self.scroll_top.index() + i == self.selected(),
                        line_spans(graph_lines@, i),
                        line_spans(text_lines@, i),
                    )
            },
            !LOG_GRAPH_ENABLED ==> {
                &&& r@.len() == self.listed_rows(height as int)
                &&& forall|i: int|
                    0 <= i < r@.len() ==> row_view((#[trigger] r@[i])@) == self.listed_view(
                        self.scroll_top.index() + i,
                        times@[self.scroll_top.index() + i]@,
                    ).row(width as int)
            },
    {
        if LOG_GRAPH_ENABLED {
            self.get_text_graph(height, graph_lines, text_lines)
        } else {
            self.get_text_no_graph(height, width, times)
        }
    }
}

/// A view that has moved asks for a new graph, of the fixed number of commits from its first one
/// on.
pub proof fn law_moved_view_asks_anew(
    drawn: CommitList,
    moved: CommitList,
    request: Option<GraphRequest>,
)
    requires
        moved.scroll_top.index() != drawn.scroll_top.index(),
        moved.items.offset() <= moved.scroll_top.index(),
        moved.scroll_top.index() - moved.items.offset() < moved.items.items@.len(),
        moved.asks_for_graph(drawn.place() == moved.place(), request),
    ensures
        request is Some,
        request->0.count == GRAPH_COMMIT_COUNT,
        request->0.start_rev@ == moved.items.items@[moved.scroll_top.index()
            - moved.items.offset()].id.text().take(SHORT_ID_DIGITS as int),
{
}

/// Views that begin at the same place ask for the same graph.
pub proof fn law_same_place_same_graph(
    a: CommitList,
    b: CommitList,
    request_a: Option<GraphRequest>,
    request_b: Option<GraphRequest>,
)
    requires
        a.place() == b.place(),
        a.asks_for_graph(false, request_a),
        b.asks_for_graph(false, request_b),
    ensures
        request_a->0.start_rev@ == request_b->0.start_rev@,
        request_a->0.count == request_b->0.count,
{
}

/// The texts of the pieces of a row, put together.
pub open spec fn row_text(row: Seq<SpanView>) -> Seq<char>
    decreases row.len(),
{
    if row.len() == 0 {
        Seq::empty()
    } else {
        row_text(row.drop_last()) + match row.last() {
            SpanView::Themed(content, _) => content,
            SpanView::Ansi(span) => span.0,
        }
    }
}

/// The texts of styled pieces, put together.
pub open spec fn styled_text(spans: Seq<AnsiSpanView>) -> Seq<char>
    decreases spans.len(),
{
    if spans.len() == 0 {
        Seq::empty()
    } else {
        styled_text(spans.drop_last()) + spans.last().0
    }
}

/// Number of pieces of a row that have a style of their own.
pub open spec fn styled_count(row: Seq<SpanView>) -> nat
    decreases row.len(),
{
    if row.len() == 0 {
        0
    } else {
        styled_count(row.drop_last()) + if row.last() is Ansi {
            1nat
        } else {
            0
        }
    }
}

/// The texts of two parts of a row follow each other.
proof fn lemma_row_text(a: Seq<SpanView>, b: Seq<SpanView>)
    ensures
        row_text(a + b) == row_text(a) + row_text(b),
        styled_count(a + b) == styled_count(a) + styled_count(b),
        row_bytes(a + b) == row_bytes(a) + row_bytes(b),
    decreases b.len(),
{
    if b.len() == 0 {
        assert(a + b =~= a);
        assert(row_text(a) + row_text(b) =~= row_text(a));
    } else {
        lemma_row_text(a, b.drop_last());
        assert((a + b).drop_last() =~= a + b.drop_last());
        assert((a + b).last() == b.last());
        assert(row_text(a + b) =~= row_text(a) + row_text(b));
    }
}

/// The text of a row of one piece.
proof fn lemma_piece_text(piece: SpanView)
    ensures
        row_text(seq![piece]) == match piece {
            SpanView::Themed(content, _) => content,
            SpanView::Ansi(span) => span.0,
        },
        styled_count(seq![piece]) == if piece is Ansi {
            1nat
        } else {
            0
        },
{
    assert(seq![piece].drop_last() =~= Seq::<SpanView>::empty());
    assert(row_text(Seq::<SpanView>::empty()) =~= Seq::<char>::empty());
    assert(styled_count(Seq::<SpanView>::empty()) == 0);
    assert(seq![piece].last() == piece);
    assert(row_text(seq![piece]) =~= match piece {
        SpanView::Themed(content, _) => content,
        SpanView::Ansi(span) => span.0,
    });
}

/// Styled pieces keep their texts in a row.
proof fn lemma_styled_text(spans: Seq<AnsiSpanView>)
    ensures
        row_text(spans.map_values(|span: AnsiSpanView| SpanView::Ansi(span))) == styled_text(spans),
        styled_count(spans.map_values(|span: AnsiSpanView| SpanView::Ansi(span))) == spans.len(),
    decreases spans.len(),
{
    let row = spans.map_values(|span: AnsiSpanView| SpanView::Ansi(span));
    if spans.len() > 0 {
        let rest = spans.drop_last();
        lemma_styled_text(rest);
        assert(row.drop_last() =~= rest.map_values(|span: AnsiSpanView| SpanView::Ansi(span)));
    }
}

/// A row of the graph reads as the arrow where it is selected, the whole line of the graph, a bar
/// and the whole text. A note stands for a line or a text that is missing. No piece of either is
/// lost, and no other piece has a style of its own.
pub proof fn law_graph_row_text(
    line: nat,
    selected: bool,
    graph: Option<Seq<AnsiSpanView>>,
    text: Option<Seq<AnsiSpanView>>,
)
    ensures
        ({
            let row = graph_row_view(line as int, selected, graph, text);
            let arrow = if selected { "-->"@ } else { Seq::empty() };
            let graph_text = match graph {
                Some(spans) => styled_text(spans),
                None => "no graph_lines["@ + decimal(line) + "]"@,
            };
            let commit_text = match text {
                Some(spans) => styled_text(spans),
                None => "no text line at "@ + decimal(line),
            };
            let graph_count = match graph { Some(spans) => spans.len(), None => 0 };
            let text_count = match text { Some(spans) => spans.len(), None => 0 };
            &&& row_text(row) == arrow + graph_text + "|"@ + commit_text
            &&& styled_count(row) == graph_count + text_count
        }),
{
    let row = graph_row_view(line as int, selected, graph, text);
    let arrow_piece = SpanView::Themed("-->"@, ThemeStyle::Default);
    let arrow_part = if selected { seq![arrow_piece] } else { Seq::empty() };
    let graph_note = SpanView::Themed(
        "no graph_lines["@ + decimal(line) + "]"@,
        ThemeStyle::Default,
    );
    let graph_part = match graph {
        Some(spans) => spans.map_values(|span: AnsiSpanView| SpanView::Ansi(span)),
        None => seq![graph_note],
    };
    let bar = SpanView::Themed("|"@, ThemeStyle::Default);
    let text_note = SpanView::Themed("no text line at "@ + decimal(line), ThemeStyle::Default);
    let text_part = match text {
        Some(spans) => spans.map_values(|span: AnsiSpanView| SpanView::Ansi(span)),
        None => seq![text_note],
    };
    lemma_piece_text(arrow_piece);
    lemma_piece_text(graph_note);
    lemma_piece_text(bar);
    lemma_piece_text(text_note);
    if let Some(spans) = graph {
        lemma_styled_text(spans);
    }
    if let Some(spans) = text {
        lemma_styled_text(spans);
    }
    lemma_row_text(arrow_part, graph_part);
    lemma_row_text(arrow_part + graph_part, seq![bar]);
    lemma_row_text(arrow_part + graph_part + seq![bar], text_part);
    assert(row =~= arrow_part + graph_part + seq![bar] + text_part);
}

/// The styled pieces of a row of the graph are those of the line of the graph and then those of the
/// text, with their styles, around the bar. All other pieces have no style.
pub proof fn law_graph_row_pieces(
    line: int,
    selected: bool,
    graph: Seq<AnsiSpanView>,
    text: Seq<AnsiSpanView>,
)
    ensures
        ({
            let row = graph_row_view(line, selected, Some(graph), Some(text));
            let first = if selected { 1int } else { 0 };
            let bar = first + graph.len();
            &&& row.len() == bar + 1 + text.len()
            &&& selected ==> row[0] == SpanView::Themed("-->"@, ThemeStyle::Default)
            &&& forall|i: int|
                first <= i < bar ==> #[trigger] row[i] == SpanView::Ansi(graph[i - first])
            &&& row[bar] == SpanView::Themed("|"@, ThemeStyle::Default)
            &&& forall|i: int|
                bar < i < row.len() ==> #[trigger] row[i] == SpanView::Ansi(text[i - bar - 1])
        }),
{
}

/// The pieces of a row are what they hold, one for one.
pub proof fn law_row_view(row: Seq<Span>, i: int)
    requires
        0 <= i < row.len(),
    ensures
        row_view(row).len() == row.len(),
        match row[i] {
            Span::Themed(content, style) => row_view(row)[i] == SpanView::Themed(content@, style),
            Span::Ansi(span) => {
                &&& row_view(row)[i] is Ansi
                &&& row_view(row)[i]->Ansi_0.0 == span.0@
                &&& row_view(row)[i]->Ansi_0.1 == optional_text(span.1)
                &&& row_view(row)[i]->Ansi_0.2 == optional_text(span.2)
                &&& row_view(row)[i]->Ansi_0.3 == optional_text(span.3)
                &&& row_view(row)[i]->Ansi_0.4 == span.4
                &&& row_view(row)[i]->Ansi_0.5 == span.5
            },
        },
{
}

/// Line `i` of the view has the pieces of line `i` of the lines, where there is one.
pub proof fn law_line_spans(lines: Seq<String>, i: int)
    requires
        0 <= i,
    ensures
        i < lines.len() ==> line_spans(lines, i) == Some(ansi_lines(lines[i]@)[0]),
        i >= lines.len() ==> line_spans(lines, i) is None,
{
}

/// A text that a row has only where there is one, behind a space.
pub open spec fn spaced(label: Option<Seq<char>>) -> Seq<char> {
    match label {
        Some(text) => seq![' '] + text,
        None => Seq::empty(),
    }
}

/// The text of a label, and the space in front of it.
proof fn lemma_label_text(shown: EntryView, label: Option<Seq<char>>, style: ThemeStyle)
    ensures
        row_text(optional_label(shown.splitter(), label, style)) == spaced(label),
{
    if let Some(text) = label {
        let (space, piece) = (shown.splitter(), SpanView::Themed(text, style));
        lemma_piece_text(space);
        lemma_piece_text(piece);
        lemma_row_text(seq![space], seq![piece]);
        assert(optional_label(space, label, style) =~= seq![space] + seq![piece]);
    }
}

/// The text in front of the columns.
proof fn lemma_front_text(shown: EntryView)
    ensures
        row_text(shown.marker() + shown.graph_column()) == (match shown.marked {
            Some(marked) => seq![
                if marked {
                    '\u{2713}'
                } else {
                    ' '
                },
                ' ',
            ],
            None => Seq::empty(),
        }) + (match shown.graph {
            Some(graph) => graph + seq![' '],
            None => Seq::empty(),
        }),
{
    let space = shown.splitter();
    lemma_piece_text(space);
    if shown.marked is Some {
        let mark = shown.marker()[0];
        lemma_piece_text(mark);
        lemma_row_text(seq![mark], seq![space]);
        assert(shown.marker() =~= seq![mark] + seq![space]);
    }
    if shown.graph is Some {
        let graph = shown.graph_column()[0];
        lemma_piece_text(graph);
        lemma_row_text(seq![graph], seq![space]);
        assert(shown.graph_column() =~= seq![graph] + seq![space]);
    }
    lemma_row_text(shown.marker(), shown.graph_column());
    assert(row_text(shown.marker()) =~= match shown.marked {
        Some(marked) => seq![
            if marked {
                '\u{2713}'
            } else {
                ' '
            },
            ' ',
        ],
        None => Seq::empty(),
    });
}

/// The text of the columns.
proof fn lemma_columns_text(shown: EntryView, width: int)
    ensures
        row_text(shown.columns(width)) == shown.hash + seq![' '] + shown.time + seq![' '] + aligned(
            shown.author,
            author_width(width) as nat,
        ) + seq![' '],
{
    let all = shown.columns(width);
    let space = shown.splitter();
    lemma_piece_text(space);
    lemma_piece_text(all[0]);
    lemma_piece_text(all[2]);
    lemma_piece_text(all[4]);
    lemma_row_text(seq![all[0]], seq![space]);
    lemma_row_text(seq![all[0]] + seq![space], seq![all[2]]);
    lemma_row_text(seq![all[0]] + seq![space] + seq![all[2]], seq![space]);
    lemma_row_text(seq![all[0]] + seq![space] + seq![all[2]] + seq![space], seq![all[4]]);
    lemma_row_text(
        seq![all[0]] + seq![space] + seq![all[2]] + seq![space] + seq![all[4]],
        seq![space],
    );
    assert(all =~= seq![all[0]] + seq![space] + seq![all[2]] + seq![space] + seq![all[4]] + seq![
        space,
    ]);
}

/// A row reads as the mark, where some commits are marked, the graph, where there is one, the id,
/// the time, the author, the labels that there are, and the message, with spaces between them. The
/// message is padded by as much as the rest of the row leaves of the width.
pub proof fn law_row_text(shown: EntryView, width: int)
    ensures
        ({
            let row = shown.row(width);
            let used = row_bytes(row.drop_last());
            let left = if used <= width { width - used } else { 0 };
            let mark = match shown.marked {
                Some(marked) => seq![
                    if marked {
                        '\u{2713}'
                    } else {
                        ' '
                    },
                    ' ',
                ],
                None => Seq::empty(),
            };
            let graph = match shown.graph {
                Some(graph) => graph + seq![' '],
                None => Seq::empty(),
            };
            let columns = shown.hash + seq![' '] + shown.time + seq![' '] + aligned(
                shown.author,
                author_width(width) as nat,
            ) + seq![' '];
            let labels = spaced(shown.tags) + spaced(shown.local_branches) + spaced(
                shown.remote_branches,
            );
            row_text(row) == mark + graph + columns + labels + seq![' '] + padded(
                shown.msg,
                left as nat,
            )
        }),
{
    let row = shown.row(width);
    let front = shown.marker() + shown.graph_column();
    let columns = shown.columns(width);
    let space = shown.splitter();
    let tags = shown.style(ThemeStyle::Tags { selected: shown.selected });
    let branches = shown.style(ThemeStyle::Branch { selected: shown.selected });
    let first = optional_label(space, shown.tags, tags);
    let second = optional_label(space, shown.local_branches, branches);
    let third = optional_label(space, shown.remote_branches, branches);
    lemma_front_text(shown);
    lemma_columns_text(shown, width);
    lemma_label_text(shown, shown.tags, tags);
    lemma_label_text(shown, shown.local_branches, branches);
    lemma_label_text(shown, shown.remote_branches, branches);
    lemma_row_text(first, second);
    lemma_row_text(first + second, third);
    lemma_row_text(front, columns);
    lemma_row_text(front + columns, shown.labels());
    lemma_piece_text(space);
    lemma_row_text(front + columns + shown.labels(), seq![space]);
    assert(row.drop_last() =~= front + columns + shown.labels() + seq![space]);
}

/// The columns of a row have their own styles, behind the mark and the graph. They tell whether the
/// row is selected, and whether the commit is shown in full colours.
pub proof fn law_row_styles(shown: EntryView, width: int)
    ensures
        ({
            let row = shown.row(width);
            let selected = shown.selected;
            let marks = if shown.marked is Some { 2int } else { 0 };
            let at = marks + if shown.graph is Some { 2int } else { 0 };
            let dim = ThemeStyle::CommitUnhighlighted;
            &&& shown.marked is Some ==> row[0] is Themed && row[0]->Themed_1
                == (ThemeStyle::LogMarker { selected })
            &&& shown.graph is Some ==> row[marks] is Themed && row[marks]->Themed_1 is Default
            &&& row[at] == SpanView::Themed(
                shown.hash,
                if shown.normal { ThemeStyle::CommitHash { selected } } else { dim },
            )
            &&& row[at + 2] == SpanView::Themed(
                shown.time,
                if shown.normal { ThemeStyle::CommitTime { selected } } else { dim },
            )
            &&& row[at + 4] is Themed
            &&& row[at + 4]->Themed_1 == if shown.normal {
                ThemeStyle::CommitAuthor { selected }
            } else {
                dim
            }
            &&& row[at + 1] == SpanView::Themed(
                seq![' '],
                if shown.normal { ThemeStyle::Text { selected } } else { ThemeStyle::Default },
            )
            &&& shown.tags is Some ==> row[at + 7] == SpanView::Themed(
                shown.tags->0,
                if shown.normal { ThemeStyle::Tags { selected } } else { dim },
            )
            &&& shown.tags is None && shown.local_branches is Some ==> row[at + 7]
                == SpanView::Themed(
                shown.local_branches->0,
                if shown.normal { ThemeStyle::Branch { selected } } else { dim },
            )
            &&& shown.tags is Some && shown.local_branches is Some ==> row[at + 9]
                == SpanView::Themed(
                shown.local_branches->0,
                if shown.normal { ThemeStyle::Branch { selected } } else { dim },
            )
            &&& shown.remote_branches is Some ==> row[row.len() - 3] == SpanView::Themed(
                shown.remote_branches->0,
                if shown.normal { ThemeStyle::Branch { selected } } else { dim },
            )
            &&& row[row.len() - 2] == row[at + 1]
            &&& row.last() is Themed
            &&& row.last()->Themed_1 == if shown.normal {
                ThemeStyle::Text { selected }
            } else {
                dim
            }
        }),
{
}

/// The author has a third of what a row has beyond its other columns, but at least three columns,
/// and twenty at most.
pub proof fn law_author_width(width: int)
    ensures
        3 <= author_width(width) <= 20,
        28 <= width <= 81 ==> 3 * author_width(width) <= width - 19 < 3 * author_width(width) + 3,
        width < 28 ==> author_width(width) == 3,
        width > 79 ==> author_width(width) == 20,
{
}

/// Tags are shown in angle brackets, with a space between them, and none is left out.
pub proof fn law_tags_label(a: Seq<Tag>, b: Seq<Tag>)
    ensures
        a.len() == 1 ==> tags_label(a) == seq!['<'] + a[0].name@ + seq!['>'],
        a.len() > 0 && b.len() > 0 ==> tags_label(a + b) == tags_label(a) + seq![' '] + tags_label(
            b,
        ),
        tags_label(Seq::empty()) == Seq::<char>::empty(),
{
    let names = |tags: Seq<Tag>| tags.map_values(|tag: Tag| bracketed('<', tag.name@, '>'));
    law_joined_in_two(names(a), names(b), seq![' ']);
    assert(names(a + b) =~= names(a) + names(b));
    assert(names(Seq::empty()) =~= Seq::<Seq<char>>::empty());
}

/// Branches are shown in brackets, with a space between them, and none is left out.
pub proof fn law_branches_label(a: Seq<BranchInfo>, b: Seq<BranchInfo>, open: char, close: char)
    ensures
        a.len() == 1 ==> branches_label(a, open, close) == seq![open] + a[0].name@ + seq![close],
        a.len() > 0 && b.len() > 0 ==> branches_label(a + b, open, close) == branches_label(
            a,
            open,
            close,
        ) + seq![' '] + branches_label(b, open, close),
        branches_label(Seq::empty(), open, close) == Seq::<char>::empty(),
{
    let names = |branches: Seq<BranchInfo>|
        branches.map_values(|branch: BranchInfo| bracketed(open, branch.name@, close));
    law_joined_in_two(names(a), names(b), seq![' ']);
    assert(names(a + b) =~= names(a) + names(b));
    assert(names(Seq::empty()) =~= Seq::<Seq<char>>::empty());
}

/// A remote branch is left out exactly where its commit has local branches on record, and each of
/// them has it as its upstream branch.
pub proof fn law_followed_remote_is_left_out(local: Option<Seq<BranchInfo>>, remote: BranchInfo)
    ensures
        !shows_remote(local, remote) <==> local is Some && forall|i: int|
            0 <= i < local->0.len() ==> ((#[trigger] local->0[i]).details is Local
                && local->0[i].details->Local_0.upstream is Some
                && local->0[i].details->Local_0.upstream->0.reference@ == remote.reference@),
{
    if local is Some {
        let branches = local->0;
        if !shows_remote(local, remote) {
            assert forall|i: int| 0 <= i < branches.len() implies ((
            #[trigger] branches[i]).details is Local
                && branches[i].details->Local_0.upstream is Some
                && branches[i].details->Local_0.upstream->0.reference@ == remote.reference@) by {
                assert(follows(branches[i], remote));
            }
        }
    }
}

/// The remote branches of a commit that are shown keep their order, and are those that are not left
/// out. Where all of them are left out there is no label, else it holds them in square brackets.
pub proof fn law_shown_remotes(
    local: Option<Seq<BranchInfo>>,
    a: Seq<BranchInfo>,
    branch: BranchInfo,
)
    ensures
        shown_remotes(local, Seq::empty()) == Seq::<BranchInfo>::empty(),
        shows_remote(local, branch) ==> shown_remotes(local, a.push(branch)) == shown_remotes(
            local,
            a,
        ).push(branch),
        !shows_remote(local, branch) ==> shown_remotes(local, a.push(branch)) == shown_remotes(
            local,
            a,
        ),
        remote_label(local, None) is None,
        remote_label(local, Some(a)) is Some <==> shown_remotes(local, a).len() > 0,
        shown_remotes(local, a).len() > 0 ==> remote_label(local, Some(a)) == Some(
            branches_label(shown_remotes(local, a), '[', ']'),
        ),
{
    reveal(Seq::filter);
    assert(a.push(branch).drop_last() =~= a);
}

/// The list shows of a loaded commit what is known of it: its own fields, the tags and branches at
/// it, and its mark once any commit is marked. It is selected where its place is the selected one.
pub proof fn law_listed_commit(list: CommitList, i: int, time: Seq<char>)
    requires
        0 <= i < list.items.items@.len(),
    ensures
        ({
            let e = list.items.items@[i];
            let shown = list.listed_view(i, time);
            let local = list.local_branches@;
            let remote = list.remote_branches@;
            &&& shown.graph is None
            &&& shown.hash == e.hash_short@
            &&& shown.time == time
            &&& shown.author == e.author@
            &&& shown.msg == e.msg@
            &&& shown.selected <==> i == list.selection.commit_index.0
            &&& shown.normal <==> !list.items.highlighting || e.highlighted
            &&& shown.marked is Some <==> list.marked@.len() > 0
            &&& list.marked@.len() > 0 ==> (shown.marked == Some(true) <==> exists|k: int|
                0 <= k < list.marked@.len() && (#[trigger] list.marked@[k]).1 == e.id)
            &&& shown.tags is Some <==> list.tags is Some && list.tags->0@.dom().contains(e.id)
            &&& shown.tags is Some ==> shown.tags == Some(tags_label(list.tags->0@[e.id]))
            &&& shown.local_branches is Some <==> local.dom().contains(e.id)
            &&& local.dom().contains(e.id) ==> shown.local_branches == Some(
                branches_label(local[e.id], '{', '}'),
            )
            &&& !remote.dom().contains(e.id) ==> shown.remote_branches is None
            &&& remote.dom().contains(e.id) ==> shown.remote_branches == remote_label(
                if local.dom().contains(e.id) { Some(local[e.id]) } else { None },
                Some(remote[e.id]),
            )
        }),
{
}

/// As many rows are listed as there are loaded commits from the first one shown on, but no more
/// than the view has.
pub proof fn law_listed_rows(list: CommitList, height: nat)
    ensures
        ({
            let top = list.scroll_top.commit_index.0;
            let count = list.items.items@.len();
            let rows = list.listed_rows(height as int);
            &&& 0 <= rows <= height
            &&& top < count ==> top + rows <= count && (rows == height || top + rows == count)
            &&& top >= count ==> rows == 0
        }),
{
}

/// A graph is asked for exactly where none is there. It covers two hundred commits, from the first
/// commit of the view on where that is loaded, else from the head on.
pub proof fn law_graph_request(list: CommitList, cached: bool, request: Option<GraphRequest>)
    requires
        list.asks_for_graph(cached, request),
    ensures
        request is None <==> cached,
        request is Some ==> request->0.count == 200,
        request is Some ==> ({
            let start = match list.items.index_offset {
                Some(start) => start as int,
                None => 0,
            };
            let position = list.scroll_top.commit_index.0 - start;
            request->0.start_rev@ == if 0 <= position < list.items.items@.len() {
                list.items.items@[position].id.text().take(7)
            } else {
                "HEAD"@
            }
        }),
        list.place().top == list.scroll_top.commit_index.0,
{
}

/// The bytes of a row are those of the texts of its pieces in UTF-8, taken together.
pub proof fn law_row_bytes(
    a: Seq<SpanView>,
    b: Seq<SpanView>,
    content: Seq<char>,
    style: ThemeStyle,
    span: AnsiSpanView,
)
    ensures
        row_bytes(Seq::empty()) == 0,
        row_bytes(a + b) == row_bytes(a) + row_bytes(b),
        row_bytes(seq![SpanView::Themed(content, style)]) == vstd::utf8::encode_utf8(
            content,
        ).len() as usize,
        row_bytes(seq![SpanView::Ansi(span)]) == vstd::utf8::encode_utf8(span.0).len() as usize,
{
    lemma_row_text(a, b);
    let themed = seq![SpanView::Themed(content, style)];
    let ansi = seq![SpanView::Ansi(span)];
    assert(themed.drop_last() =~= Seq::<SpanView>::empty());
    assert(ansi.drop_last() =~= Seq::<SpanView>::empty());
    assert(row_bytes(Seq::<SpanView>::empty()) == 0);
    assert(themed.last() == SpanView::Themed(content, style));
    assert(ansi.last() == SpanView::Ansi(span));
}

/// A row of a loaded commit shows the graph, the labels, the time and the mark that it is given,
/// and what the commit itself tells. The commit is in full colours where it is highlighted or
/// nothing is.
pub proof fn law_entry_shown(
    list: CommitList,
    graph: Option<Seq<char>>,
    e: LogEntry,
    selected: bool,
    tags: Option<Seq<char>>,
    local_branches: Option<Seq<char>>,
    remote_branches: Option<Seq<char>>,
    time: Seq<char>,
    marked: Option<bool>,
)
    ensures
        ({
            let shown = list.entry_view(
                graph,
                e,
                selected,
                tags,
                local_branches,
                remote_branches,
                time,
                marked,
            );
            &&& shown.graph == graph
            &&& shown.hash == e.hash_short@
            &&& shown.time == time
            &&& shown.author == e.author@
            &&& shown.msg == e.msg@
            &&& shown.tags == tags
            &&& shown.local_branches == local_branches
            &&& shown.remote_branches == remote_branches
            &&& shown.marked == marked
            &&& shown.selected == selected
            &&& shown.normal <==> e.highlighted || !list.items.highlighting
        }),
{
}

/// A row of the graph that is made reads as the arrow where it is selected, the whole line of the
/// graph, a bar and the whole text, and has as many styled pieces as the two have.
pub proof fn law_made_graph_row(
    line: usize,
    selected: bool,
    graph: Vec<AnsiSpan>,
    text: Vec<AnsiSpan>,
    r: Vec<Span>,
)
    requires
        call_ensures(graph_row, (line, selected, Some(graph), Some(text)), r),
    ensures
        row_text(row_view(r@)) == (if selected {
            "-->"@
        } else {
            Seq::empty()
        }) + styled_text(ansi_line_view(graph)) + "|"@ + styled_text(ansi_line_view(text)),
        styled_count(row_view(r@)) == graph@.len() + text@.len(),
{
    law_graph_row_text(
        line as nat,
        selected,
        Some(ansi_line_view(graph)),
        Some(ansi_line_view(text)),
    );
}

/// Each row of a view with the graph reads as the line of the graph and the line of the text at
/// that row, with a bar between them. The arrow stands in front of the selected line only.
pub proof fn law_graph_view(
    list: &CommitList,
    height: usize,
    graph_lines: &Vec<String>,
    text_lines: &Vec<String>,
    r: Vec<Vec<Span>>,
    i: int,
)
    requires
        call_requires(CommitList::get_text_graph, (list, height, graph_lines, text_lines)),
        call_ensures(CommitList::get_text_graph, (list, height, graph_lines, text_lines), r),
        0 <= i < height,
        i < graph_lines@.len(),
        i < text_lines@.len(),
    ensures
        r@.len() == height,
        ({
            let graph = ansi_lines(graph_lines@[i]@)[0];
            let text = ansi_lines(text_lines@[i]@)[0];
            let selected = list.scroll_top.commit_index.0 + i == list.selection.commit_index.0;
            &&& row_text(row_view(r@[i]@)) == (if selected {
                "-->"@
            } else {
                Seq::empty()
            }) + styled_text(graph) + "|"@ + styled_text(text)
            &&& styled_count(row_view(r@[i]@)) == graph.len() + text.len()
        }),
{
    law_graph_row_text(
        i as nat,
        list.scroll_top.index() + i == list.selected(),
        line_spans(graph_lines@, i),
        line_spans(text_lines@, i),
    );
}

/// Each row of a list without the graph shows the loaded commit at its place: its short id, its
/// time and its message, in styles that tell whether it is the selected one. Rows are there for as
/// many commits as are loaded from the first one shown on, as far as the view has rows.
pub proof fn law_list_view(
    list: &CommitList,
    height: usize,
    width: usize,
    times: &Vec<String>,
    r: Vec<Vec<Span>>,
    i: int,
)
    requires
        call_requires(CommitList::get_text_no_graph, (list, height, width, times)),
        call_ensures(CommitList::get_text_no_graph, (list, height, width, times), r),
        0 <= i < height,
        list.scroll_top.commit_index.0 + i < list.items.items@.len(),
    ensures
        i < r@.len() <= height,
        ({
            let place = list.scroll_top.commit_index.0 + i;
            let e = list.items.items@[place];
            let selected = place == list.selection.commit_index.0;
            let normal = e.highlighted || !list.items.highlighting;
            let dim = ThemeStyle::CommitUnhighlighted;
            let row = row_view(r@[i]@);
            let at = if list.marked@.len() > 0 { 2int } else { 0 };
            &&& row[at] == SpanView::Themed(
                e.hash_short@,
                if normal { ThemeStyle::CommitHash { selected } } else { dim },
            )
            &&& row[at + 2] == SpanView::Themed(
                times@[place]@,
                if normal { ThemeStyle::CommitTime { selected } } else { dim },
            )
            &&& row.last() is Themed
            &&& row.last()->Themed_0.len() >= e.msg@.len()
            &&& row.last()->Themed_0.take(e.msg@.len() as int) == e.msg@
            &&& row.last()->Themed_1 == if normal { ThemeStyle::Text { selected } } else { dim }
        }),
{
    let place = list.scroll_top.commit_index.0 + i;
    let shown = list.listed_view(place, times@[place]@);
    law_listed_rows(*list, height as nat);
    law_listed_commit(*list, place, times@[place]@);
    law_row_styles(shown, width as int);
    let row = row_view(r@[i]@);
    assert(row == shown.row(width as int));
    let used = row_bytes(shown.head(width as int));
    law_padded_content(
        shown.msg,
        (if used <= width {
            width - used
        } else {
            0
        }) as nat,
    );
}

} // verus!
